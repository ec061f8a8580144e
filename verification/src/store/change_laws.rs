//! What each change of the store does to the rows, and what it leaves alone.

use vstd::prelude::*;

use super::accounts::{named_account, proper_path};
use super::categories::normal_path;
use super::enrichments::{assigned_to, Assignment};
use super::query_laws::{in_transfer, is_standing};
use super::{Error, Tables, TransactionStore};
use crate::model::{
    Account, CategorySource, Confidence, Filter, FilterOverride, Timestamp, TransactionEnrichment,
    Transfer, TransferSource,
};
use crate::tag::{canonical, tag_set, usable};
use crate::text::{is_white, lex_le, trimmed, views};
use crate::text_laws::{
    a_blank_text_trims_to_nothing, parting_cuts_at_the_first, stripping_takes_the_character_around,
    trimming_takes_the_blanks_around, trimming_the_end_takes_the_blanks_there,
};
use crate::tui::tag_editor::tag_set_is_complete;

verus! {

/// The enrichment is the assignment; one that was there keeps its id and the time it
/// was made.
pub open spec fn is_assigned(
    before: Tables,
    after: Tables,
    tx_id: i64,
    a: Assignment,
    now: Timestamp,
) -> bool {
    let (was, is) = (before.enrichments[tx_id], after.enrichments[tx_id]);
    &&& after.enrichments.contains_key(tx_id)
    &&& is.transaction_id == tx_id
    &&& is.category_id == Some(a.category_id)
    &&& is.category_source == Some(a.source)
    &&& is.category_confirmed == a.confirmed
    &&& is.ai_confidence == a.ai_confidence
    &&& is.updated_at == now
    &&& if before.enrichments.contains_key(tx_id) {
        is.id == was.id && is.created_at == was.created_at
    } else {
        is.created_at == now
    }
}

/// The transaction's enrichment is what it was.
pub open spec fn enrichment_stays(before: Tables, after: Tables, tx_id: i64) -> bool {
    &&& after.enrichments.contains_key(tx_id) == before.enrichments.contains_key(tx_id)
    &&& before.enrichments.contains_key(tx_id) ==> after.enrichments[tx_id]
        == before.enrichments[tx_id]
}

/// Assigning a category is refused exactly for a transfer leg, or for want of a row id,
/// and then changes nothing. Otherwise the transaction has the category, and nothing
/// else changes.
pub proof fn a_category_is_assigned_to_one_transaction(
    before: TransactionStore,
    tx_id: i64,
    category_id: i64,
    source: CategorySource,
    confirmed: bool,
    ai_confidence: Option<Confidence>,
    now: Timestamp,
    result: Result<(), Error>,
    after: TransactionStore,
    other: i64,
)
    requires
        before.set_category_leads_to(
            tx_id,
            category_id,
            source,
            confirmed,
            ai_confidence,
            now,
            result,
            after,
        ),
        other != tx_id,
    ensures
        in_transfer(before@, tx_id) <==> (result matches Err(Error::TransactionInTransfer(id))
            && id == tx_id),
        result is Ok ==> is_assigned(
            before@,
            after@,
            tx_id,
            Assignment { category_id, source, confirmed, ai_confidence },
            now,
        ),
        result is Err ==> after@ == before@,
        !in_transfer(before@, tx_id) && before@.enrichments.contains_key(tx_id) ==> result is Ok,
        enrichment_stays(before@, after@, other),
        after@ == (Tables { enrichments: after@.enrichments, ..before@ }),
{
    assert(before@.is_leg(tx_id) == in_transfer(before@, tx_id));
}

proof fn lemma_assigned_to(
    t: Tables,
    ids: Seq<i64>,
    a: Assignment,
    next: int,
    now: Timestamp,
    tx: i64,
)
    ensures
        ({
            let u = assigned_to(t, ids, a, next, now).0;
            &&& u == (Tables { enrichments: u.enrichments, ..t })
            &&& if ids.contains(tx) && !in_transfer(t, tx) {
                is_assigned(t, u, tx, a, now)
            } else {
                enrichment_stays(t, u, tx)
            }
        }),
    decreases ids.len(),
{
    if ids.len() > 0 {
        let rest = ids.drop_last();
        let last = ids.last();
        let (u, n) = assigned_to(t, rest, a, next, now);
        lemma_assigned_to(t, rest, a, next, now, tx);
        assert(u.is_leg(last) == in_transfer(t, last)) by {
            assert(u.transfers == t.transfers);
        }
        if rest.contains(tx) {
            let i = choose|i: int| 0 <= i < rest.len() && rest[i] == tx;
            assert(ids[i] == tx);
        }
        if ids.contains(tx) && !rest.contains(tx) {
            let i = choose|i: int| 0 <= i < ids.len() && ids[i] == tx;
            if i < rest.len() {
                assert(rest[i] == tx);
            }
            assert(tx == last);
        }
        assert(ids[ids.len() - 1] == last);
    }
}

/// Assigning a category to many transactions assigns it to each of them that is no
/// transfer leg, and to no other; the count is that of the ids that are none.
pub proof fn a_category_is_assigned_to_all_but_legs(
    before: TransactionStore,
    ids: &Vec<i64>,
    category_id: i64,
    source: CategorySource,
    confirmed: bool,
    ai_confidence: Option<Confidence>,
    now: Timestamp,
    count: usize,
    after: TransactionStore,
    tx: i64,
)
    requires
        before.set_categories_leads_to(
            ids,
            category_id,
            source,
            confirmed,
            ai_confidence,
            now,
            Ok(count),
            after,
        ),
    ensures
        if ids@.contains(tx) && !in_transfer(before@, tx) {
            is_assigned(
                before@,
                after@,
                tx,
                Assignment { category_id, source, confirmed, ai_confidence },
                now,
            )
        } else {
            enrichment_stays(before@, after@, tx)
        },
        count == ids@.filter(|id: i64| !in_transfer(before@, id)).len(),
        after@ == (Tables { enrichments: after@.enrichments, ..before@ }),
{
    let a = Assignment { category_id, source, confirmed, ai_confidence };
    let top = choose|top: int| #[trigger]
        before@.next_enrichment_id(top) && top + ids@.len() <= i64::MAX && after@ == assigned_to(
            before@,
            ids@,
            a,
            top,
            now,
        ).0;
    lemma_assigned_to(before@, ids@, a, top, now, tx);
    let (p, q) = (
        |id: i64| !before@.is_leg(id),
        |id: i64| !in_transfer(before@, id),
    );
    lemma_same_filter(ids@, p, q);
}

proof fn lemma_same_filter(ids: Seq<i64>, p: spec_fn(i64) -> bool, q: spec_fn(i64) -> bool)
    requires
        forall|id: i64| #[trigger] p(id) == q(id),
    ensures
        ids.filter(p) == ids.filter(q),
    decreases ids.len(),
{
    reveal(Seq::filter);
    if ids.len() > 0 {
        lemma_same_filter(ids.drop_last(), p, q);
        assert(p(ids.last()) == q(ids.last()));
    } else {
        assert(ids.filter(p) =~= ids.filter(q));
    }
}

/// Confirming a category sets its mark and the time of the change, and nothing else.
/// Removing one takes the enrichment away, and no other.
pub proof fn confirming_and_removing_touch_one_category(
    before: TransactionStore,
    tx_id: i64,
    now: Timestamp,
    confirmed: TransactionStore,
    removed: TransactionStore,
    other: i64,
)
    requires
        before.confirm_category_leads_to(tx_id, now, confirmed),
        before.delete_enrichment_leads_to(tx_id, removed),
        other != tx_id,
    ensures
        confirmed@.enrichments.contains_key(tx_id) == before@.enrichments.contains_key(tx_id),
        before@.enrichments.contains_key(tx_id) ==> confirmed@.enrichments[tx_id] == (
        TransactionEnrichment {
            category_confirmed: true,
            updated_at: now,
            ..before@.enrichments[tx_id]
        }),
        enrichment_stays(before@, confirmed@, other),
        confirmed@ == (Tables { enrichments: confirmed@.enrichments, ..before@ }),
        !removed@.enrichments.contains_key(tx_id),
        enrichment_stays(before@, removed@, other),
        removed@ == (Tables { enrichments: removed@.enrichments, ..before@ }),
{
}

/// Linking two transactions makes one transfer from the first to the second under a
/// new id, and takes the enrichments of both; nothing else changes.
pub proof fn linking_makes_one_transfer(
    before: TransactionStore,
    from: i64,
    to: i64,
    source: TransferSource,
    confirmed: bool,
    confidence: Option<Confidence>,
    now: Timestamp,
    id: i64,
    after: TransactionStore,
    other: i64,
)
    requires
        before.create_transfer_leads_to(
            from,
            to,
            source,
            confirmed,
            confidence,
            now,
            Ok(id),
            after,
        ),
        other != from,
        other != to,
    ensures
        !before@.transfers.contains_key(id),
        after@.transfers == before@.transfers.insert(
            id,
            Transfer {
                id,
                from_transaction_id: from,
                to_transaction_id: to,
                source,
                confirmed,
                created_at: now,
                ai_confidence: confidence,
            },
        ),
        !after@.enrichments.contains_key(from),
        !after@.enrichments.contains_key(to),
        enrichment_stays(before@, after@, other),
        in_transfer(after@, from),
        in_transfer(after@, to),
        after@ == (Tables {
            enrichments: after@.enrichments,
            transfers: after@.transfers,
            ..before@
        }),
{
    assert(after@.transfers.contains_key(id));
}

/// Confirming a transfer sets its mark and nothing else; deleting one takes that row
/// away and no other, and leaves every category.
pub proof fn confirming_and_deleting_touch_one_transfer(
    before: TransactionStore,
    id: i64,
    confirmed: TransactionStore,
    deleted: TransactionStore,
    other: i64,
)
    requires
        before.confirm_transfer_leads_to(id, confirmed),
        before.delete_transfer_leads_to(id, deleted),
        other != id,
    ensures
        confirmed@.transfers.dom() == before@.transfers.dom(),
        before@.transfers.contains_key(id) ==> confirmed@.transfers[id] == (Transfer {
            confirmed: true,
            ..before@.transfers[id]
        }),
        before@.transfers.contains_key(other) ==> confirmed@.transfers[other]
            == before@.transfers[other],
        confirmed@ == (Tables { transfers: confirmed@.transfers, ..before@ }),
        !deleted@.transfers.contains_key(id),
        deleted@.transfers.contains_key(other) == before@.transfers.contains_key(other),
        before@.transfers.contains_key(other) ==> deleted@.transfers[other]
            == before@.transfers[other],
        deleted@ == (Tables { transfers: deleted@.transfers, ..before@ }),
{
    assert(confirmed@.transfers.dom() =~= before@.transfers.dom());
}

/// A category's path is stored without the blanks around it and without the slashes
/// that stand there then; what is between stays.
pub proof fn a_path_is_stored_without_blanks_and_slashes(path: Seq<char>)
    ensures
        exists|a: int, b: int, c: int, d: int|
            {
                &&& 0 <= a <= c <= d <= b <= path.len()
                &&& #[trigger] path.subrange(c, d) == normal_path(path)
                &&& #[trigger] path.subrange(a, b) == trimmed(path)
                &&& forall|i: int| 0 <= i < a || b <= i < path.len() ==> is_white(#[trigger] path[i])
                &&& forall|i: int| a <= i < c || d <= i < b ==> #[trigger] path[i] == '/'
                &&& a < b ==> !is_white(path[a]) && !is_white(path[b - 1])
                &&& c < d ==> path[c] != '/' && path[d - 1] != '/'
            },
{
    trimming_takes_the_blanks_around(path);
    let (a, b) = choose|a: int, b: int|
        {
            &&& 0 <= a <= b <= path.len()
            &&& trimmed(path) == #[trigger] path.subrange(a, b)
            &&& forall|i: int| 0 <= i < a || b <= i < path.len() ==> is_white(#[trigger] path[i])
            &&& a < b ==> !is_white(path[a]) && !is_white(path[b - 1])
        };
    let t = trimmed(path);
    stripping_takes_the_character_around(t, '/');
    let x = choose|x: int|
        {
            &&& 0 <= x <= t.len()
            &&& crate::text::stripped_start(t, '/') == #[trigger] t.skip(x)
            &&& forall|i: int| 0 <= i < x ==> #[trigger] t[i] == '/'
            &&& x < t.len() ==> t[x] != '/'
        };
    let s = t.skip(x);
    stripping_takes_the_character_around(s, '/');
    let y = choose|y: int|
        {
            &&& 0 <= y <= s.len()
            &&& crate::text::stripped_end(s, '/') == #[trigger] s.take(y)
            &&& forall|i: int| y <= i < s.len() ==> #[trigger] s[i] == '/'
            &&& y > 0 ==> s[y - 1] != '/'
        };
    let (c, d) = (a + x, a + x + y);
    assert(s.take(y) =~= path.subrange(c, d));
    assert forall|i: int| a <= i < c || d <= i < b implies #[trigger] path[i] == '/' by {
        if i < c {
            assert(t[i - a] == path[i]);
        } else {
            assert(s[i - c] == path[i]);
        }
    }
    if c < d {
        assert(s[0] == path[c]);
        assert(t[x] == path[c]);
        assert(s[y - 1] == path[d - 1]);
    }
    assert(path.subrange(a, b) == trimmed(path));
    assert(path.subrange(c, d) == normal_path(path));
}

/// A category has the path.
pub open spec fn has_category(t: Tables, path: Seq<char>, id: i64) -> bool {
    t.categories.contains_key(id) && t.categories[id].path@ == path
}

/// Asking for a category gives the one with the path where there is one, and changes
/// nothing then. Otherwise it makes one row with the path, under a new id.
pub proof fn a_category_is_found_or_made(
    before: TransactionStore,
    path: &str,
    now: Timestamp,
    id: i64,
    after: TransactionStore,
)
    requires
        before.get_or_create_category_leads_to(path, now, Ok(id), after),
    ensures
        has_category(after@, normal_path(path@), id),
        (exists|k: i64| #[trigger] has_category(before@, normal_path(path@), k)) ==> after@
            == before@,
        !(exists|k: i64| #[trigger] has_category(before@, normal_path(path@), k)) ==> {
            let row = after@.categories[id];
            &&& !before@.categories.contains_key(id)
            &&& after@ == (Tables { categories: before@.categories.insert(id, row), ..before@ })
            &&& row.id == id && row.created_at == now
        },
{
    let p = normal_path(path@);
    if exists|k: i64| #[trigger] has_category(before@, p, k) {
        let k = choose|k: i64| #[trigger] has_category(before@, p, k);
        assert(before@.categories.contains_key(k));
    }
    if before@.has_path(p) {
        let k = choose|k: i64| #[trigger]
            before@.categories.contains_key(k) && before@.categories[k].path@ == p;
        assert(has_category(before@, p, k));
    }
}

/// Renaming a category is refused exactly where another one has the path, and says
/// which path; it changes nothing then. Otherwise the path of that row changes and
/// nothing else.
pub proof fn a_category_is_renamed_unless_the_path_is_taken(
    before: TransactionStore,
    id: i64,
    path: &str,
    result: Result<(), Error>,
    after: TransactionStore,
    other: i64,
)
    requires
        before.rename_category_leads_to(id, path, result, after),
        other != id,
    ensures
        result is Err <==> exists|k: i64| #[trigger]
            has_category(before@, normal_path(path@), k) && k != id,
        result is Err ==> after@ == before@ && (result matches Err(Error::CategoryExists(p)) && p@
            == normal_path(path@)),
        result is Ok && before@.categories.contains_key(id) ==> has_category(
            after@,
            normal_path(path@),
            id,
        ) && after@.categories[id].created_at == before@.categories[id].created_at,
        after@.categories.dom() == before@.categories.dom(),
        before@.categories.contains_key(other) ==> after@.categories[other]
            == before@.categories[other],
        after@ == (Tables { categories: after@.categories, ..before@ }),
{
    let p = normal_path(path@);
    if before@.path_taken(p, id) {
        let k = choose|k: i64| #[trigger]
            before@.categories.contains_key(k) && k != id && before@.categories[k].path@ == p;
        assert(has_category(before@, p, k) && k != id);
    }
    if exists|k: i64| #[trigger] has_category(before@, p, k) && k != id {
        let k = choose|k: i64| #[trigger] has_category(before@, p, k) && k != id;
        assert(before@.categories.contains_key(k));
    }
    assert(after@.categories.dom() =~= before@.categories.dom());
}

/// Merging a category into another gives what was assigned to the first to the second,
/// and the filters with it, and takes the first away. Every other assignment and every
/// other filter stays.
pub proof fn merging_moves_all_that_the_source_had(
    before: TransactionStore,
    source: i64,
    target: i64,
    now: Timestamp,
    after: TransactionStore,
    k: i64,
)
    requires
        before.merge_categories_leads_to(source, target, now, after),
    ensures
        after@.enrichments.dom() == before@.enrichments.dom(),
        before@.enrichments.contains_key(k) ==> after@.enrichments[k]
            == if before@.enrichments[k].category_id == Some(source) {
            TransactionEnrichment {
                category_id: Some(target),
                updated_at: now,
                ..before@.enrichments[k]
            }
        } else {
            before@.enrichments[k]
        },
        after@.filters.dom() == before@.filters.dom(),
        before@.filters.contains_key(k) ==> after@.filters[k] == if before@.filters[k].category_id
            == Some(source) {
            Filter { category_id: Some(target), ..before@.filters[k] }
        } else {
            before@.filters[k]
        },
        after@.categories.contains_key(k) <==> before@.categories.contains_key(k) && k != source,
        after@.categories.contains_key(k) ==> after@.categories[k] == before@.categories[k],
        after@ == (Tables {
            enrichments: after@.enrichments,
            filters: after@.filters,
            categories: after@.categories,
            ..before@
        }),
{
    assert(after@.enrichments.dom() =~= before@.enrichments.dom());
    assert(after@.filters.dom() =~= before@.filters.dom());
}

/// Deleting a category takes it away with the assignments to it, which are counted, and
/// clears the filters that apply it. Nothing else changes.
pub proof fn deleting_a_category_clears_all_that_names_it(
    before: TransactionStore,
    id: i64,
    affected: usize,
    after: TransactionStore,
    k: i64,
)
    requires
        before.delete_category_leads_to(id, affected, after),
    ensures
        after@.enrichments.contains_key(k) <==> before@.enrichments.contains_key(k)
            && before@.enrichments[k].category_id != Some(id),
        after@.enrichments.contains_key(k) ==> after@.enrichments[k] == before@.enrichments[k],
        affected == Set::new(
            |tx: i64|
                before@.enrichments.contains_key(tx) && before@.enrichments[tx].category_id == Some(
                    id,
                ),
        ).len(),
        after@.filters.dom() == before@.filters.dom(),
        before@.filters.contains_key(k) ==> after@.filters[k] == if before@.filters[k].category_id
            == Some(id) {
            Filter { category_id: None, ..before@.filters[k] }
        } else {
            before@.filters[k]
        },
        after@.categories.contains_key(k) <==> before@.categories.contains_key(k) && k != id,
        after@.categories.contains_key(k) ==> after@.categories[k] == before@.categories[k],
        after@ == (Tables {
            enrichments: after@.enrichments,
            filters: after@.filters,
            categories: after@.categories,
            ..before@
        }),
{
    assert(before@.members(id) =~= Set::new(
        |tx: i64|
            before@.enrichments.contains_key(tx) && before@.enrichments[tx].category_id == Some(id),
    ));
    assert(after@.filters.dom() =~= before@.filters.dom());
}

/// A new filter has the name and the query, no category, mode Uncategorised and no
/// review, and stands one behind the last position, or at zero where it is the first.
pub proof fn a_new_filter_is_blank_and_last(
    before: TransactionStore,
    name: &str,
    query: &str,
    now: Timestamp,
    id: i64,
    after: TransactionStore,
    other: i64,
)
    requires
        before.create_filter_leads_to(name, query, now, Ok(id), after),
    ensures
        ({
            let row = after@.filters[id];
            &&& !before@.filters.contains_key(id)
            &&& after@ == (Tables { filters: before@.filters.insert(id, row), ..before@ })
            &&& row.id == id && row.name@ == name@ && row.query@ == query@
            &&& row.category_id is None
            &&& row.override_mode == FilterOverride::Uncategorised
            &&& !row.review_required
            &&& row.created_at == now
            &&& before@.filters.contains_key(other) ==> before@.filters[other].position
                < row.position
            &&& row.position != 0 ==> exists|k: i64| #[trigger]
                before@.filters.contains_key(k) && before@.filters[k].position + 1 == row.position
            &&& before@.filters.dom() == Set::<i64>::empty() ==> row.position == 0
        }),
{
    if before@.filters.contains_key(other) {
        assert(!(before@.filters.dom() =~= Set::<i64>::empty()));
    }
    let position = after@.filters[id].position;
    if position != 0 {
        let k = choose|k: i64| #[trigger]
            before@.filters.contains_key(k) && before@.filters[k].position == position - 1;
        assert(before@.filters.contains_key(k));
    }
}

/// Each change of a filter's setting changes that setting of that filter, and nothing
/// else.
pub proof fn a_setting_of_one_filter_changes(
    before: TransactionStore,
    id: i64,
    text: &str,
    category_id: Option<i64>,
    mode: FilterOverride,
    review: bool,
    renamed: TransactionStore,
    queried: TransactionStore,
    categorised: TransactionStore,
    moded: TransactionStore,
    reviewed: TransactionStore,
    deleted: TransactionStore,
    other: i64,
)
    requires
        before.rename_filter_leads_to(id, text, renamed),
        before.set_filter_query_leads_to(id, text, queried),
        before.set_filter_category_leads_to(id, category_id, categorised),
        before.set_filter_override_leads_to(id, mode, moded),
        before.set_filter_review_leads_to(id, review, reviewed),
        before.delete_filter_leads_to(id, deleted),
        before@.filters.contains_key(id),
        other != id,
    ensures
        ({
            let was = before@.filters[id];
            &&& renamed@.filters[id] == (Filter { name: renamed@.filters[id].name, ..was })
            &&& renamed@.filters[id].name@ == text@
            &&& queried@.filters[id] == (Filter { query: queried@.filters[id].query, ..was })
            &&& queried@.filters[id].query@ == text@
            &&& categorised@.filters[id] == (Filter { category_id, ..was })
            &&& moded@.filters[id] == (Filter { override_mode: mode, ..was })
            &&& reviewed@.filters[id] == (Filter { review_required: review, ..was })
        }),
        forall|after: TransactionStore|
            #![trigger after@]
            after == renamed || after == queried || after == categorised || after == moded || after
                == reviewed ==> {
                &&& after@.filters.dom() == before@.filters.dom()
                &&& before@.filters.contains_key(other) ==> after@.filters[other]
                    == before@.filters[other]
                &&& after@ == (Tables { filters: after@.filters, ..before@ })
            },
        deleted@.filters == before@.filters.remove(id),
        deleted@ == (Tables { filters: deleted@.filters, ..before@ }),
{
    assert(renamed@.filters.dom() =~= before@.filters.dom());
    assert(queried@.filters.dom() =~= before@.filters.dom());
    assert(categorised@.filters.dom() =~= before@.filters.dom());
    assert(moded@.filters.dom() =~= before@.filters.dom());
    assert(reviewed@.filters.dom() =~= before@.filters.dom());
}

/// A note is stored as it was typed but for the blanks at its end, and a blank one
/// takes the stored note away. No other note changes, and nothing else.
pub proof fn a_note_is_stored_as_typed(
    before: TransactionStore,
    tx_id: i64,
    note: &str,
    kept: bool,
    after: TransactionStore,
    other: i64,
)
    requires
        before.set_note_leads_to(tx_id, note, kept, after),
        other != tx_id,
    ensures
        kept == after@.notes.contains_key(tx_id),
        kept <==> exists|i: int| 0 <= i < note@.len() && !is_white(#[trigger] note@[i]),
        kept ==> exists|b: int|
            {
                &&& 0 < b <= note@.len()
                &&& after@.notes[tx_id] == #[trigger] note@.take(b)
                &&& !is_white(note@[b - 1])
                &&& forall|i: int| b <= i < note@.len() ==> is_white(#[trigger] note@[i])
            },
        after@.notes.contains_key(other) == before@.notes.contains_key(other),
        before@.notes.contains_key(other) ==> after@.notes[other] == before@.notes[other],
        after@ == (Tables { notes: after@.notes, ..before@ }),
{
    let s = note@;
    let e = crate::text::trimmed_end(s);
    trimming_the_end_takes_the_blanks_there(s);
    let b = choose|b: int|
        {
            &&& 0 <= b <= s.len()
            &&& e == #[trigger] s.take(b)
            &&& forall|i: int| b <= i < s.len() ==> is_white(#[trigger] s[i])
            &&& b > 0 ==> !is_white(s[b - 1])
        };
    a_blank_text_trims_to_nothing(e);
    a_blank_text_trims_to_nothing(s);
    if kept {
        let i = choose|i: int| 0 <= i < e.len() && !is_white(#[trigger] e[i]);
        assert(s[i] == e[i]);
        assert(e == s.take(b));
        assert(b > 0);
    }
    if exists|i: int| 0 <= i < s.len() && !is_white(#[trigger] s[i]) {
        let i = choose|i: int| 0 <= i < s.len() && !is_white(#[trigger] s[i]);
        assert(i < b);
        assert(e[i] == s[i]);
    }
}

/// The tags of a transaction become the usable spellings among the names, each once and
/// in alphabetical order; those of other transactions stay. A tag is there afterwards
/// exactly if some transaction has it, where that was so before.
pub proof fn tags_become_the_usable_spellings(
    before: TransactionStore,
    tx_id: i64,
    names: &Vec<String>,
    now: Timestamp,
    stored: Vec<String>,
    after: TransactionStore,
    name: Seq<char>,
    other: i64,
)
    requires
        before.set_transaction_tags_leads_to(tx_id, names, now, Ok(stored), after),
        before@.tags_fit(),
        other != tx_id,
    ensures
        ({
            let has = after@.tagged.contains_key(tx_id) && after@.tagged[tx_id].contains(name);
            &&& has <==> views(stored@).contains(name)
            &&& has <==> usable(name) && exists|i: int|
                0 <= i < names@.len() && canonical((#[trigger] names@[i])@) == name
        }),
        after@.tagged.contains_key(tx_id) ==> after@.tagged[tx_id].no_duplicates() && forall|
            i: int,
            j: int,
        |
            0 <= i < j < after@.tagged[tx_id].len() ==> lex_le(
                #[trigger] after@.tagged[tx_id][i],
                #[trigger] after@.tagged[tx_id][j],
            ),
        after@.tagged.contains_key(other) == before@.tagged.contains_key(other),
        before@.tagged.contains_key(other) ==> after@.tagged[other] == before@.tagged[other],
        after@ == (Tables { tagged: after@.tagged, tags: after@.tags, ..before@ }),
        (exists|k: i64| #[trigger] after@.tags.contains_key(k) && after@.tags[k].name@ == name)
            <==> (exists|tx: i64| #[trigger]
            after@.tagged.contains_key(tx) && after@.tagged[tx].contains(name)),
{
    let words = views(names@);
    let wanted = views(stored@);
    tag_set_is_complete(words, name);
    if exists|i: int| 0 <= i < words.len() && canonical(#[trigger] words[i]) == name {
        let i = choose|i: int| 0 <= i < words.len() && canonical(#[trigger] words[i]) == name;
        assert(canonical(names@[i]@) == name);
    }
    if exists|i: int| 0 <= i < names@.len() && canonical((#[trigger] names@[i])@) == name {
        let i = choose|i: int| 0 <= i < names@.len() && canonical((#[trigger] names@[i])@) == name;
        assert(canonical(words[i]) == name);
    }
    assert(wanted.contains(name) <==> tag_set(words).contains(name));
    if stored@.len() == 0 {
        assert(!wanted.contains(name));
    }
    let t = after@;
    if exists|k: i64| #[trigger] t.tags.contains_key(k) && t.tags[k].name@ == name {
        let k = choose|k: i64| #[trigger] t.tags.contains_key(k) && t.tags[k].name@ == name;
        assert(t.in_use(t.tags[k].name@));
    }
    if exists|tx: i64| #[trigger] t.tagged.contains_key(tx) && t.tagged[tx].contains(name) {
        let tx = choose|tx: i64| #[trigger]
            t.tagged.contains_key(tx) && t.tagged[tx].contains(name);
        let i = choose|i: int| 0 <= i < t.tagged[tx].len() && t.tagged[tx][i] == name;
        assert(t.has_tag(t.tagged[tx][i]));
    }
}

/// A path that names an account has one slash: what stands before it is the bank, what
/// stands behind it the account, each without the blanks around it and neither blank.
pub proof fn a_path_names_a_bank_and_an_account(path: Seq<char>)
    ensures
        proper_path(path) <==> exists|a: Seq<char>, b: Seq<char>|
            {
                &&& path == #[trigger] (a + seq!['/'] + b)
                &&& !a.contains('/') && !b.contains('/')
                &&& trimmed(a).len() > 0 && trimmed(b).len() > 0
            },
        forall|a: Seq<char>, b: Seq<char>|
            {
                &&& path == #[trigger] (a + seq!['/'] + b)
                &&& !a.contains('/')
                &&& trimmed(a).len() > 0 && trimmed(b).len() > 0
            } ==> named_account(path) == Some((trimmed(a), trimmed(b))),
{
    parting_cuts_at_the_first(path, '/');
    assert forall|a: Seq<char>, b: Seq<char>| path == #[trigger] (a + seq!['/'] + b) && !a.contains(
        '/',
    ) implies crate::text::parted(path, '/') == Some((a, b)) by {
        lemma_parted(path, a, b);
    }
    match crate::text::parted(path, '/') {
        Some(p) => {
            parting_cuts_at_the_first(p.1, '/');
            if proper_path(path) {
                assert(path == p.0 + seq!['/'] + p.1);
            }
            if exists|a: Seq<char>, b: Seq<char>|
                {
                    &&& path == #[trigger] (a + seq!['/'] + b)
                    &&& !a.contains('/') && !b.contains('/')
                    &&& trimmed(a).len() > 0 && trimmed(b).len() > 0
                } {
                let (a, b) = choose|a: Seq<char>, b: Seq<char>|
                    {
                        &&& path == #[trigger] (a + seq!['/'] + b)
                        &&& !a.contains('/') && !b.contains('/')
                        &&& trimmed(a).len() > 0 && trimmed(b).len() > 0
                    };
                assert(p == (a, b));
                if crate::text::parted(b, '/') is Some {
                    let q = crate::text::parted(b, '/')->0;
                    assert(b[q.0.len() as int] == '/');
                }
            }
        },
        None => {
            assert forall|a: Seq<char>, b: Seq<char>| path != #[trigger] (a + seq!['/'] + b) by {
                let whole = a + seq!['/'] + b;
                assert(whole[a.len() as int] == '/');
            }
        },
    }
}

proof fn lemma_parted(path: Seq<char>, a: Seq<char>, b: Seq<char>)
    requires
        path == a + seq!['/'] + b,
        !a.contains('/'),
    ensures
        crate::text::parted(path, '/') == Some((a, b)),
{
    let n = a.len() as int;
    let p = crate::text::just('/');
    assert(path[n] == '/');
    assert forall|i: int| 0 <= i < n implies !p(#[trigger] path[i]) by {
        assert(path[i] == a[i]);
        assert(a.contains(a[i]));
    }
    crate::find::lemma_first_index_some(path, p, n);
    assert(path.take(n) =~= a);
    assert(path.skip(n + 1) =~= b);
}

/// A renamed account stands, under the bank and the name of the path. It keeps its
/// transactions, which are in that bank then. A bank of the name is used where there is
/// one; no other account and no other bank changes, and no other account, deleted or
/// not, had the bank and the name.
pub proof fn renaming_moves_one_account(
    t: Tables,
    id: i64,
    bank: Seq<char>,
    name: Seq<char>,
    path: Seq<char>,
    on_disk: bool,
    u: Tables,
    k: i64,
)
    requires
        t.account_renamed(id, path, on_disk, u),
        path == bank + seq!['/'] + name,
        !bank.contains('/'),
        trimmed(bank).len() > 0,
        trimmed(name).len() > 0,
    ensures
        is_standing(t, id),
        is_standing(u, id),
        u.accounts[id].name@ == trimmed(name),
        u.banks[u.accounts[id].bank_id].name@ == trimmed(bank),
        u.accounts.dom() == t.accounts.dom(),
        k != id && t.accounts.contains_key(k) ==> u.accounts[k] == t.accounts[k],
        k != u.accounts[id].bank_id ==> u.banks.contains_key(k) == t.banks.contains_key(k) && (
        t.banks.contains_key(k) ==> u.banks[k] == t.banks[k]),
        t.banks.contains_key(k) && t.banks[k].name@ == trimmed(bank) ==> t.banks.contains_key(
            u.accounts[id].bank_id,
        ),
        u.transactions.dom() == t.transactions.dom(),
        t.transactions.contains_key(k) ==> u.transactions[k] == (crate::model::Transaction {
            bank_id: u.transactions[k].bank_id,
            ..t.transactions[k]
        }) && (u != t && t.transactions[k].account_id == id ==> u.transactions[k].bank_id
            == u.accounts[id].bank_id) && (t.transactions[k].account_id != id
            ==> u.transactions[k] == t.transactions[k]),
        u != t ==> !on_disk && !(k != id && t.accounts.contains_key(k) && t.banks.contains_key(
            t.accounts[k].bank_id,
        ) && t.banks[t.accounts[k].bank_id].name@ == trimmed(bank) && t.accounts[k].name@
            == trimmed(name)),
        u == (Tables {
            banks: u.banks,
            accounts: u.accounts,
            transactions: u.transactions,
            ..t
        }),
{
    a_path_names_a_bank_and_an_account(path);
    assert(named_account(path) == Some((trimmed(bank), trimmed(name))));
    assert(t.is_open(id));
    if u != t {
        let (bank_id, created, w) = choose|bank_id: i64, created: bool, between: Tables|
            #[trigger] t.bank_made(trimmed(bank), bank_id, created, between) && {
                let row = u.accounts[id];
                &&& u == (Tables {
                    accounts: between.accounts.insert(id, row),
                    transactions: t.rebanked(id, bank_id),
                    ..between
                })
                &&& row == (Account { bank_id, name: row.name, ..t.accounts[id] })
                &&& row.name@ == trimmed(name)
            };
        if t.banks.contains_key(k) && t.banks[k].name@ == trimmed(bank) {
            assert(t.has_bank(trimmed(bank)));
        }
        if k != id && t.accounts.contains_key(k) {
            assert(!t.stands_at(k, trimmed(bank), trimmed(name)));
        }
    }
    assert(u.accounts.dom() =~= t.accounts.dom());
    assert(u.transactions.dom() =~= t.transactions.dom());
}

} // verus!
