//! What is noted of a change, and what the tables always hold to.

use std::collections::HashMap;

use vstd::prelude::*;

use super::query_laws::in_transfer;
use super::{replay, Change, Error, Hits, Tables, TransactionStore};
use crate::model::{
    CategorySource, Confidence, FilterOverride, Timestamp, Transaction, TransferSource,
};

verus! {

/// What was noted before is still noted, and carrying out what was noted since leads from
/// the one state of the tables to the other.
pub open spec fn noted_between(before: TransactionStore, after: TransactionStore) -> bool {
    let n = before.noted().len() as int;
    &&& n <= after.noted().len()
    &&& forall|i: int| 0 <= i < n ==> #[trigger] after.noted()[i] == before.noted()[i]
    &&& replay(before@, after.noted().subrange(n, after.noted().len() as int)) == after@
}

proof fn lemma_noted(before: TransactionStore, after: TransactionStore)
    requires
        super::journalled(before, after),
    ensures
        noted_between(before, after),
{
    let n = before.noted().len() as int;
    assert(after.noted().skip(n) =~= after.noted().subrange(n, after.noted().len() as int));
    assert forall|i: int| 0 <= i < n implies #[trigger] after.noted()[i] == before.noted()[i] by {
        assert(after.noted().take(n)[i] == after.noted()[i]);
    }
}

/// Whatever is done to categories or to what is assigned to one is noted.
pub proof fn changed_categories_are_noted(
    before: TransactionStore,
    after: TransactionStore,
    path: &str,
    id: i64,
    other: i64,
    count: usize,
    now: Timestamp,
    made: Result<i64, Error>,
    result: Result<(), Error>,
)
    ensures
        before.get_or_create_category_leads_to(path, now, made, after) ==> noted_between(
            before,
            after,
        ),
        before.rename_category_leads_to(id, path, result, after) ==> noted_between(before, after),
        before.merge_categories_leads_to(id, other, now, after) ==> noted_between(before, after),
        before.delete_category_leads_to(id, count, after) ==> noted_between(before, after),
        before.confirm_category_leads_to(id, now, after) ==> noted_between(before, after),
        before.delete_enrichment_leads_to(id, after) ==> noted_between(before, after),
{
    if super::journalled(before, after) {
        lemma_noted(before, after);
    }
}

/// Whatever category is assigned is noted.
pub proof fn assigned_categories_are_noted(
    before: TransactionStore,
    after: TransactionStore,
    tx: i64,
    txs: &Vec<i64>,
    id: i64,
    source: CategorySource,
    confirmed: bool,
    confidence: Option<Confidence>,
    now: Timestamp,
    result: Result<(), Error>,
    count: Result<usize, Error>,
    found: &HashMap<i64, Hits>,
)
    ensures
        before.set_category_leads_to(tx, id, source, confirmed, confidence, now, result, after)
            ==> noted_between(before, after),
        before.set_categories_leads_to(txs, id, source, confirmed, confidence, now, count, after)
            ==> noted_between(before, after),
        before.apply_filters_leads_to(found, now, count, after) ==> noted_between(before, after),
{
    if super::journalled(before, after) {
        lemma_noted(before, after);
    }
}

/// Whatever is done to a filter is noted.
pub proof fn changed_filters_are_noted(
    before: TransactionStore,
    after: TransactionStore,
    id: i64,
    name: &str,
    query: &str,
    category: Option<i64>,
    mode: FilterOverride,
    review: bool,
    now: Timestamp,
    made: Result<i64, Error>,
)
    ensures
        before.create_filter_leads_to(name, query, now, made, after) ==> noted_between(
            before,
            after,
        ),
        before.rename_filter_leads_to(id, name, after) ==> noted_between(before, after),
        before.set_filter_query_leads_to(id, query, after) ==> noted_between(before, after),
        before.set_filter_category_leads_to(id, category, after) ==> noted_between(before, after),
        before.set_filter_override_leads_to(id, mode, after) ==> noted_between(before, after),
        before.set_filter_review_leads_to(id, review, after) ==> noted_between(before, after),
        before.delete_filter_leads_to(id, after) ==> noted_between(before, after),
{
    if super::journalled(before, after) {
        lemma_noted(before, after);
    }
}

/// Whatever is done to a transfer, a note or the tags of a transaction is noted, and a
/// changed note has the transaction indexed anew.
pub proof fn changed_annotations_are_noted(
    before: TransactionStore,
    after: TransactionStore,
    id: i64,
    to: i64,
    source: TransferSource,
    confirmed: bool,
    confidence: Option<Confidence>,
    now: Timestamp,
    made: Result<i64, Error>,
    note: &str,
    kept: bool,
    names: &Vec<String>,
    tags: Result<Vec<String>, Error>,
)
    ensures
        before.create_transfer_leads_to(id, to, source, confirmed, confidence, now, made, after)
            ==> noted_between(before, after),
        before.confirm_transfer_leads_to(id, after) ==> noted_between(before, after),
        before.delete_transfer_leads_to(id, after) ==> noted_between(before, after),
        before.set_note_leads_to(id, note, kept, after) ==> noted_between(before, after)
            && after.noted().contains(Change::Reindex { tx_id: id }),
        before.set_transaction_tags_leads_to(id, names, now, tags, after) ==> noted_between(
            before,
            after,
        ),
{
    if super::journalled(before, after) {
        lemma_noted(before, after);
    }
    if before.set_note_leads_to(id, note, kept, after) {
        let i = choose|i: int|
            before.noted().len() <= i < after.noted().len() && #[trigger] after.noted()[i] == (
            Change::Reindex { tx_id: id });
        assert(after.noted()[i] == (Change::Reindex { tx_id: id }));
    }
}

/// A noted row is the row under its id, a dropped id has none, and every other row of the
/// table stays, as do the other tables.
pub proof fn a_noted_change_is_one_row(t: Tables, change: Change, k: i64)
    ensures
        ({
            let u = t.after(change);
            &&& change matches Change::PutBank(row) ==> u == (Tables { banks: u.banks, ..t })
                && u.banks.contains_key(row.id) && u.banks[row.id] == row
            &&& change matches Change::PutAccount(row) ==> u == (Tables {
                accounts: u.accounts,
                ..t
            }) && u.accounts.contains_key(row.id) && u.accounts[row.id] == row
            &&& change matches Change::PutTransaction(row) ==> u == (Tables {
                transactions: u.transactions,
                ..t
            }) && u.transactions.contains_key(row.id) && u.transactions[row.id] == row && (k
                != row.id && t.transactions.contains_key(k) ==> u.transactions[k]
                == t.transactions[k])
            &&& change matches Change::PutEnrichment(row) ==> u == (Tables {
                enrichments: u.enrichments,
                ..t
            }) && u.enrichments.contains_key(row.transaction_id)
                && u.enrichments[row.transaction_id] == row && (k != row.transaction_id
                && t.enrichments.contains_key(k) ==> u.enrichments[k] == t.enrichments[k])
            &&& change matches Change::DropEnrichment(id) ==> u == (Tables {
                enrichments: u.enrichments,
                ..t
            }) && (u.enrichments.contains_key(k) <==> t.enrichments.contains_key(k) && k != id)
            &&& change matches Change::PutTransfer(row) ==> u == (Tables {
                transfers: u.transfers,
                ..t
            }) && u.transfers.contains_key(row.id) && u.transfers[row.id] == row
            &&& change matches Change::DropTransfer(id) ==> u == (Tables {
                transfers: u.transfers,
                ..t
            }) && (u.transfers.contains_key(k) <==> t.transfers.contains_key(k) && k != id)
            &&& change matches Change::PutCategory(row) ==> u == (Tables {
                categories: u.categories,
                ..t
            }) && u.categories.contains_key(row.id) && u.categories[row.id] == row
            &&& change matches Change::DropCategory(id) ==> u == (Tables {
                categories: u.categories,
                ..t
            }) && (u.categories.contains_key(k) <==> t.categories.contains_key(k) && k != id)
            &&& change matches Change::PutFilter(row) ==> u == (Tables { filters: u.filters, ..t })
                && u.filters.contains_key(row.id) && u.filters[row.id] == row
            &&& change matches Change::DropFilter(id) ==> u == (Tables { filters: u.filters, ..t })
                && (u.filters.contains_key(k) <==> t.filters.contains_key(k) && k != id)
            &&& change matches Change::PutNote { tx_id, note } ==> u == (Tables {
                notes: u.notes,
                ..t
            }) && u.notes.contains_key(tx_id) && u.notes[tx_id] == note@
            &&& change matches Change::DropNote { tx_id } ==> u == (Tables {
                notes: u.notes,
                ..t
            }) && (u.notes.contains_key(k) <==> t.notes.contains_key(k) && k != tx_id)
            &&& change is Reindex ==> u == t
        }),
{
}

/// The row under every id has that id, and an enrichment is of the transaction that it is
/// found under.
pub proof fn rows_are_found_under_their_ids(t: Tables)
    ensures
        t.keyed() <==> {
            &&& forall|k: i64| #[trigger] t.banks.contains_key(k) ==> t.banks[k].id == k
            &&& forall|k: i64| #[trigger] t.accounts.contains_key(k) ==> t.accounts[k].id == k
            &&& forall|k: i64| #[trigger]
                t.transactions.contains_key(k) ==> t.transactions[k].id == k
            &&& forall|k: i64| #[trigger] t.categories.contains_key(k) ==> t.categories[k].id == k
            &&& forall|k: i64| #[trigger]
                t.enrichments.contains_key(k) ==> t.enrichments[k].transaction_id == k
            &&& forall|k: i64| #[trigger] t.transfers.contains_key(k) ==> t.transfers[k].id == k
            &&& forall|k: i64| #[trigger] t.filters.contains_key(k) ==> t.filters[k].id == k
            &&& forall|k: i64| #[trigger] t.tags.contains_key(k) ==> t.tags[k].id == k
        },
{
}

/// A side of a transfer has no category.
pub proof fn a_leg_has_no_category(t: Tables)
    ensures
        t.exclusive() <==> forall|id: i64| #[trigger]
            t.enrichments.contains_key(id) ==> !in_transfer(t, id),
{
    assert forall|id: i64| #[trigger] in_transfer(t, id) == t.is_leg(id) by {
        if in_transfer(t, id) {
            let k = choose|k: i64| #[trigger]
                t.transfers.contains_key(k) && (t.transfers[k].from_transaction_id == id
                    || t.transfers[k].to_transaction_id == id);
            assert(super::joins(t.transfers[k], id));
        }
        if t.is_leg(id) {
            let k = choose|k: i64| #[trigger]
                t.transfers.contains_key(k) && super::joins(t.transfers[k], id);
            assert(t.transfers.contains_key(k));
        }
    }
}

/// What is unique is unique: no two categories have one path, no two tags one name.
pub proof fn paths_and_names_are_unique(t: Tables, a: i64, b: i64)
    requires
        t.paths_differ(),
        t.tags_fit(),
        a != b,
    ensures
        t.categories.contains_key(a) && t.categories.contains_key(b) ==> t.categories[a].path@
            != t.categories[b].path@,
        t.tags.contains_key(a) && t.tags.contains_key(b) ==> t.tags[a].name@ != t.tags[b].name@,
{
}

/// There is a tag of every name that a transaction has, and of no other.
pub proof fn the_tags_are_those_in_use(t: Tables, id: i64, tx: i64, i: int)
    requires
        t.tags_fit(),
    ensures
        t.tags.contains_key(id) ==> exists|k: i64| #[trigger]
            t.tagged.contains_key(k) && t.tagged[k].contains(t.tags[id].name@),
        t.tagged.contains_key(tx) && 0 <= i < t.tagged[tx].len() ==> exists|k: i64| #[trigger]
            t.tags.contains_key(k) && t.tags[k].name@ == t.tagged[tx][i],
{
    if t.tags.contains_key(id) {
        assert(t.in_use(t.tags[id].name@));
    }
    if t.tagged.contains_key(tx) && 0 <= i < t.tagged[tx].len() {
        assert(t.has_tag(t.tagged[tx][i]));
    }
}

/// An account, a category and a tag count the transactions that are in them or have it,
/// whether or not an account is deleted.
pub proof fn every_use_is_counted(t: Tables, account: i64, category: i64, tag: Seq<char>, tx: i64)
    ensures
        t.holdings(account).contains(tx) <==> t.transactions.contains_key(tx)
            && t.transactions[tx].account_id == account,
        t.members(category).contains(tx) <==> t.enrichments.contains_key(tx)
            && t.enrichments[tx].category_id == Some(category),
        t.users(tag).contains(tx) <==> t.tagged.contains_key(tx) && t.tagged[tx].contains(tag),
{
}

/// A path is taken where another account has it, deleted or not, whatever its bank's state.
pub proof fn a_path_of_another_account_is_taken(
    t: Tables,
    bank: Seq<char>,
    name: Seq<char>,
    account: i64,
)
    ensures
        t.place_taken(bank, name, account) <==> exists|id: i64|
            {
                let a = t.accounts[id];
                &&& #[trigger] t.accounts.contains_key(id)
                &&& id != account
                &&& a.name@ == name
                &&& t.banks.contains_key(a.bank_id)
                &&& t.banks[a.bank_id].name@ == bank
            },
{
    if t.place_taken(bank, name, account) {
        let id = choose|id: i64| id != account && #[trigger] t.stands_at(id, bank, name);
        assert(t.accounts.contains_key(id));
    }
    if exists|id: i64|
        {
            let a = t.accounts[id];
            &&& #[trigger] t.accounts.contains_key(id)
            &&& id != account
            &&& a.name@ == name
            &&& t.banks.contains_key(a.bank_id)
            &&& t.banks[a.bank_id].name@ == bank
        } {
        let id = choose|id: i64|
            {
                let a = t.accounts[id];
                &&& #[trigger] t.accounts.contains_key(id)
                &&& id != account
                &&& a.name@ == name
                &&& t.banks.contains_key(a.bank_id)
                &&& t.banks[a.bank_id].name@ == bank
            };
        assert(t.stands_at(id, bank, name));
    }
}

/// What is indexed of a transaction is its description, the fields of its metadata and its
/// note, where it has one.
pub proof fn a_posting_holds_what_is_stored(t: Tables, tx: i64, p: super::index::Posting)
    requires
        t.posts(tx, p),
    ensures
        p.tx_id == tx,
        t.transactions.contains_key(tx),
        p.description@ == t.transactions[tx].description@,
        p.note is Some <==> t.notes.contains_key(tx),
        p.note is Some ==> p.note->0@ == t.notes[tx],
        crate::json::json_fields(t.transactions[tx].metadata@) is Some
            ==> crate::json::field_views(p.metadata@) == crate::json::json_fields(
            t.transactions[tx].metadata@,
        )->0,
        crate::json::json_fields(t.transactions[tx].metadata@) is None ==> p.metadata@.len() == 0,
{
    assert(crate::json::field_views(p.metadata@).len() == p.metadata@.len());
}

/// A transaction is live unless its account is deleted.
pub proof fn a_transaction_lives_with_its_account(t: Tables, tx: Transaction)
    ensures
        t.live(tx) <==> (t.accounts.contains_key(tx.account_id)
            ==> t.accounts[tx.account_id].deleted_at is None),
{
}

} // verus!
