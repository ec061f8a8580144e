//! Notes and tags: free-form per-transaction text and `#tag` labels.
//!
//! Both live in their own tables rather than on the enrichments, because an
//! enrichment means "category assignment" and linking a transfer deletes it on
//! both endpoints — a note or tag must survive marking a transfer.
//!
//! Note text is folded into the full-text index (so bare-word search finds it),
//! which makes [`TransactionStore::set_note`] an index write.

use std::collections::HashMap;

use vstd::prelude::*;
use vstd::seq_lib::*;
use vstd::std_specs::hash::*;
use vstd::string::*;

use super::enrichments::lemma_same_transfers;
use super::select::keys_of;
use super::{
    copy_texts, fresh_id, indexes, journal_goes_on, journal_starts, journalled, lemma_indexed,
    listed, Change, Error, Tables, Tag,
    TransactionStore,
};
use crate::model::Timestamp;
use crate::sort::{best, insert_marked, marked, sort_rows, sorted, total, transitive};
use crate::tag::{lemma_tag_set_once, tag_names, tag_set};
use crate::text::{
    contains, lemma_lex_total, lemma_lex_transitive, lex_le, lex_leq, same, trim, trim_end,
    trimmed, trimmed_end, views,
};

verus! {

broadcast use group_hash_axioms;

/// Alphabetical.
pub open spec fn alphabetical(names: Seq<Seq<char>>) -> bool {
    forall|i: int, j: int|
        0 <= i < j < names.len() ==> lex_le(#[trigger] names[i], #[trigger] names[j])
}

/// The names are those of the set, each once, in alphabetical order.
pub open spec fn spells(names: Seq<Seq<char>>, set: Seq<Seq<char>>) -> bool {
    &&& alphabetical(names)
    &&& names.no_duplicates()
    &&& forall|x: Seq<char>| #[trigger] names.contains(x) <==> set.contains(x)
}

spec fn text_order() -> spec_fn(String, String) -> bool {
    |a: String, b: String| lex_le(a@, b@)
}

fn text_leq(a: &String, b: &String) -> (le: bool)
    ensures
        le == text_order()(*a, *b),
{
    lex_leq(a, b)
}

proof fn lemma_text_order()
    ensures
        total(text_order()),
        transitive(text_order()),
{
    let order = text_order();
    assert forall|a: String, b: String| #[trigger] order(a, b) || order(b, a) by {
        lemma_lex_total(a@, b@);
    }
    assert forall|a: String, b: String, c: String| #[trigger] order(a, b) && #[trigger] order(
        b,
        c,
    ) implies order(a, c) by {
        lemma_lex_transitive(a@, b@, c@);
    }
}

/// The usable names, each once, in alphabetical order.
fn wanted_tags(names: &Vec<String>) -> (wanted: Vec<String>)
    ensures
        spells(views(wanted@), tag_set(views(names@))),
{
    let set = tag_names(names);
    let ghost unsorted = set@;
    proof {
        lemma_text_order();
        lemma_tag_set_once(views(names@));
    }
    let wanted = sort_rows(set, text_leq, Ghost(text_order()));
    proof {
        broadcast use group_to_multiset_ensures;

        let a = views(unsorted);
        let b = views(wanted@);
        assert forall|i: int, j: int| 0 <= i < j < b.len() implies lex_le(
            #[trigger] b[i],
            #[trigger] b[j],
        ) by {
            assert(text_order()(wanted@[i], wanted@[j]));
        }
        assert(unsorted.no_duplicates()) by {
            assert forall|i: int, j: int|
                0 <= i < unsorted.len() && 0 <= j < unsorted.len() && i != j implies unsorted[i]
                != unsorted[j] by {
                assert(a[i] != a[j]);
            }
        }
        unsorted.lemma_multiset_has_no_duplicates();
        wanted@.lemma_multiset_has_no_duplicates_conv();
        assert forall|x: String| #[trigger] wanted@.contains(x) <==> unsorted.contains(x) by {
            assert(unsorted.contains(x) <==> unsorted.to_multiset().count(x) > 0);
            assert(wanted@.contains(x) <==> wanted@.to_multiset().count(x) > 0);
        }
        assert forall|x: Seq<char>| #[trigger] b.contains(x) <==> a.contains(x) by {
            if b.contains(x) {
                let i = choose|i: int| 0 <= i < b.len() && b[i] == x;
                assert(wanted@.contains(wanted@[i]));
                let j = choose|j: int| 0 <= j < unsorted.len() && unsorted[j] == wanted@[i];
                assert(a[j] == x);
            }
            if a.contains(x) {
                let i = choose|i: int| 0 <= i < a.len() && a[i] == x;
                assert(unsorted.contains(unsorted[i]));
                assert(wanted@.contains(unsorted[i]));
                let j = choose|j: int| 0 <= j < wanted@.len() && wanted@[j] == unsorted[i];
                assert(b[j] == x);
            }
        }
        assert(b.no_duplicates()) by {
            assert forall|i: int, j: int|
                0 <= i < b.len() && 0 <= j < b.len() && i != j implies b[i] != b[j] by {
                if b[i] == b[j] {
                    assert(wanted@.contains(wanted@[i]) && wanted@.contains(wanted@[j]));
                    let k = choose|k: int| 0 <= k < unsorted.len() && unsorted[k] == wanted@[i];
                    let l = choose|l: int| 0 <= l < unsorted.len() && unsorted[l] == wanted@[j];
                    assert(a[k] == a[l]);
                    assert(k == l);
                }
            }
        }
    }
    wanted
}

impl Tables {
    /// Some transaction has the tag.
    pub open spec fn in_use(self, name: Seq<char>) -> bool {
        exists|tx: i64| #[trigger] self.tagged.contains_key(tx) && self.tagged[tx].contains(name)
    }

    /// The transactions that have the tag.
    pub open spec fn users(self, name: Seq<char>) -> Set<i64> {
        Set::new(|tx: i64| self.tagged.contains_key(tx) && self.tagged[tx].contains(name))
    }

    /// There is a tag of the name.
    pub open spec fn has_tag(self, name: Seq<char>) -> bool {
        exists|id: i64| #[trigger] self.tags.contains_key(id) && self.tags[id].name@ == name
    }

    /// The tags are exactly those in use, each once.
    pub open spec fn tags_fit(self) -> bool {
        &&& self.tags_are_used()
        &&& self.tags_cover()
        &&& self.tags_differ()
    }

    /// Every tag is in use.
    pub open spec fn tags_are_used(self) -> bool {
        forall|id: i64| #[trigger]
            self.tags.contains_key(id) ==> self.in_use(self.tags[id].name@)
    }

    /// Every name in use has its tag.
    pub open spec fn tags_cover(self) -> bool {
        forall|tx: i64, i: int|
            #![trigger self.tagged[tx][i]]
            self.tagged.contains_key(tx) && 0 <= i < self.tagged[tx].len() ==> self.has_tag(
                self.tagged[tx][i],
            )
    }

    /// No two tags have one name.
    pub open spec fn tags_differ(self) -> bool {
        forall|a: i64, b: i64| #[trigger]
            self.tags.contains_key(a) && #[trigger] self.tags.contains_key(b)
                && self.tags[a].name@ == self.tags[b].name@ ==> a == b
    }

    /// The id is above that of every tag, by one.
    pub open spec fn next_tag_id(self, id: int) -> bool {
        &&& id >= 1
        &&& forall|k: i64| #[trigger] self.tags.contains_key(k) ==> k < id
        &&& id > 1 ==> self.tags.contains_key((id - 1) as i64)
    }

    /// Every tag of `next` is one of these, or new at `now` under its own id.
    pub open spec fn tags_go_on(self, now: Timestamp, next: Tables) -> bool {
        forall|id: i64| #[trigger]
            next.tags.contains_key(id) ==> if self.tags.contains_key(id) {
                next.tags[id] == self.tags[id]
            } else {
                next.tags[id].id == id && next.tags[id].created_at == now && !self.has_tag(
                    next.tags[id].name@,
                )
            }
    }
}

impl TransactionStore {
    // ==================== Notes ====================

    /// The transaction's note, if it has one. A stored note is never empty —
    /// clearing one deletes the row.
    pub fn get_note(&self, transaction_id: i64) -> (note: Option<String>)
        ensures
            match note {
                Some(n) => self@.notes.contains_key(transaction_id)
                    && self@.notes[transaction_id] == n@,
                None => !self@.notes.contains_key(transaction_id),
            },
    {
        match self.note_row(transaction_id) {
            Some(note) => Some(note.clone()),
            None => None,
        }
    }

    /// The state after [`Self::set_note`].
    pub open spec fn set_note_leads_to(
        self,
        transaction_id: i64,
        note: &str,
        kept: bool,
        next: TransactionStore,
    ) -> bool {
        &&& kept == (trimmed(trimmed_end(note@)).len() > 0)
        &&& next@ == (Tables {
            notes: if kept {
                self@.notes.insert(transaction_id, trimmed_end(note@))
            } else {
                self@.notes.remove(transaction_id)
            },
            ..self@
        })
        &&& journalled(self, next)
        &&& indexes(self, next, transaction_id)
        &&& self@.keyed() ==> next@.keyed()
        &&& self@.exclusive() ==> next@.exclusive()
    }

    /// Set (or clear) a transaction's note and reindex it for full-text search.
    ///
    /// A blank note deletes the row rather than storing whitespace, so
    /// `note:none` and the "has a note" indicator agree with what the user sees
    /// in the editor. Returns whether the transaction now has a note.
    pub fn set_note(&mut self, transaction_id: i64, note: &str) -> (kept: bool)
        ensures
            old(self).set_note_leads_to(transaction_id, note, kept, *final(self)),
    {
        let kept_text = trim_end(note);
        if trim(kept_text).is_empty() {
            self.drop_note(transaction_id);
            let ghost one = *self;
            self.reindex(transaction_id);
            proof {
                let change = Change::DropNote { tx_id: transaction_id };
                lemma_indexed(*old(self), one, *self, change, transaction_id);
                lemma_same_transfers(old(self)@, self@);
            }
            return false;
        }
        let text = kept_text.to_owned();
        let ghost change = Change::PutNote { tx_id: transaction_id, note: text };
        self.put_note(transaction_id, text);
        let ghost one = *self;
        self.reindex(transaction_id);
        proof {
            lemma_indexed(*old(self), one, *self, change, transaction_id);
            lemma_same_transfers(old(self)@, self@);
        }
        true
    }

    /// Notes for a batch of transactions, keyed by transaction id. Transactions
    /// without a note are absent from the map.
    pub fn notes_for_transactions(&self, transaction_ids: &Vec<i64>) -> (notes: HashMap<
        i64,
        String,
    >)
        ensures
            forall|tx: i64| #[trigger]
                notes@.contains_key(tx) <==> transaction_ids@.contains(tx)
                    && self@.notes.contains_key(tx),
            forall|tx: i64| #[trigger]
                notes@.contains_key(tx) ==> notes@[tx]@ == self@.notes[tx],
    {
        let mut notes: HashMap<i64, String> = HashMap::new();
        let mut i: usize = 0;
        while i < transaction_ids.len()
            invariant
                i <= transaction_ids@.len(),
                forall|tx: i64| #[trigger]
                    notes@.contains_key(tx) <==> transaction_ids@.take(i as int).contains(tx)
                        && self@.notes.contains_key(tx),
                forall|tx: i64| #[trigger]
                    notes@.contains_key(tx) ==> notes@[tx]@ == self@.notes[tx],
            decreases transaction_ids@.len() - i,
        {
            let tx: i64 = transaction_ids[i];
            proof {
                super::select::lemma_take_contains(transaction_ids@, i as int);
            }
            if let Some(note) = self.note_row(tx) {
                notes.insert(tx, note.clone());
            }
            i += 1;
        }
        assert(transaction_ids@.take(i as int) =~= transaction_ids@);
        notes
    }

    // ==================== Tags ====================

    /// How many transactions have the tag.
    fn count_users(&self, name: &str) -> (n: usize)
        ensures
            n == self@.users(name@).len(),
    {
        let keys = self.tagged_ids();
        let mut n: usize = 0;
        let mut i: usize = 0;
        let ghost mut seen: Set<i64> = Set::empty();
        while i < keys.len()
            invariant
                i <= keys@.len(),
                keys@.no_duplicates(),
                forall|k: i64| #[trigger] keys@.contains(k) <==> self@.tagged.contains_key(k),
                n <= i,
                seen.finite(),
                n == seen.len(),
                forall|k: i64| #[trigger]
                    seen.contains(k) <==> keys@.take(i as int).contains(k) && self@.users(
                        name@,
                    ).contains(k),
            decreases keys@.len() - i,
        {
            let k: i64 = keys[i];
            assert(keys@.contains(keys@[i as int]));
            proof {
                super::select::lemma_take_contains(keys@, i as int);
                assert(!keys@.take(i as int).contains(k));
            }
            if let Some(names) = self.tags_row(k) {
                if contains(names, name) {
                    n += 1;
                    proof {
                        seen = seen.insert(k);
                    }
                }
            }
            i += 1;
        }
        proof {
            assert(keys@.take(i as int) =~= keys@);
            assert(seen =~= self@.users(name@));
        }
        n
    }

    /// Every tag in use, most-used first then alphabetical — the order the tag
    /// editor shows when nothing has been typed yet, so common tags are the
    /// ones in reach.
    pub fn list_tags(&self) -> (rows: Vec<Tag>)
        ensures
            sorted(rows@, most_used(self@)),
            exists|keys: Seq<i64>|
                #![trigger keys.no_duplicates()]
                keys.no_duplicates() && (forall|k: i64| #[trigger]
                    keys.contains(k) <==> self@.tags.contains_key(k)) && rows@.to_multiset()
                    == super::select::rows_at(self@.tags, keys).to_multiset(),
    {
        let keys = keys_of(self.tag_table());
        let mut rows: Vec<Tag> = Vec::new();
        let mut marks: Vec<u64> = Vec::new();
        let mut i: usize = 0;
        proof {
            broadcast use group_to_multiset_ensures;

            lemma_by_tag_name();
            assert(super::select::rows_at(self@.tags, keys@.take(0)) =~= Seq::empty());
        }
        while i < keys.len()
            invariant
                i <= keys@.len(),
                keys@.no_duplicates(),
                forall|k: i64| #[trigger] keys@.contains(k) <==> self@.tags.contains_key(k),
                total(by_tag_name()),
                transitive(by_tag_name()),
                sorted(rows@, most_used(self@)),
                marked(rows@, marks@, uses(self@)),
                rows@.to_multiset() == super::select::rows_at(
                    self@.tags,
                    keys@.take(i as int),
                ).to_multiset(),
            decreases keys@.len() - i,
        {
            let k: i64 = keys[i];
            assert(keys@.contains(keys@[i as int]));
            let ghost before = super::select::rows_at(self@.tags, keys@.take(i as int));
            if let Some(tag) = self.tag_row(k) {
                let n: usize = self.count_users(&tag.name);
                insert_marked(
                    &mut rows,
                    &mut marks,
                    tag.clone(),
                    n as u64,
                    &tag_leq,
                    Ghost(uses(self@)),
                    Ghost(by_tag_name()),
                );
                proof {
                    broadcast use group_to_multiset_ensures;

                    assert(super::select::rows_at(self@.tags, keys@.take(i + 1))
                        =~= before.push(self@.tags[k]));
                }
            }
            i += 1;
        }
        assert(keys@.take(i as int) =~= keys@);
        rows
    }

    /// How many transactions carry each tag, by tag name; in the order of
    /// [`Self::list_tags`].
    pub fn tag_transaction_counts(&self) -> (counts: Vec<(String, usize)>)
        ensures
            exists|tags: Seq<Tag>| #[trigger]
                sorted(tags, most_used(self@)) && counts@.len() == tags.len() && (forall|i: int|
                    0 <= i < tags.len() ==> (#[trigger] counts@[i]).0@ == tags[i].name@
                        && counts@[i].1 == self@.users(tags[i].name@).len()) && exists|
                    keys: Seq<i64>,
                |
                    #![trigger keys.no_duplicates()]
                    keys.no_duplicates() && (forall|k: i64| #[trigger]
                        keys.contains(k) <==> self@.tags.contains_key(k)) && tags.to_multiset()
                        == super::select::rows_at(self@.tags, keys).to_multiset(),
    {
        let tags = self.list_tags();
        let mut counts: Vec<(String, usize)> = Vec::new();
        let mut i: usize = 0;
        while i < tags.len()
            invariant
                i <= tags@.len(),
                counts@.len() == i,
                forall|j: int|
                    0 <= j < i ==> (#[trigger] counts@[j]).0@ == tags@[j].name@ && counts@[j].1
                        == self@.users(tags@[j].name@).len(),
            decreases tags@.len() - i,
        {
            let n: usize = self.count_users(&tags[i].name);
            counts.push((tags[i].name.clone(), n));
            i += 1;
        }
        counts
    }

    /// A transaction's tags, alphabetical.
    pub fn tags_for_transaction(&self, transaction_id: i64) -> (names: Vec<String>)
        ensures
            views(names@) == listed(self@.tagged, transaction_id),
    {
        match self.tags_row(transaction_id) {
            Some(names) => copy_texts(names),
            None => {
                let none: Vec<String> = Vec::new();
                assert(views(none@) =~= Seq::empty());
                none
            },
        }
    }

    /// Tags for a batch of transactions, keyed by transaction id. Untagged
    /// transactions are absent from the map; each list is alphabetical.
    pub fn tags_for_transactions(&self, transaction_ids: &Vec<i64>) -> (tags: HashMap<
        i64,
        Vec<String>,
    >)
        ensures
            forall|tx: i64| #[trigger]
                tags@.contains_key(tx) <==> transaction_ids@.contains(tx)
                    && self@.tagged.contains_key(tx),
            forall|tx: i64| #[trigger]
                tags@.contains_key(tx) ==> views(tags@[tx]@) == self@.tagged[tx],
    {
        let mut tags: HashMap<i64, Vec<String>> = HashMap::new();
        let mut i: usize = 0;
        while i < transaction_ids.len()
            invariant
                i <= transaction_ids@.len(),
                forall|tx: i64| #[trigger]
                    tags@.contains_key(tx) <==> transaction_ids@.take(i as int).contains(tx)
                        && self@.tagged.contains_key(tx),
                forall|tx: i64| #[trigger]
                    tags@.contains_key(tx) ==> views(tags@[tx]@) == self@.tagged[tx],
            decreases transaction_ids@.len() - i,
        {
            let tx: i64 = transaction_ids[i];
            proof {
                super::select::lemma_take_contains(transaction_ids@, i as int);
            }
            if let Some(names) = self.tags_row(tx) {
                tags.insert(tx, copy_texts(names));
            }
            i += 1;
        }
        assert(transaction_ids@.take(i as int) =~= transaction_ids@);
        tags
    }

    fn is_tag(&self, name: &str) -> (yes: bool)
        ensures
            yes == self@.has_tag(name@),
    {
        let keys = keys_of(self.tag_table());
        let mut i: usize = 0;
        while i < keys.len()
            invariant
                i <= keys@.len(),
                forall|k: i64| #[trigger] keys@.contains(k) <==> self@.tags.contains_key(k),
                forall|j: int| 0 <= j < i ==> self@.tags[#[trigger] keys@[j]].name@ != name@,
            decreases keys@.len() - i,
        {
            let k: i64 = keys[i];
            assert(keys@.contains(keys@[i as int]));
            if let Some(tag) = self.tag_row(k) {
                if same(&tag.name, name) {
                    assert(self@.tags.contains_key(k));
                    return true;
                }
            }
            i += 1;
        }
        assert forall|id: i64| #[trigger] self@.tags.contains_key(id) implies self@.tags[id].name@
            != name@ by {
            assert(keys@.contains(id));
            let j = choose|j: int| 0 <= j < keys@.len() && keys@[j] == id;
            assert(self@.tags[keys@[j]].name@ != name@);
        }
        false
    }

    /// Make a tag of every name that has none.
    fn make_tags(&mut self, names: &Vec<String>, first: i64, now: Timestamp)
        requires
            forall|k: i64| #[trigger] old(self)@.tags.contains_key(k) ==> k < first,
            first + names@.len() <= i64::MAX,
        ensures
            final(self)@ == (Tables { tags: final(self)@.tags, ..old(self)@ }),
            forall|k: i64| #[trigger]
                old(self)@.tags.contains_key(k) ==> final(self)@.tags.contains_key(k) && final(
                    self)@.tags[k] == old(self)@.tags[k],
            forall|i: int| 0 <= i < names@.len() ==> final(self)@.has_tag(#[trigger] names@[i]@),
            old(self)@.tags_differ() ==> final(self)@.tags_differ(),
            old(self)@.tags_go_on(now, final(self)@),
            journalled(*old(self), *final(self)),
            old(self)@.keyed() ==> final(self)@.keyed(),
    {
        let ghost start = self@;
        let mut next: i64 = first;
        let mut i: usize = 0;
        proof {
            journal_starts(*self);
        }
        while i < names.len()
            invariant
                i <= names@.len(),
                first + names@.len() <= i64::MAX,
                first <= next <= first + i,
                start == old(self)@,
                forall|k: i64| #[trigger] start.tags.contains_key(k) ==> k < first,
                self@ == (Tables { tags: self@.tags, ..start }),
                forall|k: i64| #[trigger]
                    start.tags.contains_key(k) ==> self@.tags.contains_key(k) && self@.tags[k]
                        == start.tags[k],
                forall|k: i64| #[trigger] self@.tags.contains_key(k) ==> k < next,
                forall|j: int| 0 <= j < i ==> self@.has_tag(#[trigger] names@[j]@),
                start.tags_differ() ==> self@.tags_differ(),
                start.tags_go_on(now, self@),
                journalled(*old(self), *self),
                start.keyed() ==> self@.keyed(),
            decreases names@.len() - i,
        {
            let ghost before = *self;
            if !self.is_tag(&names[i]) {
                let id: i64 = next;
                self.put_tag(Tag { id, name: names[i].clone(), created_at: now });
                proof {
                    journal_goes_on(*old(self), before, *self);
                    assert(self@.tags.contains_key(id));
                    if start.has_tag(names@[i as int]@) {
                        let k = choose|k: i64| #[trigger]
                            start.tags.contains_key(k) && start.tags[k].name@
                                == names@[i as int]@;
                        assert(before@.tags.contains_key(k));
                    }
                    assert forall|j: int| 0 <= j < i implies self@.has_tag(
                        #[trigger] names@[j]@,
                    ) by {
                        let k = choose|k: i64| #[trigger]
                            before@.tags.contains_key(k) && before@.tags[k].name@ == names@[j]@;
                        assert(self@.tags.contains_key(k));
                    }
                    assert(self@.has_tag(names@[i as int]@));
                    assert forall|a: i64, b: i64| #[trigger]
                        self@.tags.contains_key(a) && #[trigger] self@.tags.contains_key(b)
                            && self@.tags[a].name@ == self@.tags[b].name@
                            && start.tags_differ() implies a == b by {
                        if a != id {
                            assert(before@.tags.contains_key(a));
                        }
                        if b != id {
                            assert(before@.tags.contains_key(b));
                        }
                    }
                }
                next += 1;
            }
            i += 1;
        }
    }

    fn is_in_use(&self, name: &str) -> (yes: bool)
        ensures
            yes == self@.in_use(name@),
    {
        let keys = self.tagged_ids();
        let mut i: usize = 0;
        while i < keys.len()
            invariant
                i <= keys@.len(),
                forall|k: i64| #[trigger] keys@.contains(k) <==> self@.tagged.contains_key(k),
                forall|j: int| 0 <= j < i ==> !self@.tagged[#[trigger] keys@[j]].contains(name@),
            decreases keys@.len() - i,
        {
            let k: i64 = keys[i];
            assert(keys@.contains(keys@[i as int]));
            if let Some(names) = self.tags_row(k) {
                if contains(names, name) {
                    assert(self@.tagged.contains_key(k));
                    return true;
                }
            }
            i += 1;
        }
        assert forall|tx: i64| #[trigger] self@.tagged.contains_key(tx) implies
            !self@.tagged[tx].contains(name@) by {
            assert(keys@.contains(tx));
            let j = choose|j: int| 0 <= j < keys@.len() && keys@[j] == tx;
            assert(!self@.tagged[keys@[j]].contains(name@));
        }
        false
    }

    /// Drop the tags that no transaction has.
    fn drop_unused_tags(&mut self)
        ensures
            final(self)@ == (Tables { tags: final(self)@.tags, ..old(self)@ }),
            forall|id: i64| #[trigger]
                final(self)@.tags.contains_key(id) <==> old(self)@.tags.contains_key(id) && old(
                    self)@.in_use(old(self)@.tags[id].name@),
            forall|id: i64| #[trigger]
                final(self)@.tags.contains_key(id) ==> final(self)@.tags[id] == old(
                    self)@.tags[id],
            journalled(*old(self), *final(self)),
            old(self)@.keyed() ==> final(self)@.keyed(),
    {
        let ghost start = self@;
        let keys = keys_of(self.tag_table());
        let mut i: usize = 0;
        proof {
            journal_starts(*self);
        }
        while i < keys.len()
            invariant
                i <= keys@.len(),
                keys@.no_duplicates(),
                forall|k: i64| #[trigger] keys@.contains(k) <==> start.tags.contains_key(k),
                start == old(self)@,
                self@ == (Tables { tags: self@.tags, ..start }),
                forall|id: i64| #[trigger]
                    self@.tags.contains_key(id) <==> start.tags.contains_key(id) && (
                    !keys@.take(i as int).contains(id) || start.in_use(start.tags[id].name@)),
                forall|id: i64| #[trigger]
                    self@.tags.contains_key(id) ==> self@.tags[id] == start.tags[id],
                journalled(*old(self), *self),
                start.keyed() ==> self@.keyed(),
            decreases keys@.len() - i,
        {
            let k: i64 = keys[i];
            assert(keys@.contains(keys@[i as int]));
            let ghost before = *self;
            proof {
                super::select::lemma_take_contains(keys@, i as int);
                assert(!keys@.take(i as int).contains(k));
                assert forall|n: Seq<char>| #[trigger] self@.in_use(n) == start.in_use(n) by {}
            }
            let unused = match self.tag_row(k) {
                Some(tag) => !self.is_in_use(&tag.name),
                None => false,
            };
            if unused {
                self.drop_tag(k);
                proof {
                    journal_goes_on(*old(self), before, *self);
                }
            }
            i += 1;
        }
        assert(keys@.take(i as int) =~= keys@);
    }

    /// The state after [`Self::set_transaction_tags`].
    pub open spec fn set_transaction_tags_leads_to(
        self,
        transaction_id: i64,
        names: &Vec<String>,
        now: Timestamp,
        result: Result<Vec<String>, Error>,
        next: TransactionStore,
    ) -> bool {
        &&& match result {
            Ok(wanted) => {
                &&& spells(views(wanted@), tag_set(views(names@)))
                &&& next@ == (Tables {
                    tagged: if wanted@.len() == 0 {
                        self@.tagged.remove(transaction_id)
                    } else {
                        self@.tagged.insert(transaction_id, views(wanted@))
                    },
                    tags: next@.tags,
                    ..self@
                })
                &&& self@.tags_go_on(now, next@)
                &&& next@.tags_are_used()
                &&& forall|id: i64| #[trigger]
                    self@.tags.contains_key(id) && next@.in_use(self@.tags[id].name@)
                        ==> next@.tags.contains_key(id)
                &&& forall|i: int|
                    0 <= i < wanted@.len() ==> next@.has_tag(#[trigger] wanted@[i]@)
            },
            Err(Error::NoFreeId) => next == self && exists|top: int| #[trigger]
                self@.next_tag_id(top) && top + tag_set(views(names@)).len()
                    > i64::MAX,
            Err(_) => false,
        }
        &&& self@.tags_fit() ==> next@.tags_fit()
        &&& journalled(self, next)
        &&& self@.keyed() ==> next@.keyed()
        &&& self@.exclusive() ==> next@.exclusive()
    }

    /// Replace a transaction's tag set with `names`.
    ///
    /// Names are canonicalised and deduplicated; anything that isn't a usable
    /// tag is dropped rather than failing the save, since the editor already
    /// rejects invalid input as you type. Tags left with no transactions are
    /// deleted, so the tag list is exactly the set in use and autocomplete never
    /// offers a dead tag. Returns the stored tag names.
    pub fn set_transaction_tags(
        &mut self,
        transaction_id: i64,
        names: &Vec<String>,
        now: Timestamp,
    ) -> (result: Result<Vec<String>, Error>)
        ensures
            old(self).set_transaction_tags_leads_to(
                transaction_id,
                names,
                now,
                result,
                *final(self),
            ),
    {
        proof {
            journal_starts(*self);
        }
        let wanted = wanted_tags(names);
        proof {
            lemma_tag_set_once(views(names@));
            lemma_same_length(views(wanted@), tag_set(views(names@)));
        }
        let first: i64 = match fresh_id(self.tag_table()) {
            Some(id) => id,
            None => {
                assert(self@.next_tag_id(i64::MAX + 1));
                return Err(Error::NoFreeId);
            },
        };
        if wanted.len() as i128 > i64::MAX as i128 - first as i128 {
            assert(self@.next_tag_id(first as int));
            return Err(Error::NoFreeId);
        }
        self.put_tags(transaction_id, copy_texts(&wanted));
        let ghost one = *self;
        self.make_tags(&wanted, first, now);
        let ghost two = *self;
        self.drop_unused_tags();
        proof {
            journal_goes_on(*old(self), one, two);
            journal_goes_on(*old(self), two, *self);
            lemma_same_transfers(old(self)@, self@);
            lemma_fits(old(self)@, one@, two@, self@, transaction_id, views(wanted@));
            assert forall|i: int| 0 <= i < wanted@.len() implies self@.has_tag(
                #[trigger] wanted@[i]@,
            ) by {
                assert(views(wanted@)[i] == wanted@[i]@);
            }
        }
        Ok(wanted)
    }
}

proof fn lemma_same_length(a: Seq<Seq<char>>, b: Seq<Seq<char>>)
    requires
        a.no_duplicates(),
        b.no_duplicates(),
        forall|x: Seq<char>| #[trigger] a.contains(x) <==> b.contains(x),
    ensures
        a.len() == b.len(),
{
    a.unique_seq_to_set();
    b.unique_seq_to_set();
    assert(a.to_set() =~= b.to_set());
}

/// After replacing one list of tags, making the missing tags and dropping the
/// unused ones, the tags are those in use.
proof fn lemma_fits(
    t: Tables,
    one: Tables,
    two: Tables,
    last: Tables,
    tx_id: i64,
    wanted: Seq<Seq<char>>,
)
    requires
        one == (Tables {
            tagged: if wanted.len() == 0 {
                t.tagged.remove(tx_id)
            } else {
                t.tagged.insert(tx_id, wanted)
            },
            ..t
        }),
        two == (Tables { tags: two.tags, ..one }),
        forall|k: i64| #[trigger]
            one.tags.contains_key(k) ==> two.tags.contains_key(k) && two.tags[k] == one.tags[k],
        forall|i: int| 0 <= i < wanted.len() ==> two.has_tag(#[trigger] wanted[i]),
        t.tags_differ() ==> two.tags_differ(),
        last == (Tables { tags: last.tags, ..two }),
        forall|id: i64| #[trigger]
            last.tags.contains_key(id) <==> two.tags.contains_key(id) && two.in_use(
                two.tags[id].name@,
            ),
        forall|id: i64| #[trigger] last.tags.contains_key(id) ==> last.tags[id] == two.tags[id],
    ensures
        last.tags_are_used(),
        forall|id: i64| #[trigger]
            t.tags.contains_key(id) && last.in_use(t.tags[id].name@) ==> last.tags.contains_key(id),
        forall|i: int| 0 <= i < wanted.len() ==> last.has_tag(#[trigger] wanted[i]),
        t.tags_fit() ==> last.tags_fit(),
{
    assert(last.tagged == two.tagged && two.tagged == one.tagged && one.tags == t.tags);
    assert forall|n: Seq<char>| #[trigger] last.in_use(n) == two.in_use(n) by {}
    assert forall|i: int| 0 <= i < wanted.len() implies last.has_tag(#[trigger] wanted[i]) by {
        let name = wanted[i];
        assert(two.has_tag(name));
        assert(last.tagged.contains_key(tx_id) && last.tagged[tx_id].contains(name));
        assert(two.in_use(name));
        let k = choose|k: i64| #[trigger] two.tags.contains_key(k) && two.tags[k].name@ == name;
        assert(last.tags.contains_key(k));
    }
    assert forall|id: i64| #[trigger]
        t.tags.contains_key(id) && last.in_use(t.tags[id].name@) implies last.tags.contains_key(
        id,
    ) by {
        assert(one.tags.contains_key(id));
        assert(two.tags.contains_key(id));
    }
    if t.tags_fit() {
        assert forall|tx: i64, i: int|
            #![trigger last.tagged[tx][i]]
            last.tagged.contains_key(tx) && 0 <= i < last.tagged[tx].len() implies last.has_tag(
            last.tagged[tx][i],
        ) by {
            let name = last.tagged[tx][i];
            assert(last.tagged[tx].contains(name));
            assert(last.in_use(name));
            if tx != tx_id {
                assert(t.tagged.contains_key(tx));
                assert(t.has_tag(t.tagged[tx][i]));
                let k = choose|k: i64| #[trigger]
                    t.tags.contains_key(k) && t.tags[k].name@ == name;
                assert(one.tags.contains_key(k));
                assert(last.tags.contains_key(k));
            } else {
                assert(last.has_tag(wanted[i]));
            }
        }
        assert forall|a: i64, b: i64| #[trigger]
            last.tags.contains_key(a) && #[trigger] last.tags.contains_key(b)
                && last.tags[a].name@ == last.tags[b].name@ implies a == b by {
            assert(two.tags.contains_key(a) && two.tags.contains_key(b));
        }
    }
}

/// Tags by name.
pub open spec fn by_tag_name() -> spec_fn(Tag, Tag) -> bool {
    |a: Tag, b: Tag| super::order::by_name(a.name@, a.id, b.name@, b.id)
}

fn tag_leq(a: &Tag, b: &Tag) -> (le: bool)
    ensures
        le == by_tag_name()(*a, *b),
{
    super::order::name_leq(&a.name, a.id, &b.name, b.id)
}

proof fn lemma_by_tag_name()
    ensures
        total(by_tag_name()),
        transitive(by_tag_name()),
{
    let order = by_tag_name();
    assert forall|a: Tag, b: Tag| #[trigger] order(a, b) || order(b, a) by {
        super::order::lemma_by_name_total(a.name@, a.id, b.name@, b.id);
    }
    assert forall|a: Tag, b: Tag, c: Tag| #[trigger] order(a, b) && #[trigger] order(
        b,
        c,
    ) implies order(a, c) by {
        super::order::lemma_by_name_transitive(a.name@, a.id, b.name@, b.id, c.name@, c.id);
    }
}

/// How many transactions have a tag.
pub open spec fn uses(t: Tables) -> spec_fn(Tag) -> int {
    |tag: Tag| t.users(tag.name@).len() as int
}

/// Most-used first, then alphabetical.
pub open spec fn most_used(t: Tables) -> spec_fn(Tag, Tag) -> bool {
    best(uses(t), by_tag_name())
}

/// Linking a transfer keeps the notes and tags of both endpoints.
pub proof fn a_transfer_leg_keeps_its_annotations(
    t: Tables,
    id: i64,
    transfer: crate::model::Transfer,
)
    ensures
        t.linked(id, transfer).notes == t.notes,
        t.linked(id, transfer).tagged == t.tagged,
        t.linked(id, transfer).tags == t.tags,
{
}

} // verus!
