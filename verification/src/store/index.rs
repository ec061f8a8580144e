//! What the full-text index holds of each transaction.

use vstd::prelude::*;
use vstd::std_specs::hash::*;

use super::select::keys_of;
use super::{journalled, replay, Change, Tables, TransactionStore};
use crate::json::{field_views, fields_of, read_fields, Fields};

verus! {

broadcast use group_hash_axioms;

/// The parts of a transaction's indexed text. A note is part of it.
pub struct Posting {
    pub tx_id: i64,
    pub description: String,
    pub metadata: Fields,
    pub note: Option<String>,
}

/// The text by which full-text search finds a transaction, in its parts.
pub struct IndexText {
    pub description: Seq<char>,
    pub metadata: Seq<(Seq<char>, Seq<char>)>,
    pub note: Option<Seq<char>>,
}

impl Posting {
    pub open spec fn text(&self) -> IndexText {
        IndexText {
            description: self.description@,
            metadata: field_views(self.metadata@),
            note: match self.note {
                Some(n) => Some(n@),
                None => None,
            },
        }
    }
}

impl Tables {
    /// The text of a transaction.
    pub open spec fn text_of(self, tx_id: i64) -> IndexText {
        IndexText {
            description: self.transactions[tx_id].description@,
            metadata: fields_of(self.transactions[tx_id].metadata@),
            note: if self.notes.contains_key(tx_id) {
                Some(self.notes[tx_id])
            } else {
                None
            },
        }
    }

    /// The text of every transaction: what the index should hold.
    pub open spec fn texts(self) -> Map<i64, IndexText> {
        Map::new(|id: i64| self.transactions.contains_key(id), |id: i64| self.text_of(id))
    }

    /// The posting of a transaction that is there. Metadata that is no JSON
    /// object counts as empty.
    pub open spec fn posts(self, tx_id: i64, p: Posting) -> bool {
        &&& p.tx_id == tx_id
        &&& self.transactions.contains_key(tx_id)
        &&& p.description@ == self.transactions[tx_id].description@
        &&& field_views(p.metadata@) == fields_of(self.transactions[tx_id].metadata@)
        &&& match p.note {
            Some(n) => self.notes.contains_key(tx_id) && self.notes[tx_id] == n@,
            None => !self.notes.contains_key(tx_id),
        }
    }
}

/// The index of one who follows the changes, and has a transaction's text indexed
/// where they say so.
pub open spec fn follow(t: Tables, index: Map<i64, IndexText>, changes: Seq<Change>) -> Map<
    i64,
    IndexText,
>
    decreases changes.len(),
{
    if changes.len() == 0 {
        index
    } else {
        let before = follow(t, index, changes.drop_last());
        let now = replay(t, changes).texts();
        match changes.last() {
            Change::Reindex { tx_id } => if now.contains_key(tx_id) {
                before.insert(tx_id, now[tx_id])
            } else {
                before
            },
            _ => before,
        }
    }
}

/// Whoever holds the text of every transaction and follows the journal holds the text
/// of every transaction again, and of no other.
pub proof fn following_keeps_the_index(
    before: TransactionStore,
    after: TransactionStore,
    tx_id: i64,
    posting: Posting,
)
    requires
        journalled(before, after),
        after@.posts(tx_id, posting),
    ensures
        ({
            let changes = after.noted().skip(before.noted().len() as int);
            let index = follow(before@, before@.texts(), changes);
            &&& index.dom() == after@.transactions.dom()
            &&& index[tx_id] == posting.text()
        }),
{
    assert(after@.texts().dom() =~= after@.transactions.dom());
}

proof fn lemma_not_indexed(
    t: Tables,
    index: Map<i64, IndexText>,
    changes: Seq<Change>,
    tx_id: i64,
)
    requires
        forall|i: int|
            0 <= i < changes.len() ==> #[trigger] changes[i] != (Change::Reindex { tx_id }),
    ensures
        follow(t, index, changes).contains_key(tx_id) == index.contains_key(tx_id),
        follow(t, index, changes)[tx_id] == index[tx_id],
    decreases changes.len(),
{
    if changes.len() > 0 {
        let rest = changes.drop_last();
        assert forall|i: int| 0 <= i < rest.len() implies #[trigger] rest[i] != (
        Change::Reindex { tx_id }) by {
            assert(rest[i] == changes[i]);
        }
        lemma_not_indexed(t, index, rest, tx_id);
        assert(changes[changes.len() - 1] == changes.last());
    }
}

/// A transaction that is new, or whose text changed, is noted for indexing: reading
/// the posting of every noted transaction brings the index up to date.
pub proof fn a_changed_text_is_noted(before: TransactionStore, after: TransactionStore, tx_id: i64)
    requires
        journalled(before, after),
        after@.transactions.contains_key(tx_id),
        before@.transactions.contains_key(tx_id) ==> before@.text_of(tx_id) != after@.text_of(
            tx_id,
        ),
    ensures
        exists|i: int|
            before.noted().len() <= i < after.noted().len() && #[trigger] after.noted()[i] == (
            Change::Reindex { tx_id }),
{
    let n = before.noted().len() as int;
    let changes = after.noted().skip(n);
    if forall|i: int|
        0 <= i < changes.len() ==> #[trigger] changes[i] != (Change::Reindex { tx_id }) {
        lemma_not_indexed(before@, before@.texts(), changes, tx_id);
        assert(after@.texts().contains_key(tx_id));
    } else {
        let i = choose|i: int|
            0 <= i < changes.len() && #[trigger] changes[i] == (Change::Reindex { tx_id });
        assert(after.noted()[n + i] == changes[i]);
    }
}

impl TransactionStore {
    /// One transaction's posting from its current row and note.
    pub fn refresh_transaction_fts(&self, tx_id: i64) -> (posting: Option<Posting>)
        ensures
            match posting {
                Some(p) => self@.posts(tx_id, p),
                None => !self@.transactions.contains_key(tx_id),
            },
    {
        match self.transaction_row(tx_id) {
            Some(tx) => Some(
                Posting {
                    tx_id,
                    description: tx.description.clone(),
                    metadata: read_fields(&tx.metadata),
                    note: self.get_note(tx_id),
                },
            ),
            None => None,
        }
    }

    /// One posting per transaction: the whole index, built anew.
    pub fn rebuild_fts(&self) -> (postings: Vec<Posting>)
        ensures
            postings@.len() == self@.transactions.len(),
            forall|i: int|
                0 <= i < postings@.len() ==> self@.posts(
                    (#[trigger] postings@[i]).tx_id,
                    postings@[i],
                ),
            forall|tx_id: i64| #[trigger]
                self@.transactions.contains_key(tx_id) ==> exists|i: int|
                    0 <= i < postings@.len() && (#[trigger] postings@[i]).tx_id == tx_id,
    {
        let keys = keys_of(self.transaction_table());
        let mut postings: Vec<Posting> = Vec::new();
        let mut i: usize = 0;
        while i < keys.len()
            invariant
                i <= keys@.len(),
                forall|k: i64| #[trigger]
                    keys@.contains(k) <==> self@.transactions.contains_key(k),
                postings@.len() == i,
                forall|j: int|
                    0 <= j < i ==> self@.posts(keys@[j], #[trigger] postings@[j]),
            decreases keys@.len() - i,
        {
            assert(keys@.contains(keys@[i as int]));
            if let Some(posting) = self.refresh_transaction_fts(keys[i]) {
                postings.push(posting);
            }
            i += 1;
        }
        proof {
            keys@.unique_seq_to_set();
            assert(keys@.to_set() =~= self@.transactions.dom());
            assert forall|tx_id: i64| #[trigger]
                self@.transactions.contains_key(tx_id) implies exists|i: int|
                0 <= i < postings@.len() && (#[trigger] postings@[i]).tx_id == tx_id by {
                assert(keys@.contains(tx_id));
                let j = choose|j: int| 0 <= j < keys@.len() && keys@[j] == tx_id;
                assert(postings@[j].tx_id == tx_id);
            }
        }
        postings
    }
}

} // verus!
