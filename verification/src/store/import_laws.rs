//! What importing a transaction comes to, row by row.

use vstd::prelude::*;

use super::import::{ImportOutcome, RawTransaction};
use super::{is_fresh, Tables};
use crate::json::{
    has_key, json_fields, json_object, key_at, keys_differ, merged, merging_again_changes_nothing,
    merging_drops_no_key, value_of,
};
use crate::model::Transaction;
use crate::text::is_white;
use crate::text_laws::a_blank_text_trims_to_nothing;

verus! {

/// The transaction is the account's, and has the hash of what was sent, or the one
/// computed for it where none was sent.
pub open spec fn is_of(row: Transaction, account_id: i64, raw: RawTransaction) -> bool {
    row.account_id == account_id && row.hash@ == match raw.hash {
        Some(h) => h@,
        None => raw.fallback_hash@,
    }
}

/// Every character is a blank.
pub open spec fn blank(s: Seq<char>) -> bool {
    forall|i: int| 0 <= i < s.len() ==> is_white(#[trigger] s[i])
}

/// The fields that are read in a metadata text.
pub open spec fn read(text: Seq<char>) -> Seq<(Seq<char>, Seq<char>)> {
    match json_fields(text) {
        Some(fields) => fields,
        None => Seq::empty(),
    }
}

/// A transaction is added exactly if its account has none with its hash. It becomes
/// one row under a new id, with what was sent; every other row stays.
pub proof fn a_new_hash_is_a_new_row(
    t: Tables,
    account_id: i64,
    date: Seq<char>,
    raw: RawTransaction,
    source_file: Seq<char>,
    batch_id: i64,
    outcome: ImportOutcome,
    next: Tables,
)
    requires
        t.took(account_id, date, raw, source_file, batch_id, outcome, next),
    ensures
        outcome == ImportOutcome::Added <==> forall|k: i64| #[trigger]
            t.transactions.contains_key(k) ==> !is_of(t.transactions[k], account_id, raw),
        outcome == ImportOutcome::Added ==> exists|id: i64|
            {
                let row = next.transactions[id];
                &&& !(#[trigger] t.transactions.contains_key(id))
                &&& next.transactions == t.transactions.insert(id, row)
                &&& row.id == id
                &&& is_of(row, account_id, raw)
                &&& t.accounts.contains_key(account_id) ==> row.bank_id
                    == t.accounts[account_id].bank_id
                &&& row.date@ == date
                &&& row.description@ == raw.description@
                &&& row.amount_cents == raw.amount_cents
                &&& row.balance_cents == raw.balance_cents
                &&& row.metadata@ == raw.metadata@
                &&& row.source_file@ == source_file
                &&& row.import_batch_id == batch_id
            },
        outcome != ImportOutcome::Added ==> next.transactions.dom() == t.transactions.dom(),
        next == (Tables { transactions: next.transactions, ..t }),
{
    let hash = raw.identity()@;
    assert forall|k: i64|
        #![trigger t.imported_as(k, account_id, hash)]
        t.imported_as(k, account_id, hash) <==> t.transactions.contains_key(k) && is_of(
            t.transactions[k],
            account_id,
            raw,
        ) by {}
    match outcome {
        ImportOutcome::Added => {
            let id = choose|id: i64| #[trigger]
                is_fresh(t.transactions, id) && next.transactions == t.transactions.insert(
                    id,
                    next.transactions[id],
                ) && next.transactions[id].id == id && next.transactions[id].bank_id == t.bank_of(
                    account_id,
                ) && next.transactions[id].account_id == account_id && next.transactions[id].date@
                    == date && next.transactions[id].description@ == raw.description@
                    && next.transactions[id].amount_cents == raw.amount_cents
                    && next.transactions[id].balance_cents == raw.balance_cents
                    && next.transactions[id].hash@ == hash && next.transactions[id].metadata@
                    == raw.metadata@ && next.transactions[id].source_file@ == source_file
                    && next.transactions[id].import_batch_id == batch_id;
            assert(!t.transactions.contains_key(id));
            assert forall|k: i64| #[trigger] t.transactions.contains_key(k) implies !is_of(
                t.transactions[k],
                account_id,
                raw,
            ) by {
                assert(!t.imported_as(k, account_id, hash));
            }
        },
        _ => {
            let k = choose|k: i64| #[trigger] t.imported_as(k, account_id, hash);
            assert(t.transactions.contains_key(k));
            assert(next.transactions.dom() =~= t.transactions.dom());
        },
    }
}

/// A known transaction that is sent again takes over the description that was sent,
/// character for character, unless that is blank. Its account, date, amounts, hash,
/// file and batch stay, and so does every other row. Nothing at all changes where
/// the outcome says so, and only there.
pub proof fn a_known_hash_takes_the_sent_description(
    t: Tables,
    account_id: i64,
    date: Seq<char>,
    raw: RawTransaction,
    source_file: Seq<char>,
    batch_id: i64,
    outcome: ImportOutcome,
    next: Tables,
    id: i64,
)
    requires
        t.took(account_id, date, raw, source_file, batch_id, outcome, next),
        t.transactions.contains_key(id),
        is_of(t.transactions[id], account_id, raw),
        forall|k: i64| #[trigger]
            t.transactions.contains_key(k) && is_of(t.transactions[k], account_id, raw) ==> k == id,
    ensures
        ({
            let (was, is) = (t.transactions[id], next.transactions[id]);
            &&& next.transactions == t.transactions.insert(id, is)
            &&& is.description@ == if blank(raw.description@) {
                was.description@
            } else {
                raw.description@
            }
            &&& is == (Transaction { description: is.description, metadata: is.metadata, ..was })
            &&& outcome == ImportOutcome::Unchanged ==> is == was
            &&& is.description@ != was.description@ ==> outcome == ImportOutcome::Updated
            &&& outcome != ImportOutcome::Added
        }),
{
    let hash = raw.identity()@;
    a_blank_text_trims_to_nothing(raw.description@);
    assert forall|k: i64|
        #![trigger t.imported_as(k, account_id, hash)]
        t.imported_as(k, account_id, hash) <==> t.transactions.contains_key(k) && is_of(
            t.transactions[k],
            account_id,
            raw,
        ) by {}
    assert(t.imported_as(id, account_id, hash));
    assert forall|k: i64| #[trigger] t.imported_as(k, account_id, hash) implies k == id by {
        assert(t.transactions.contains_key(k));
    }
    if outcome == ImportOutcome::Unchanged {
        assert(next.transactions =~= t.transactions.insert(id, next.transactions[id]));
    }
}

/// Merging metadata gives the fields that were sent, and those stored under other
/// keys: a sent value replaces the stored one, and no stored key goes.
pub proof fn merging_prefers_what_was_sent(
    stored: Seq<(Seq<char>, Seq<char>)>,
    sent: Seq<(Seq<char>, Seq<char>)>,
    field: (Seq<char>, Seq<char>),
)
    requires
        keys_differ(stored),
        keys_differ(sent),
    ensures
        keys_differ(merged(stored, sent)),
        merged(stored, sent).contains(field) <==> sent.contains(field) || (stored.contains(field)
            && forall|j: int| 0 <= j < sent.len() ==> (#[trigger] sent[j]).0 != field.0),
{
    let all = merged(stored, sent);
    let key = field.0;
    merging_drops_no_key(stored, sent, key);
    lemma_field(stored, field);
    lemma_field(sent, field);
    lemma_field(all, field);
    if has_key(sent, key) {
        let j = choose|j: int| #[trigger] key_at(sent, key, j);
        assert(sent[j].0 == field.0);
    } else {
        assert forall|j: int| 0 <= j < sent.len() implies (#[trigger] sent[j]).0 != field.0 by {
            assert(!key_at(sent, key, j));
        }
    }
}

proof fn lemma_field(fields: Seq<(Seq<char>, Seq<char>)>, field: (Seq<char>, Seq<char>))
    requires
        keys_differ(fields),
    ensures
        fields.contains(field) <==> has_key(fields, field.0) && value_of(fields, field.0)
            == field.1,
{
    if fields.contains(field) {
        let i = choose|i: int| 0 <= i < fields.len() && fields[i] == field;
        assert(key_at(fields, field.0, i));
        let k = choose|k: int| #[trigger] key_at(fields, field.0, k);
        assert(i == k) by {
            if i < k {
                assert(fields[i].0 != fields[k].0);
            } else if k < i {
                assert(fields[k].0 != fields[i].0);
            }
        }
    }
    if has_key(fields, field.0) && value_of(fields, field.0) == field.1 {
        let k = choose|k: int| #[trigger] key_at(fields, field.0, k);
        assert(fields[k] == field);
    }
}

/// A known transaction that is sent again keeps its metadata text where every field
/// that was sent is there already. Metadata that changes is written anew, with the
/// fields that were sent and those stored under other keys.
pub proof fn a_known_hash_takes_the_sent_fields(
    t: Tables,
    account_id: i64,
    date: Seq<char>,
    raw: RawTransaction,
    source_file: Seq<char>,
    batch_id: i64,
    outcome: ImportOutcome,
    next: Tables,
    id: i64,
)
    requires
        t.took(account_id, date, raw, source_file, batch_id, outcome, next),
        t.transactions.contains_key(id),
        is_of(t.transactions[id], account_id, raw),
        forall|k: i64| #[trigger]
            t.transactions.contains_key(k) && is_of(t.transactions[k], account_id, raw) ==> k == id,
        keys_differ(read(t.transactions[id].metadata@)),
        keys_differ(read(raw.metadata@)),
    ensures
        ({
            let (was, is) = (t.transactions[id].metadata@, next.transactions[id].metadata@);
            let (stored, sent) = (read(was), read(raw.metadata@));
            &&& (forall|i: int| 0 <= i < sent.len() ==> stored.contains(#[trigger] sent[i]))
                ==> is == was
            &&& is != was ==> exists|fields: Seq<(Seq<char>, Seq<char>)>|
                {
                    &&& is == #[trigger] json_object(fields)
                    &&& keys_differ(fields)
                    &&& forall|f: (Seq<char>, Seq<char>)| #[trigger]
                        fields.contains(f) <==> sent.contains(f) || (stored.contains(f) && forall|
                            j: int,
                        |
                            0 <= j < sent.len() ==> (#[trigger] sent[j]).0 != f.0)
                }
        }),
{
    let hash = raw.identity()@;
    assert forall|k: i64|
        #![trigger t.imported_as(k, account_id, hash)]
        t.imported_as(k, account_id, hash) <==> t.transactions.contains_key(k) && is_of(
            t.transactions[k],
            account_id,
            raw,
        ) by {}
    assert(t.imported_as(id, account_id, hash));
    assert forall|k: i64| #[trigger] t.imported_as(k, account_id, hash) implies k == id by {
        assert(t.transactions.contains_key(k));
    }
    let (was, is) = (t.transactions[id].metadata@, next.transactions[id].metadata@);
    let (stored, sent) = (read(was), read(raw.metadata@));
    if forall|i: int| 0 <= i < sent.len() ==> stored.contains(#[trigger] sent[i]) {
        merging_again_changes_nothing(stored, sent);
    }
    if is != was {
        let fields = merged(stored, sent);
        assert(is == json_object(fields));
        assert forall|f: (Seq<char>, Seq<char>)| #[trigger]
            fields.contains(f) <==> sent.contains(f) || (stored.contains(f) && forall|j: int|
                0 <= j < sent.len() ==> (#[trigger] sent[j]).0 != f.0) by {
            merging_prefers_what_was_sent(stored, sent, f);
        }
        merging_drops_no_key(stored, sent, Seq::empty());
    }
}

} // verus!
