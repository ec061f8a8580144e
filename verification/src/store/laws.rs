//! What reads give back of writes, and what one operation undoes of another.

use vstd::prelude::*;

use super::accounts::named_account;
use super::categories::normal_path;
use super::enrichments::Assignment;
use super::order::by_position;
use super::{Error, Tables, TransactionStore};
use crate::model::{Account, Timestamp, Transfer};
use crate::text::{trimmed_end, views};

verus! {

/// A transaction that was assigned a category has it, and no other transaction's
/// category changes.
pub proof fn an_assigned_category_reads_back(
    t: Tables,
    tx_id: i64,
    a: Assignment,
    id: i64,
    now: Timestamp,
    other: i64,
)
    requires
        t.categories.contains_key(a.category_id),
        other != tx_id,
    ensures
        t.assigned(tx_id, a, id, now).category_of(tx_id) == Some(t.categories[a.category_id]),
        t.assigned(tx_id, a, id, now).category_of(other) == t.category_of(other),
        t.assigned(tx_id, a, id, now).settled(tx_id) == a.confirmed,
{
}

/// A transaction whose enrichment was removed has no category.
pub proof fn a_removed_category_is_gone(
    before: TransactionStore,
    tx_id: i64,
    after: TransactionStore,
)
    requires
        before.delete_enrichment_leads_to(tx_id, after),
    ensures
        after@.category_of(tx_id) is None,
        !after@.categorised(tx_id),
{
}

/// Asking for a category by path gives one with that path; asking again gives the
/// same one and changes nothing.
pub proof fn a_category_is_made_once(
    before: TransactionStore,
    path: &str,
    now: Timestamp,
    id: i64,
    mid: TransactionStore,
    later: Timestamp,
    again: Result<i64, Error>,
    after: TransactionStore,
)
    requires
        before@.paths_differ(),
        before.get_or_create_category_leads_to(path, now, Ok(id), mid),
        mid.get_or_create_category_leads_to(path, later, again, after),
    ensures
        mid@.categories.contains_key(id),
        mid@.categories[id].path@ == normal_path(path@),
        again == Ok::<i64, Error>(id),
        after == mid,
{
    assert(mid@.categories.contains_key(id));
    assert(mid@.has_path(normal_path(path@)));
}

/// Both transactions of a new transfer are in it and have no category; no other
/// transaction's category changes.
pub proof fn a_new_transfer_takes_both_categories(t: Tables, id: i64, row: Transfer, other: i64)
    requires
        !t.transfers.contains_key(id),
        other != row.from_transaction_id,
        other != row.to_transaction_id,
    ensures
        t.linked(id, row).is_leg(row.from_transaction_id),
        t.linked(id, row).is_leg(row.to_transaction_id),
        t.linked(id, row).category_of(row.from_transaction_id) is None,
        t.linked(id, row).category_of(row.to_transaction_id) is None,
        t.linked(id, row).category_of(other) == t.category_of(other),
{
    assert(t.linked(id, row).transfers.contains_key(id));
}

/// Deleting the transfer that was just made leaves the transfers as they were.
pub proof fn unlinking_undoes_linking(t: Tables, id: i64, row: Transfer)
    requires
        !t.transfers.contains_key(id),
    ensures
        t.linked(id, row).transfers.remove(id) == t.transfers,
{
    assert(t.linked(id, row).transfers.remove(id) =~= t.transfers);
}

/// A renamed account has the bank and the name that the path says, and is still
/// open.
pub proof fn a_renamed_account_has_the_path(
    t: Tables,
    id: i64,
    path: Seq<char>,
    on_disk: bool,
    next: Tables,
)
    requires
        t.account_renamed(id, path, on_disk, next),
    ensures
        next.is_open(id),
        named_account(path) == Some(
            (next.bank_name_of(next.accounts[id]), next.accounts[id].name@),
        ),
{
}

/// A deleted account is no longer open; its transactions are all still there.
pub proof fn a_deleted_account_keeps_its_transactions(t: Tables, id: i64, now: Timestamp)
    requires
        t.is_open(id),
    ensures
        ({
            let next = Tables {
                accounts: t.accounts.insert(
                    id,
                    Account { deleted_at: Some(now), ..t.accounts[id] },
                ),
                ..t
            };
            &&& !next.is_open(id)
            &&& next.holdings(id) == t.holdings(id)
            &&& forall|tx: i64| #[trigger]
                t.transactions.contains_key(tx) && t.transactions[tx].account_id == id
                    ==> !next.live(next.transactions[tx])
        }),
{
    let next = Tables {
        accounts: t.accounts.insert(
            id,
            Account { deleted_at: Some(now), ..t.accounts[id] },
        ),
        ..t
    };
    assert(next.holdings(id) =~= t.holdings(id));
}

/// A new filter comes after all the others.
pub proof fn a_new_filter_comes_last(
    before: TransactionStore,
    name: &str,
    query: &str,
    now: Timestamp,
    id: i64,
    after: TransactionStore,
    other: i64,
)
    requires
        before.create_filter_leads_to(name, query, now, Ok(id), after),
        before@.filters.contains_key(other),
    ensures
        after@.filters[other] == before@.filters[other],
        by_position()(after@.filters[other], after@.filters[id]),
        !by_position()(after@.filters[id], after@.filters[other]),
{
    assert(!(before@.filters.dom() =~= Set::<i64>::empty()));
}

/// A saved note reads back without the white space at its end; a blank one is no
/// note.
pub proof fn a_saved_note_reads_back(
    before: TransactionStore,
    tx_id: i64,
    note: &str,
    kept: bool,
    after: TransactionStore,
)
    requires
        before.set_note_leads_to(tx_id, note, kept, after),
    ensures
        kept == after@.notes.contains_key(tx_id),
        kept ==> after@.notes[tx_id] == trimmed_end(note@),
{
}

/// Saved tags read back, each once and in order.
pub proof fn saved_tags_read_back(
    before: TransactionStore,
    tx_id: i64,
    names: &Vec<String>,
    now: Timestamp,
    stored: Vec<String>,
    after: TransactionStore,
)
    requires
        before.set_transaction_tags_leads_to(tx_id, names, now, Ok(stored), after),
    ensures
        stored@.len() > 0 ==> after@.tagged.contains_key(tx_id) && after@.tagged[tx_id]
            == views(stored@),
        stored@.len() == 0 ==> !after@.tagged.contains_key(tx_id),
        forall|other: i64| #[trigger]
            before@.tagged.contains_key(other) && other != tx_id ==> after@.tagged.contains_key(
                other,
            ) && after@.tagged[other] == before@.tagged[other],
{
}

} // verus!
