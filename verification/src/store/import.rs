//! Importing transactions: new rows, and refinements of rows already imported.

use vstd::prelude::*;
use vstd::string::*;

use super::enrichments::lemma_same_transfers;
use super::select::keys_of;
use super::{
    fresh_id, indexes, is_fresh, journal_goes_on, journal_starts, journalled, lemma_indexed, Change,
    Error, Tables, TransactionStore,
};
use crate::json::{
    alike, all_stand, field_views, fields_of, json_object, keys_differ, merge_metadata, merged,
    merging_again_changes_nothing, merging_takes_every_field, read_fields, same_fields,
    write_fields, Fields,
};
use crate::model::{RefreshReport, Transaction};
use crate::text::{same, trim, trimmed};
use crate::time::{date_of, find_date};

verus! {

/// A transaction as a source reports it.
#[derive(Debug)]
pub struct RawTransaction {
    pub date: String,
    pub description: String,
    pub amount_cents: i64,
    pub balance_cents: i64,
    /// The source's own identity of the transaction, where it has one.
    pub hash: Option<String>,
    /// An identity computed from the other fields.
    pub fallback_hash: String,
    /// JSON object.
    pub metadata: String,
}

impl RawTransaction {
    /// What the transaction is recognised by.
    pub open spec fn identity(self) -> String {
        match self.hash {
            Some(hash) => hash,
            None => self.fallback_hash,
        }
    }
}

/// What one raw transaction did to the store.
#[derive(Debug, Clone, Copy, PartialEq, Eq, Structural)]
pub enum ImportOutcome {
    /// A new row.
    Added,
    /// An existing `(account_id, hash)` row whose description or metadata the
    /// source has since refined.
    Updated,
    /// An existing row the source re-sent unchanged.
    Unchanged,
}

/// One more, up to the largest count there is.
pub open spec fn bumped(n: usize) -> usize {
    if n < usize::MAX {
        (n + 1) as usize
    } else {
        n
    }
}

pub(crate) fn bump(n: usize) -> (m: usize)
    ensures
        m == bumped(n),
{
    if n < usize::MAX {
        n + 1
    } else {
        n
    }
}

/// The report after an outcome.
pub open spec fn tallied(report: RefreshReport, outcome: ImportOutcome) -> RefreshReport {
    match outcome {
        ImportOutcome::Added => RefreshReport {
            transactions_added: bumped(report.transactions_added),
            ..report
        },
        ImportOutcome::Updated => RefreshReport {
            transactions_updated: bumped(report.transactions_updated),
            ..report
        },
        ImportOutcome::Unchanged => RefreshReport {
            transactions_skipped: bumped(report.transactions_skipped),
            ..report
        },
    }
}

/// The description after a source sent it again. A feed that drops the payee
/// entirely is a regression, not a refinement, and the stored text is
/// unrecoverable — so it is never blanked.
pub open spec fn refined_description(stored: Seq<char>, sent: Seq<char>) -> Seq<char> {
    if trimmed(sent).len() == 0 {
        stored
    } else {
        sent
    }
}

/// The metadata after a source sent it again: the stored text verbatim where no
/// field changes.
pub open spec fn refined_metadata(stored: Seq<char>, sent: Seq<char>) -> Seq<char> {
    if alike(merged(fields_of(stored), fields_of(sent)), fields_of(stored)) {
        stored
    } else {
        json_object(merged(fields_of(stored), fields_of(sent)))
    }
}

/// The row after a source sent it again. Only description and metadata move. The
/// hash asserts this is the same real-world transaction, so identity and economic
/// fields are never touched: a feed that changed those is reporting a different
/// transaction, not a refinement of this one. The row id is preserved, so
/// categories, notes, tags and transfer links all survive.
pub open spec fn refines(
    stored: Transaction,
    description: Seq<char>,
    metadata: Seq<char>,
    row: Transaction,
) -> bool {
    &&& row == (Transaction { description: row.description, metadata: row.metadata, ..stored })
    &&& row.description@ == refined_description(stored.description@, description)
    &&& row.metadata@ == refined_metadata(stored.metadata@, metadata)
}

impl Tables {
    /// The row is the account's transaction with the hash.
    pub open spec fn imported_as(self, id: i64, account_id: i64, hash: Seq<char>) -> bool {
        self.transactions.contains_key(id) && self.transactions[id].account_id == account_id
            && self.transactions[id].hash@ == hash
    }

    /// The account has a transaction with the hash.
    pub open spec fn has_import(self, account_id: i64, hash: Seq<char>) -> bool {
        exists|id: i64| #[trigger] self.imported_as(id, account_id, hash)
    }

    /// No account has two transactions with one hash.
    pub open spec fn imports_differ(self) -> bool {
        forall|a: i64, b: i64| #[trigger]
            self.transactions.contains_key(a) && #[trigger] self.transactions.contains_key(b)
                && self.transactions[a].account_id == self.transactions[b].account_id
                && self.transactions[a].hash@ == self.transactions[b].hash@ ==> a == b
    }

    /// The bank of an account.
    pub open spec fn bank_of(self, account_id: i64) -> i64 {
        if self.accounts.contains_key(account_id) {
            self.accounts[account_id].bank_id
        } else {
            0
        }
    }

    /// The tables after importing a transaction.
    pub open spec fn took(
        self,
        account_id: i64,
        date: Seq<char>,
        raw: RawTransaction,
        source_file: Seq<char>,
        batch_id: i64,
        outcome: ImportOutcome,
        next: Tables,
    ) -> bool {
        match outcome {
            ImportOutcome::Added => {
                &&& !self.has_import(account_id, raw.identity()@)
                &&& exists|id: i64| #[trigger]
                    is_fresh(self.transactions, id) && {
                        let row = next.transactions[id];
                        &&& next == (Tables {
                            transactions: self.transactions.insert(id, row),
                            ..self
                        })
                        &&& row.id == id
                        &&& row.bank_id == self.bank_of(account_id)
                        &&& row.account_id == account_id
                        &&& row.date@ == date
                        &&& row.description@ == raw.description@
                        &&& row.amount_cents == raw.amount_cents
                        &&& row.balance_cents == raw.balance_cents
                        &&& row.hash@ == raw.identity()@
                        &&& row.metadata@ == raw.metadata@
                        &&& row.source_file@ == source_file
                        &&& row.import_batch_id == batch_id
                    }
            },
            ImportOutcome::Updated => exists|id: i64| #[trigger]
                self.imported_as(id, account_id, raw.identity()@) && {
                    let row = next.transactions[id];
                    &&& next == (Tables {
                        transactions: self.transactions.insert(id, row),
                        ..self
                    })
                    &&& refines(self.transactions[id], raw.description@, raw.metadata@, row)
                    &&& !self.sent_again(id, raw)
                },
            ImportOutcome::Unchanged => next == self && exists|id: i64| #[trigger]
                self.imported_as(id, account_id, raw.identity()@) && self.sent_again(id, raw),
        }
    }

    /// What was sent refines nothing of the row.
    pub open spec fn sent_again(self, id: i64, raw: RawTransaction) -> bool {
        let row = self.transactions[id];
        &&& refined_description(row.description@, raw.description@) == row.description@
        &&& alike(
            merged(fields_of(row.metadata@), fields_of(raw.metadata@)),
            fields_of(row.metadata@),
        )
    }

    /// The account has the transaction, and sending it again would refine nothing.
    pub open spec fn settles(self, account_id: i64, raw: RawTransaction) -> bool {
        exists|id: i64| #[trigger]
            self.imported_as(id, account_id, raw.identity()@) && self.sent_again(id, raw)
    }

    /// Whatever the transaction refines, the metadata that is written reads back.
    pub open spec fn writes_well(self, account_id: i64, raw: RawTransaction) -> bool {
        forall|id: i64| #[trigger]
            self.imported_as(id, account_id, raw.identity()@) ==> all_stand(
                merged(fields_of(self.transactions[id].metadata@), fields_of(raw.metadata@)),
            )
    }
}

/// Every transaction that came or was rewritten is indexed anew.
pub open spec fn imports_indexed(old: TransactionStore, new: TransactionStore) -> bool {
    forall|id: i64| #[trigger]
        new@.transactions.contains_key(id) && !(old@.transactions.contains_key(id)
            && old@.transactions[id] == new@.transactions[id]) ==> indexes(old, new, id)
}

/// Importing a transaction that the account has settled changes nothing, whatever its
/// date, file and batch are this time. [`TransactionStore::insert_transaction`]
/// settles what it imports.
pub proof fn importing_again_changes_nothing(
    t: Tables,
    account_id: i64,
    date: Seq<char>,
    raw: RawTransaction,
    source_file: Seq<char>,
    batch_id: i64,
    outcome: ImportOutcome,
    next: Tables,
)
    requires
        t.imports_differ(),
        t.settles(account_id, raw),
        t.took(account_id, date, raw, source_file, batch_id, outcome, next),
    ensures
        outcome == ImportOutcome::Unchanged,
        next == t,
{
    let hash = raw.identity()@;
    let k = choose|k: i64| #[trigger] t.imported_as(k, account_id, hash) && t.sent_again(k, raw);
    assert forall|id: i64| #[trigger] t.imported_as(id, account_id, hash) implies id == k by {
        assert(t.transactions.contains_key(k) && t.transactions.contains_key(id));
    }
}

/// Importing a transaction twice adds it at most once: the second time it is there,
/// and no row comes or goes.
pub proof fn importing_again_adds_nothing(
    t: Tables,
    u: Tables,
    v: Tables,
    account_id: i64,
    raw: RawTransaction,
    first: (Seq<char>, Seq<char>, i64, ImportOutcome),
    second: (Seq<char>, Seq<char>, i64, ImportOutcome),
)
    requires
        t.took(account_id, first.0, raw, first.1, first.2, first.3, u),
        u.took(account_id, second.0, raw, second.1, second.2, second.3, v),
    ensures
        u.has_import(account_id, raw.identity()@),
        second.3 != ImportOutcome::Added,
        v.transactions.dom() == u.transactions.dom(),
{
    importing_leaves_a_row(t, account_id, first.0, raw, first.1, first.2, first.3, u);
    assert(v.transactions.dom() =~= u.transactions.dom());
}

/// An imported transaction is there.
pub proof fn importing_leaves_a_row(
    t: Tables,
    account_id: i64,
    date: Seq<char>,
    raw: RawTransaction,
    source_file: Seq<char>,
    batch_id: i64,
    outcome: ImportOutcome,
    next: Tables,
)
    requires
        t.took(account_id, date, raw, source_file, batch_id, outcome, next),
    ensures
        next.has_import(account_id, raw.identity()@),
{
    let hash = raw.identity()@;
    match outcome {
        ImportOutcome::Added => {
            let id = choose|id: i64| #[trigger]
                is_fresh(t.transactions, id) && next.transactions == t.transactions.insert(
                    id,
                    next.transactions[id],
                ) && next.transactions[id].account_id == account_id && next.transactions[id].hash@
                    == hash;
            assert(next.imported_as(id, account_id, hash));
        },
        ImportOutcome::Updated => {
            let k = choose|k: i64| #[trigger]
                t.imported_as(k, account_id, hash) && next.transactions == t.transactions.insert(
                    k,
                    next.transactions[k],
                ) && refines(
                    t.transactions[k],
                    raw.description@,
                    raw.metadata@,
                    next.transactions[k],
                );
            assert(next.imported_as(k, account_id, hash));
        },
        ImportOutcome::Unchanged => {},
    }
}

/// Transactions stay deduplicated: an account never gets two rows with one hash.
pub proof fn importing_keeps_hashes_apart(
    t: Tables,
    account_id: i64,
    date: Seq<char>,
    raw: RawTransaction,
    source_file: Seq<char>,
    batch_id: i64,
    outcome: ImportOutcome,
    next: Tables,
)
    requires
        t.imports_differ(),
        t.took(account_id, date, raw, source_file, batch_id, outcome, next),
    ensures
        next.imports_differ(),
{
    let hash = raw.identity()@;
    assert forall|a: i64, b: i64| #[trigger]
        next.transactions.contains_key(a) && #[trigger] next.transactions.contains_key(b)
            && next.transactions[a].account_id == next.transactions[b].account_id
            && next.transactions[a].hash@ == next.transactions[b].hash@ implies a == b by {
        match outcome {
            ImportOutcome::Added => {
                let id = choose|id: i64| #[trigger]
                    is_fresh(t.transactions, id) && next.transactions
                        == t.transactions.insert(id, next.transactions[id])
                        && next.transactions[id].account_id == account_id
                        && next.transactions[id].hash@ == hash;
                if a == id && b != id {
                    assert(!t.imported_as(b, account_id, hash));
                }
                if b == id && a != id {
                    assert(!t.imported_as(a, account_id, hash));
                }
                if a != id && b != id {
                    assert(t.transactions.contains_key(a) && t.transactions.contains_key(b));
                }
            },
            ImportOutcome::Updated => {
                assert(t.transactions.contains_key(a) && t.transactions.contains_key(b));
            },
            ImportOutcome::Unchanged => {},
        }
    }
}

/// An imported transaction is in its account's bank.
pub proof fn importing_keeps_the_bank(
    t: Tables,
    account_id: i64,
    date: Seq<char>,
    raw: RawTransaction,
    source_file: Seq<char>,
    batch_id: i64,
    outcome: ImportOutcome,
    next: Tables,
)
    requires
        t.banked(),
        t.took(account_id, date, raw, source_file, batch_id, outcome, next),
    ensures
        next.banked(),
{
}

/// The rest of the tables is no business of an import.
pub proof fn importing_leaves_the_rest(
    t: Tables,
    account_id: i64,
    date: Seq<char>,
    raw: RawTransaction,
    source_file: Seq<char>,
    batch_id: i64,
    outcome: ImportOutcome,
    next: Tables,
)
    requires
        t.took(account_id, date, raw, source_file, batch_id, outcome, next),
    ensures
        next == (Tables { transactions: next.transactions, ..t }),
        forall|id: i64| #[trigger]
            t.transactions.contains_key(id) ==> next.transactions.contains_key(id),
{
}

/// A refinement never blanks a description, and never moves the account, the
/// date, the amounts or the hash.
pub proof fn refining_keeps_the_transaction(
    stored: Transaction,
    description: Seq<char>,
    metadata: Seq<char>,
    row: Transaction,
)
    requires
        refines(stored, description, metadata, row),
    ensures
        trimmed(stored.description@).len() > 0 ==> trimmed(row.description@).len() > 0,
        row.id == stored.id,
        row.account_id == stored.account_id,
        row.date == stored.date,
        row.amount_cents == stored.amount_cents,
        row.balance_cents == stored.balance_cents,
        row.hash == stored.hash,
{
}

impl TransactionStore {
    fn find_import(&self, account_id: i64, hash: &str) -> (id: Option<i64>)
        ensures
            match id {
                Some(id) => self@.imported_as(id, account_id, hash@),
                None => !self@.has_import(account_id, hash@),
            },
    {
        let keys = keys_of(self.transaction_table());
        let mut i: usize = 0;
        while i < keys.len()
            invariant
                i <= keys@.len(),
                forall|k: i64| #[trigger]
                    keys@.contains(k) <==> self@.transactions.contains_key(k),
                forall|j: int|
                    0 <= j < i ==> !self@.imported_as(#[trigger] keys@[j], account_id, hash@),
            decreases keys@.len() - i,
        {
            let k: i64 = keys[i];
            assert(keys@.contains(keys@[i as int]));
            if let Some(tx) = self.transaction_row(k) {
                if tx.account_id == account_id && same(&tx.hash, hash) {
                    return Some(k);
                }
            }
            i += 1;
        }
        assert forall|id: i64| !#[trigger] self@.imported_as(id, account_id, hash@) by {
            if self@.transactions.contains_key(id) {
                assert(keys@.contains(id));
                let j = choose|j: int| 0 <= j < keys@.len() && keys@[j] == id;
                assert(!self@.imported_as(keys@[j], account_id, hash@));
            }
        }
        None
    }

    /// The row already exists under `(account_id, hash)`. Feeds refine text
    /// after first posting, so a re-pull carrying better text should apply it
    /// rather than being discarded as a duplicate.
    fn refine_existing_transaction(&mut self, id: i64, raw: &RawTransaction, sent: &Fields) -> (
    outcome: ImportOutcome)
        requires
            old(self)@.transactions.contains_key(id),
            old(self)@.keyed(),
            field_views(sent@) == fields_of(raw.metadata@),
            keys_differ(field_views(sent@)),
        ensures
            if old(self)@.sent_again(id, *raw) {
                outcome == ImportOutcome::Unchanged && *final(self) == *old(self)
            } else {
                let row = final(self)@.transactions[id];
                &&& outcome == ImportOutcome::Updated
                &&& final(self)@ == (Tables {
                    transactions: old(self)@.transactions.insert(id, row),
                    ..old(self)@
                })
                &&& refines(old(self)@.transactions[id], raw.description@, raw.metadata@, row)
                &&& indexes(*old(self), *final(self), id)
            },
            all_stand(
                merged(
                    fields_of(old(self)@.transactions[id].metadata@),
                    fields_of(raw.metadata@),
                ),
            ) ==> final(self)@.sent_again(id, *raw),
            journalled(*old(self), *final(self)),
            final(self)@.keyed(),
            old(self)@.exclusive() ==> final(self)@.exclusive(),
    {
        proof {
            journal_starts(*self);
        }
        let mut row = match self.transaction_row(id) {
            Some(tx) => tx.clone(),
            None => return ImportOutcome::Unchanged,
        };
        let stored = read_fields(&row.metadata);
        let all = merge_metadata(&stored, sent);
        let same_metadata = same_fields(&all, &stored);
        let same_description = trim(&raw.description).is_empty() || same(
            &raw.description,
            &row.description,
        );
        if same_description && same_metadata {
            return ImportOutcome::Unchanged;
        }
        if !trim(&raw.description).is_empty() {
            row.description = raw.description.clone();
        }
        // Keep the stored JSON verbatim when no field changes, so that a
        // description-only refinement does not churn the column.
        if !same_metadata {
            row.metadata = write_fields(&all);
            proof {
                let (f, g) = (fields_of(raw.metadata@), fields_of(row.metadata@));
                if all_stand(field_views(all@)) {
                    assert forall|i: int| 0 <= i < f.len() implies g.contains(#[trigger] f[i]) by {
                        merging_takes_every_field(field_views(stored@), f, i);
                    }
                    merging_again_changes_nothing(g, f);
                }
            }
        }
        self.put_transaction(row);
        let ghost one = *self;
        self.reindex(id);
        proof {
            lemma_indexed(*old(self), one, *self, Change::PutTransaction(row), id);
            lemma_same_transfers(old(self)@, self@);
        }
        ImportOutcome::Updated
    }

    /// Import one transaction into an account.
    pub fn insert_transaction(
        &mut self,
        account_id: i64,
        date: &str,
        raw: &RawTransaction,
        source_file: &str,
        batch_id: i64,
    ) -> (result: Result<ImportOutcome, Error>)
        requires
            old(self)@.keyed(),
        ensures
            match result {
                Ok(outcome) => old(self)@.took(
                    account_id,
                    date@,
                    *raw,
                    source_file@,
                    batch_id,
                    outcome,
                    final(self)@,
                ),
                Err(Error::NoFreeId) => {
                    &&& !old(self)@.has_import(account_id, raw.identity()@)
                    &&& old(self)@.transactions.contains_key(i64::MAX)
                    &&& *final(self) == *old(self)
                },
                Err(_) => false,
            },
            result is Ok && old(self)@.writes_well(account_id, *raw) ==> final(self)@.settles(
                account_id,
                *raw,
            ),
            imports_indexed(*old(self), *final(self)),
            journalled(*old(self), *final(self)),
            final(self)@.keyed(),
            old(self)@.exclusive() ==> final(self)@.exclusive(),
    {
        proof {
            journal_starts(*self);
        }
        let sent = read_fields(&raw.metadata);
        let hash = match &raw.hash {
            Some(hash) => hash.clone(),
            None => raw.fallback_hash.clone(),
        };
        if let Some(id) = self.find_import(account_id, &hash) {
            let outcome = self.refine_existing_transaction(id, raw, &sent);
            assert(old(self)@.imported_as(id, account_id, raw.identity()@));
            assert(self@.imported_as(id, account_id, raw.identity()@));
            return Ok(outcome);
        }
        let id: i64 = match fresh_id(self.transaction_table()) {
            Some(id) => id,
            None => return Err(Error::NoFreeId),
        };
        let bank_id: i64 = match self.account_row(account_id) {
            Some(account) => account.bank_id,
            None => 0,
        };
        let row = Transaction {
            id,
            bank_id,
            account_id,
            date: date.to_owned(),
            description: raw.description.clone(),
            amount_cents: raw.amount_cents,
            balance_cents: raw.balance_cents,
            hash,
            metadata: raw.metadata.clone(),
            source_file: source_file.to_owned(),
            import_batch_id: batch_id,
        };
        let ghost change = Change::PutTransaction(row);
        self.put_transaction(row);
        let ghost one = *self;
        self.reindex(id);
        proof {
            lemma_indexed(*old(self), one, *self, change, id);
            lemma_same_transfers(old(self)@, self@);
            assert(is_fresh(old(self)@.transactions, id));
            assert(self@.imported_as(id, account_id, raw.identity()@));
            let f = fields_of(raw.metadata@);
            assert forall|i: int| 0 <= i < f.len() implies f.contains(#[trigger] f[i]) by {}
            merging_again_changes_nothing(f, f);
        }
        Ok(ImportOutcome::Added)
    }
}

/// The date of a transaction as a source reports it: an ISO date, or
/// day/month/year.
pub fn parse_date(text: &str) -> (date: Result<String, Error>)
    ensures
        match date {
            Ok(d) => date_of(text@) == Some(d@),
            Err(Error::InvalidDate(t)) => date_of(text@) is None && t@ == text@,
            Err(_) => false,
        },
{
    match find_date(text) {
        Some(date) => Ok(date),
        None => Err(Error::InvalidDate(text.to_owned())),
    }
}

/// The tables and the report after importing raw transactions, one after the
/// other.
pub open spec fn took_in(
    t: Tables,
    r: RefreshReport,
    account_id: i64,
    raws: Seq<RawTransaction>,
    source_file: Seq<char>,
    batch_id: i64,
    u: Tables,
    s: RefreshReport,
) -> bool
    decreases raws.len(),
{
    if raws.len() == 0 {
        u == t && s == r
    } else {
        exists|mid: Tables, m: RefreshReport, outcome: ImportOutcome|
            {
                &&& took_in(
                    t,
                    r,
                    account_id,
                    raws.drop_last(),
                    source_file,
                    batch_id,
                    mid,
                    m,
                )
                &&& date_of(raws.last().date@) is Some
                &&& #[trigger] mid.took(
                    account_id,
                    date_of(raws.last().date@)->0,
                    raws.last(),
                    source_file,
                    batch_id,
                    outcome,
                    u,
                )
                &&& s == #[trigger] tallied(m, outcome)
            }
    }
}

/// Why a raw transaction cannot be imported: its date cannot be read, or it is new
/// and there is no id for it.
pub open spec fn refuses(t: Tables, account_id: i64, raw: RawTransaction, e: Error) -> bool {
    match e {
        Error::InvalidDate(d) => d@ == raw.date@ && date_of(raw.date@) is None,
        Error::NoFreeId => {
            &&& date_of(raw.date@) is Some
            &&& !t.has_import(account_id, raw.identity()@)
            &&& t.transactions.contains_key(i64::MAX)
        },
        _ => false,
    }
}

/// The first raw transactions were imported, and the next one was refused.
pub open spec fn stopped_at(
    t: Tables,
    r: RefreshReport,
    account_id: i64,
    raws: Seq<RawTransaction>,
    source_file: Seq<char>,
    batch_id: i64,
    n: int,
    e: Error,
    u: Tables,
    s: RefreshReport,
) -> bool {
    &&& 0 <= n < raws.len()
    &&& took_in(t, r, account_id, raws.take(n), source_file, batch_id, u, s)
    &&& refuses(u, account_id, raws[n], e)
}

impl TransactionStore {
    /// Insert a batch of raw transactions, tallying added/updated/skipped counts
    /// in `report`. The first one that is refused ends it.
    pub fn insert_raw_transactions(
        &mut self,
        account_id: i64,
        transactions: &Vec<RawTransaction>,
        source_file: &str,
        batch_id: i64,
        report: &mut RefreshReport,
    ) -> (result: Result<(), Error>)
        requires
            old(self)@.keyed(),
        ensures
            match result {
                Ok(_) => took_in(
                    old(self)@,
                    *old(report),
                    account_id,
                    transactions@,
                    source_file@,
                    batch_id,
                    final(self)@,
                    *final(report),
                ),
                Err(e) => exists|n: int| #[trigger]
                    stopped_at(
                        old(self)@,
                        *old(report),
                        account_id,
                        transactions@,
                        source_file@,
                        batch_id,
                        n,
                        e,
                        final(self)@,
                        *final(report),
                    ),
            },
            journalled(*old(self), *final(self)),
            final(self)@.keyed(),
            old(self)@.exclusive() ==> final(self)@.exclusive(),
    {
        let mut i: usize = 0;
        proof {
            journal_starts(*self);
            assert(transactions@.take(0) =~= Seq::empty());
        }
        while i < transactions.len()
            invariant
                i <= transactions@.len(),
                self@.keyed(),
                took_in(
                    old(self)@,
                    *old(report),
                    account_id,
                    transactions@.take(i as int),
                    source_file@,
                    batch_id,
                    self@,
                    *report,
                ),
                journalled(*old(self), *self),
                old(self)@.exclusive() ==> self@.exclusive(),
            decreases transactions@.len() - i,
        {
            let raw = &transactions[i];
            let ghost before = *self;
            let ghost counted = *report;
            let ghost prefix = transactions@.take(i + 1);
            assert(prefix.drop_last() =~= transactions@.take(i as int));
            assert(prefix.last() == *raw);
            let date = match parse_date(&raw.date) {
                Ok(date) => date,
                Err(e) => {
                    assert(stopped_at(
                        old(self)@,
                        *old(report),
                        account_id,
                        transactions@,
                        source_file@,
                        batch_id,
                        i as int,
                        e,
                        self@,
                        *report,
                    ));
                    return Err(e);
                },
            };
            let outcome = match self.insert_transaction(
                account_id,
                &date,
                raw,
                source_file,
                batch_id,
            ) {
                Ok(outcome) => outcome,
                Err(e) => {
                    assert(stopped_at(
                        old(self)@,
                        *old(report),
                        account_id,
                        transactions@,
                        source_file@,
                        batch_id,
                        i as int,
                        e,
                        self@,
                        *report,
                    ));
                    return Err(e);
                },
            };
            match outcome {
                ImportOutcome::Added => {
                    report.transactions_added = bump(report.transactions_added);
                },
                ImportOutcome::Updated => {
                    report.transactions_updated = bump(report.transactions_updated);
                },
                ImportOutcome::Unchanged => {
                    report.transactions_skipped = bump(report.transactions_skipped);
                },
            }
            proof {
                journal_goes_on(*old(self), before, *self);
                assert(before@.took(
                    account_id,
                    date_of(prefix.last().date@)->0,
                    prefix.last(),
                    source_file@,
                    batch_id,
                    outcome,
                    self@,
                ));
                assert(*report == tallied(counted, outcome));
                assert(took_in(
                    old(self)@,
                    *old(report),
                    account_id,
                    prefix.drop_last(),
                    source_file@,
                    batch_id,
                    before@,
                    counted,
                ));
                assert(took_in(
                    old(self)@,
                    *old(report),
                    account_id,
                    prefix,
                    source_file@,
                    batch_id,
                    self@,
                    *report,
                ));
            }
            i += 1;
        }
        assert(transactions@.take(i as int) =~= transactions@);
        Ok(())
    }
}

} // verus!
