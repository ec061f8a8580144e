//! Import orchestration: what one refresh does with everything found in the
//! exports folder, imported-file tracking, and bank/account sync with soft
//! deletes.


use vstd::prelude::*;
use vstd::std_specs::hash::*;
use vstd::string::*;

use super::enrichments::lemma_same_transfers;
use super::import::{bump, bumped, stopped_at, took_in, RawTransaction};
use super::order::{
    account_leq, bank_leq, by_account_name, by_bank_name, lemma_by_account_name,
    lemma_by_bank_name,
};
use super::select::{keys_of, lemma_take_contains, lists, select};
use super::{
    fresh_id, is_fresh, journal_goes_on, journal_starts, journalled, listed, Error, Tables,
    TransactionStore,
};
use crate::model::{Account, Bank, RefreshReport, Timestamp};
use crate::text::{contains, same};

verus! {

broadcast use group_hash_axioms;

/// A file in an account's folder, as the account's import script reads it.
#[derive(Debug)]
pub struct FileImport {
    pub path: String,
    pub content_hash: String,
    pub transactions: Vec<RawTransaction>,
}

/// What an account's pull script fetched. The script owns incremental windowing;
/// re-pulled overlap is recognised by account and hash.
#[derive(Debug)]
pub struct PullImport {
    pub path: String,
    pub result: Result<Vec<RawTransaction>, String>,
}

/// An account's folder.
#[derive(Debug)]
pub struct AccountImport {
    pub name: String,
    pub files: Vec<FileImport>,
    pub pulled: Option<PullImport>,
}

/// A bank's folder.
#[derive(Debug)]
pub struct BankImport {
    pub name: String,
    pub accounts: Vec<AccountImport>,
}

/// The report with one more file.
pub open spec fn file_counted(r: RefreshReport) -> RefreshReport {
    RefreshReport { files_processed: bumped(r.files_processed), ..r }
}

/// A file is taken in, unless its contents were before.
pub open spec fn file_step(
    t: Tables,
    r: RefreshReport,
    account_id: i64,
    file: FileImport,
    batch_id: i64,
    u: Tables,
    s: RefreshReport,
) -> bool {
    if listed(t.files, account_id).contains(file.content_hash@) {
        u == t && s == r
    } else {
        exists|w: Tables|
            {
                &&& #[trigger] took_in(
                    t,
                    file_counted(r),
                    account_id,
                    file.transactions@,
                    file.path@,
                    batch_id,
                    w,
                    s,
                )
                &&& u == (Tables {
                    files: w.files.insert(
                        account_id,
                        listed(w.files, account_id).push(file.content_hash@),
                    ),
                    ..w
                })
            }
    }
}

/// The files are taken in, one after the other.
pub open spec fn files_taken(
    t: Tables,
    r: RefreshReport,
    account_id: i64,
    files: Seq<FileImport>,
    batch_id: i64,
    u: Tables,
    s: RefreshReport,
) -> bool
    decreases files.len(),
{
    if files.len() == 0 {
        u == t && s == r
    } else {
        exists|w: Tables, q: RefreshReport|
            files_taken(t, r, account_id, files.drop_last(), batch_id, w, q) && #[trigger]
            file_step(w, q, account_id, files.last(), batch_id, u, s)
    }
}

/// What was pulled is taken in.
pub open spec fn pull_step(
    t: Tables,
    r: RefreshReport,
    account_id: i64,
    pulled: Option<PullImport>,
    batch_id: i64,
    u: Tables,
    s: RefreshReport,
) -> bool {
    match pulled {
        Some(p) => p.result matches Ok(raws) && took_in(
            t,
            file_counted(r),
            account_id,
            raws@,
            p.path@,
            batch_id,
            u,
            s,
        ),
        None => u == t && s == r,
    }
}

/// The account of the bank has the name.
pub open spec fn is_account_of(a: Account, bank_id: i64, name: Seq<char>) -> bool {
    a.bank_id == bank_id && a.name@ == name
}

/// An account of the name was found, brought back or made.
pub open spec fn account_made(
    t: Tables,
    r: RefreshReport,
    bank_id: i64,
    name: Seq<char>,
    id: i64,
    u: Tables,
    s: RefreshReport,
) -> bool {
    let row = u.accounts[id];
    &&& u == (Tables { accounts: t.accounts.insert(id, row), ..t })
    &&& row.id == id && is_account_of(row, bank_id, name) && row.deleted_at is None
    &&& if t.accounts.contains_key(id) {
        is_account_of(t.accounts[id], bank_id, name) && s == r
    } else {
        &&& is_fresh(t.accounts, id)
        &&& forall|k: i64| #[trigger]
            t.accounts.contains_key(k) ==> !is_account_of(t.accounts[k], bank_id, name)
        &&& s == (RefreshReport { accounts_added: bumped(r.accounts_added), ..r })
    }
}

/// An account's folder is taken in.
pub open spec fn account_step(
    t: Tables,
    r: RefreshReport,
    bank_id: i64,
    account: AccountImport,
    batch_id: i64,
    u: Tables,
    s: RefreshReport,
) -> bool {
    exists|id: i64, w: Tables, q: RefreshReport, x: Tables, y: RefreshReport|
        {
            &&& #[trigger] account_made(t, r, bank_id, account.name@, id, w, q)
            &&& files_taken(w, q, id, account.files@, batch_id, x, y)
            &&& #[trigger] pull_step(x, y, id, account.pulled, batch_id, u, s)
        }
}

/// The accounts of a bank are taken in.
pub open spec fn accounts_taken(
    t: Tables,
    r: RefreshReport,
    bank_id: i64,
    accounts: Seq<AccountImport>,
    batch_id: i64,
    u: Tables,
    s: RefreshReport,
) -> bool
    decreases accounts.len(),
{
    if accounts.len() == 0 {
        u == t && s == r
    } else {
        exists|w: Tables, q: RefreshReport|
            accounts_taken(t, r, bank_id, accounts.drop_last(), batch_id, w, q) && #[trigger]
            account_step(w, q, bank_id, accounts.last(), batch_id, u, s)
    }
}

/// The report after a bank was made or found.
pub open spec fn bank_counted(r: RefreshReport, created: bool) -> RefreshReport {
    if created {
        RefreshReport { banks_added: bumped(r.banks_added), ..r }
    } else {
        r
    }
}

/// A bank's folder is taken in.
pub open spec fn bank_step(
    t: Tables,
    r: RefreshReport,
    bank: BankImport,
    batch_id: i64,
    u: Tables,
    s: RefreshReport,
) -> bool {
    exists|id: i64, created: bool, w: Tables|
        {
            &&& #[trigger] t.bank_made(bank.name@, id, created, w)
            &&& accounts_taken(
                w,
                bank_counted(r, created),
                id,
                bank.accounts@,
                batch_id,
                u,
                s,
            )
        }
}

/// The folders of all banks are taken in.
pub open spec fn banks_taken(
    t: Tables,
    r: RefreshReport,
    banks: Seq<BankImport>,
    batch_id: i64,
    u: Tables,
    s: RefreshReport,
) -> bool
    decreases banks.len(),
{
    if banks.len() == 0 {
        u == t && s == r
    } else {
        exists|w: Tables, q: RefreshReport|
            banks_taken(t, r, banks.drop_last(), batch_id, w, q) && #[trigger] bank_step(
                w,
                q,
                banks.last(),
                batch_id,
                u,
                s,
            )
    }
}

/// A bank of the name has a folder.
pub open spec fn bank_found(banks: Seq<BankImport>, name: Seq<char>) -> bool {
    exists|i: int| 0 <= i < banks.len() && (#[trigger] banks[i]).name@ == name
}

/// An account of the name has a folder.
pub open spec fn account_found(accounts: Seq<AccountImport>, name: Seq<char>) -> bool {
    exists|i: int| 0 <= i < accounts.len() && (#[trigger] accounts[i]).name@ == name
}

/// The bank's folder is there, and the account's is not.
pub open spec fn account_missing(
    banks: Seq<BankImport>,
    bank: Seq<char>,
    name: Seq<char>,
) -> bool {
    exists|i: int|
        0 <= i < banks.len() && (#[trigger] banks[i]).name@ == bank && !account_found(
            banks[i].accounts@,
            name,
        )
}

impl Tables {
    /// The banks that a refresh deletes: those without a folder.
    pub open spec fn lost_banks(self, banks: Seq<BankImport>) -> Set<i64> {
        Set::new(
            |id: i64|
                self.banks.contains_key(id) && self.banks[id].deleted_at is None && !bank_found(
                    banks,
                    self.banks[id].name@,
                ),
        )
    }

    /// The accounts that a refresh deletes: those without a folder in their
    /// bank's.
    pub open spec fn lost_accounts(self, banks: Seq<BankImport>) -> Set<i64> {
        Set::new(
            |id: i64|
                self.is_open(id) && account_missing(
                    banks,
                    self.bank_name_of(self.accounts[id]),
                    self.accounts[id].name@,
                ),
        )
    }

    /// The tables with banks deleted.
    pub open spec fn without_banks(self, gone: Set<i64>, now: Timestamp) -> Tables {
        Tables {
            banks: Map::new(
                |id: i64| self.banks.contains_key(id),
                |id: i64|
                    if gone.contains(id) {
                        Bank { deleted_at: Some(now), ..self.banks[id] }
                    } else {
                        self.banks[id]
                    },
            ),
            ..self
        }
    }

    /// The tables with accounts deleted.
    pub open spec fn without_accounts(self, gone: Set<i64>, now: Timestamp) -> Tables {
        Tables {
            accounts: Map::new(
                |id: i64| self.accounts.contains_key(id),
                |id: i64|
                    if gone.contains(id) {
                        Account { deleted_at: Some(now), ..self.accounts[id] }
                    } else {
                        self.accounts[id]
                    },
            ),
            ..self
        }
    }

    /// The tables and the report after a refresh.
    pub open spec fn refreshed(
        self,
        banks: Seq<BankImport>,
        batch_id: i64,
        now: Timestamp,
        next: Tables,
        report: RefreshReport,
    ) -> bool {
        exists|w: Tables, q: RefreshReport|
            {
                let v = w.without_banks(w.lost_banks(banks), now);
                &&& #[trigger] banks_taken(self, blank_report(), banks, batch_id, w, q)
                &&& next == v.without_accounts(v.lost_accounts(banks), now)
                &&& report == (RefreshReport {
                    banks_deleted: w.lost_banks(banks).len() as usize,
                    accounts_deleted: v.lost_accounts(banks).len() as usize,
                    ..q
                })
            }
    }
}

/// The report before a refresh.
pub open spec fn blank_report() -> RefreshReport {
    RefreshReport {
        banks_added: 0,
        banks_deleted: 0,
        accounts_added: 0,
        accounts_deleted: 0,
        files_processed: 0,
        transactions_added: 0,
        transactions_updated: 0,
        transactions_skipped: 0,
    }
}

/// Raw transactions are imported until one is refused.
pub open spec fn import_fails(
    t: Tables,
    r: RefreshReport,
    account_id: i64,
    raws: Seq<RawTransaction>,
    path: Seq<char>,
    batch_id: i64,
    e: Error,
) -> bool {
    exists|n: int, u: Tables, s: RefreshReport| #[trigger]
        stopped_at(t, r, account_id, raws, path, batch_id, n, e, u, s)
}

/// Why the files cannot be taken in: one of them, reached after those before it,
/// is new and holds a row that is refused.
pub open spec fn files_fail(
    t: Tables,
    r: RefreshReport,
    account_id: i64,
    files: Seq<FileImport>,
    batch_id: i64,
    e: Error,
) -> bool {
    exists|i: int, w: Tables, q: RefreshReport|
        {
            &&& 0 <= i < files.len()
            &&& #[trigger] files_taken(t, r, account_id, files.take(i), batch_id, w, q)
            &&& file_fails(w, q, account_id, files[i], batch_id, e)
        }
}

/// Why a file cannot be taken in.
pub open spec fn file_fails(
    t: Tables,
    r: RefreshReport,
    account_id: i64,
    file: FileImport,
    batch_id: i64,
    e: Error,
) -> bool {
    !listed(t.files, account_id).contains(file.content_hash@) && import_fails(
        t,
        file_counted(r),
        account_id,
        file.transactions@,
        file.path@,
        batch_id,
        e,
    )
}

/// Why what was pulled cannot be taken in: the pull failed, or brought a row that
/// is refused.
pub open spec fn pull_fails(
    t: Tables,
    r: RefreshReport,
    account_id: i64,
    pulled: Option<PullImport>,
    batch_id: i64,
    e: Error,
) -> bool {
    match pulled {
        Some(p) => match p.result {
            Ok(raws) => import_fails(
                t,
                file_counted(r),
                account_id,
                raws@,
                p.path@,
                batch_id,
                e,
            ),
            Err(why) => e matches Error::ImportFailed(m) && m@ == why@,
        },
        None => false,
    }
}

/// Why an account's files and pull cannot be taken in.
pub open spec fn contents_fail(
    t: Tables,
    r: RefreshReport,
    account_id: i64,
    account: AccountImport,
    batch_id: i64,
    e: Error,
) -> bool {
    ||| files_fail(t, r, account_id, account.files@, batch_id, e)
    ||| exists|x: Tables, y: RefreshReport|
        files_taken(t, r, account_id, account.files@, batch_id, x, y) && #[trigger] pull_fails(
            x,
            y,
            account_id,
            account.pulled,
            batch_id,
            e,
        )
}

/// There is no id for a new account.
pub open spec fn no_account_id(t: Tables, bank_id: i64, name: Seq<char>, e: Error) -> bool {
    &&& e is NoFreeId
    &&& t.accounts.contains_key(i64::MAX)
    &&& forall|k: i64| #[trigger]
        t.accounts.contains_key(k) ==> !is_account_of(t.accounts[k], bank_id, name)
}

/// Why an account's folder cannot be taken in.
pub open spec fn account_fails(
    t: Tables,
    r: RefreshReport,
    bank_id: i64,
    account: AccountImport,
    batch_id: i64,
    e: Error,
) -> bool {
    ||| no_account_id(t, bank_id, account.name@, e)
    ||| exists|id: i64, w: Tables, q: RefreshReport|
        {
            &&& #[trigger] account_made(t, r, bank_id, account.name@, id, w, q)
            &&& contents_fail(w, q, id, account, batch_id, e)
        }
}

/// Why the accounts of a bank cannot be taken in: one of them, reached after those
/// before it, fails.
pub open spec fn accounts_fail(
    t: Tables,
    r: RefreshReport,
    bank_id: i64,
    accounts: Seq<AccountImport>,
    batch_id: i64,
    e: Error,
) -> bool {
    exists|j: int, w: Tables, q: RefreshReport|
        {
            &&& 0 <= j < accounts.len()
            &&& #[trigger] accounts_taken(t, r, bank_id, accounts.take(j), batch_id, w, q)
            &&& account_fails(w, q, bank_id, accounts[j], batch_id, e)
        }
}

/// Why a bank's folder cannot be taken in.
pub open spec fn bank_fails(
    t: Tables,
    r: RefreshReport,
    bank: BankImport,
    batch_id: i64,
    e: Error,
) -> bool {
    ||| e is NoFreeId && !t.has_bank(bank.name@) && t.banks.contains_key(i64::MAX)
    ||| exists|id: i64, created: bool, w: Tables|
        {
            &&& #[trigger] t.bank_made(bank.name@, id, created, w)
            &&& accounts_fail(w, bank_counted(r, created), id, bank.accounts@, batch_id, e)
        }
}

/// Why the banks' folders cannot be taken in: one of them, reached after those
/// before it, fails.
pub open spec fn banks_fail(
    t: Tables,
    r: RefreshReport,
    banks: Seq<BankImport>,
    batch_id: i64,
    e: Error,
) -> bool {
    exists|i: int, w: Tables, q: RefreshReport|
        {
            &&& 0 <= i < banks.len()
            &&& #[trigger] banks_taken(t, r, banks.take(i), batch_id, w, q)
            &&& bank_fails(w, q, banks[i], batch_id, e)
        }
}

impl TransactionStore {
    /// List all non-deleted banks.
    pub fn list_banks(&self) -> (rows: Vec<Bank>)
        ensures
            lists(rows@, self@.banks, existing_bank(), by_bank_name()),
    {
        let keep = |b: &Bank| -> (yes: bool)
            ensures
                yes == existing_bank()(*b),
        { b.deleted_at.is_none() };
        proof {
            lemma_by_bank_name();
        }
        select(
            self.bank_table(),
            keep,
            bank_leq,
            None,
            Ghost(existing_bank()),
            Ghost(by_bank_name()),
        )
    }

    /// List all non-deleted accounts for a bank.
    pub fn list_accounts(&self, bank_id: i64) -> (rows: Vec<Account>)
        ensures
            lists(rows@, self@.accounts, existing_account(bank_id), by_account_name()),
    {
        let keep = |a: &Account| -> (yes: bool)
            ensures
                yes == existing_account(bank_id)(*a),
        { a.bank_id == bank_id && a.deleted_at.is_none() };
        proof {
            lemma_by_account_name();
        }
        select(
            self.account_table(),
            keep,
            account_leq,
            None,
            Ghost(existing_account(bank_id)),
            Ghost(by_account_name()),
        )
    }

    /// Whether a file's contents were imported into an account.
    pub fn is_file_imported(&self, account_id: i64, content_hash: &str) -> (yes: bool)
        ensures
            yes == listed(self@.files, account_id).contains(content_hash@),
    {
        match self.files_row(account_id) {
            Some(hashes) => contains(hashes, content_hash),
            None => false,
        }
    }

    fn account_id_of(&self, bank_id: i64, name: &str) -> (id: Option<i64>)
        ensures
            match id {
                Some(id) => self@.accounts.contains_key(id) && is_account_of(
                    self@.accounts[id],
                    bank_id,
                    name@,
                ),
                None => forall|k: i64| #[trigger]
                    self@.accounts.contains_key(k) ==> !is_account_of(
                        self@.accounts[k],
                        bank_id,
                        name@,
                    ),
            },
    {
        let keys = keys_of(self.account_table());
        let mut i: usize = 0;
        while i < keys.len()
            invariant
                i <= keys@.len(),
                forall|k: i64| #[trigger] keys@.contains(k) <==> self@.accounts.contains_key(k),
                forall|j: int|
                    0 <= j < i ==> !is_account_of(
                        self@.accounts[#[trigger] keys@[j]],
                        bank_id,
                        name@,
                    ),
            decreases keys@.len() - i,
        {
            let k: i64 = keys[i];
            assert(keys@.contains(keys@[i as int]));
            if let Some(a) = self.account_row(k) {
                if a.bank_id == bank_id && same(&a.name, name) {
                    return Some(k);
                }
            }
            i += 1;
        }
        assert forall|k: i64| #[trigger] self@.accounts.contains_key(k) implies !is_account_of(
            self@.accounts[k],
            bank_id,
            name@,
        ) by {
            assert(keys@.contains(k));
            let j = choose|j: int| 0 <= j < keys@.len() && keys@[j] == k;
            assert(!is_account_of(self@.accounts[keys@[j]], bank_id, name@));
        }
        None
    }

    fn ensure_bank(&mut self, name: &str, report: &mut RefreshReport) -> (result: Result<
        (i64, bool),
        Error,
    >)
        requires
            old(self)@.keyed(),
        ensures
            match result {
                Ok(r) => old(self)@.bank_made(name@, r.0, r.1, final(self)@) && *final(report)
                    == bank_counted(*old(report), r.1),
                Err(e) => {
                    &&& e is NoFreeId
                    &&& !old(self)@.has_bank(name@)
                    &&& old(self)@.banks.contains_key(i64::MAX)
                },
            },
            journalled(*old(self), *final(self)),
            final(self)@.keyed(),
            old(self)@.exclusive() ==> final(self)@.exclusive(),
    {
        let (id, created): (i64, bool) = match self.get_or_create_bank(name) {
            Ok(r) => r,
            Err(e) => return Err(e),
        };
        if created {
            report.banks_added = bump(report.banks_added);
        }
        Ok((id, created))
    }

    fn ensure_account(&mut self, bank_id: i64, name: &str, report: &mut RefreshReport) -> (result:
        Result<i64, Error>)
        requires
            old(self)@.keyed(),
        ensures
            match result {
                Ok(id) => account_made(
                    old(self)@,
                    *old(report),
                    bank_id,
                    name@,
                    id,
                    final(self)@,
                    *final(report),
                ),
                Err(e) => no_account_id(old(self)@, bank_id, name@, e),
            },
            journalled(*old(self), *final(self)),
            final(self)@.keyed(),
            old(self)@.exclusive() ==> final(self)@.exclusive(),
    {
        proof {
            journal_starts(*self);
        }
        match self.account_id_of(bank_id, name) {
            Some(id) => {
                if let Some(a) = self.account_row(id) {
                    if a.deleted_at.is_some() {
                        let row = Account { id, bank_id, name: a.name.clone(), deleted_at: None };
                        self.put_account(row);
                        proof {
                            lemma_same_transfers(old(self)@, self@);
                        }
                    } else {
                        assert(self@.accounts.insert(id, self@.accounts[id]) =~= self@.accounts);
                    }
                }
                Ok(id)
            },
            None => {
                let id: i64 = match fresh_id(self.account_table()) {
                    Some(id) => id,
                    None => return Err(Error::NoFreeId),
                };
                self.put_account(Account { id, bank_id, name: name.to_owned(), deleted_at: None });
                report.accounts_added = bump(report.accounts_added);
                proof {
                    lemma_same_transfers(old(self)@, self@);
                }
                Ok(id)
            },
        }
    }

    fn import_file(
        &mut self,
        account_id: i64,
        file: &FileImport,
        batch_id: i64,
        report: &mut RefreshReport,
    ) -> (result: Result<(), Error>)
        requires
            old(self)@.keyed(),
        ensures
            match result {
                Ok(_) => file_step(
                    old(self)@,
                    *old(report),
                    account_id,
                    *file,
                    batch_id,
                    final(self)@,
                    *final(report),
                ),
                Err(e) => file_fails(
                    old(self)@,
                    *old(report),
                    account_id,
                    *file,
                    batch_id,
                    e,
                ),
            },
            journalled(*old(self), *final(self)),
            final(self)@.keyed(),
            old(self)@.exclusive() ==> final(self)@.exclusive(),
    {
        proof {
            journal_starts(*self);
        }
        if self.is_file_imported(account_id, &file.content_hash) {
            return Ok(());
        }
        report.files_processed = bump(report.files_processed);
        assert(*report == file_counted(*old(report)));
        match self.insert_raw_transactions(
            account_id,
            &file.transactions,
            &file.path,
            batch_id,
            report,
        ) {
            Ok(_) => {},
            Err(e) => return Err(e),
        }
        let ghost one = *self;
        assert(took_in(
            old(self)@,
            file_counted(*old(report)),
            account_id,
            file.transactions@,
            file.path@,
            batch_id,
            one@,
            *report,
        ));
        self.put_file(account_id, file.content_hash.clone());
        proof {
            journal_goes_on(*old(self), one, *self);
            lemma_same_transfers(one@, self@);
        }
        Ok(())
    }

    fn import_files(
        &mut self,
        account_id: i64,
        files: &Vec<FileImport>,
        batch_id: i64,
        report: &mut RefreshReport,
    ) -> (result: Result<(), Error>)
        requires
            old(self)@.keyed(),
        ensures
            match result {
                Ok(_) => files_taken(
                    old(self)@,
                    *old(report),
                    account_id,
                    files@,
                    batch_id,
                    final(self)@,
                    *final(report),
                ),
                Err(e) => files_fail(
                    old(self)@,
                    *old(report),
                    account_id,
                    files@,
                    batch_id,
                    e,
                ),
            },
            journalled(*old(self), *final(self)),
            final(self)@.keyed(),
            old(self)@.exclusive() ==> final(self)@.exclusive(),
    {
        let mut i: usize = 0;
        proof {
            journal_starts(*self);
            assert(files@.take(0) =~= Seq::empty());
        }
        while i < files.len()
            invariant
                i <= files@.len(),
                self@.keyed(),
                files_taken(
                    old(self)@,
                    *old(report),
                    account_id,
                    files@.take(i as int),
                    batch_id,
                    self@,
                    *report,
                ),
                journalled(*old(self), *self),
                old(self)@.exclusive() ==> self@.exclusive(),
            decreases files@.len() - i,
        {
            let ghost before = *self;
            let ghost counted = *report;
            let ghost prefix = files@.take(i + 1);
            assert(prefix.drop_last() =~= files@.take(i as int));
            assert(prefix.last() == files@[i as int]);
            match self.import_file(account_id, &files[i], batch_id, report) {
                Ok(_) => {},
                Err(e) => {
                    proof {
                        journal_goes_on(*old(self), before, *self);
                        assert(files_taken(
                            old(self)@,
                            *old(report),
                            account_id,
                            files@.take(i as int),
                            batch_id,
                            before@,
                            counted,
                        ));
                    }
                    return Err(e);
                },
            }
            proof {
                journal_goes_on(*old(self), before, *self);
                assert(file_step(
                    before@,
                    counted,
                    account_id,
                    prefix.last(),
                    batch_id,
                    self@,
                    *report,
                ));
            }
            i += 1;
        }
        assert(files@.take(i as int) =~= files@);
        Ok(())
    }

    /// Import an account's files, then what was pulled for it.
    fn import_account_transactions(
        &mut self,
        account_id: i64,
        account: &AccountImport,
        batch_id: i64,
        report: &mut RefreshReport,
    ) -> (result: Result<(), Error>)
        requires
            old(self)@.keyed(),
        ensures
            match result {
                Ok(_) => exists|x: Tables, y: RefreshReport|
                    files_taken(
                        old(self)@,
                        *old(report),
                        account_id,
                        account.files@,
                        batch_id,
                        x,
                        y,
                    ) && #[trigger] pull_step(
                        x,
                        y,
                        account_id,
                        account.pulled,
                        batch_id,
                        final(self)@,
                        *final(report),
                    ),
                Err(e) => contents_fail(
                    old(self)@,
                    *old(report),
                    account_id,
                    *account,
                    batch_id,
                    e,
                ),
            },
            journalled(*old(self), *final(self)),
            final(self)@.keyed(),
            old(self)@.exclusive() ==> final(self)@.exclusive(),
    {
        match self.import_files(account_id, &account.files, batch_id, report) {
            Ok(_) => {},
            Err(e) => return Err(e),
        }
        let ghost one = *self;
        let ghost counted = *report;
        if let Some(pulled) = &account.pulled {
            match &pulled.result {
                Ok(transactions) => {
                    report.files_processed = bump(report.files_processed);
                    match self.insert_raw_transactions(
                        account_id,
                        transactions,
                        &pulled.path,
                        batch_id,
                        report,
                    ) {
                        Ok(_) => {},
                        Err(e) => {
                            proof {
                                journal_goes_on(*old(self), one, *self);
                                assert(pull_fails(
                                    one@,
                                    counted,
                                    account_id,
                                    account.pulled,
                                    batch_id,
                                    e,
                                ));
                            }
                            return Err(e);
                        },
                    }
                    proof {
                        journal_goes_on(*old(self), one, *self);
                    }
                },
                Err(why) => {
                    let e = Error::ImportFailed(why.clone());
                    assert(pull_fails(one@, counted, account_id, account.pulled, batch_id, e));
                    return Err(e);
                },
            }
        }
        assert(pull_step(one@, counted, account_id, account.pulled, batch_id, self@, *report));
        Ok(())
    }

    fn import_accounts(
        &mut self,
        bank_id: i64,
        accounts: &Vec<AccountImport>,
        batch_id: i64,
        report: &mut RefreshReport,
    ) -> (result: Result<(), Error>)
        requires
            old(self)@.keyed(),
        ensures
            match result {
                Ok(_) => accounts_taken(
                    old(self)@,
                    *old(report),
                    bank_id,
                    accounts@,
                    batch_id,
                    final(self)@,
                    *final(report),
                ),
                Err(e) => accounts_fail(
                    old(self)@,
                    *old(report),
                    bank_id,
                    accounts@,
                    batch_id,
                    e,
                ),
            },
            journalled(*old(self), *final(self)),
            final(self)@.keyed(),
            old(self)@.exclusive() ==> final(self)@.exclusive(),
    {
        let mut i: usize = 0;
        proof {
            journal_starts(*self);
            assert(accounts@.take(0) =~= Seq::empty());
        }
        while i < accounts.len()
            invariant
                i <= accounts@.len(),
                self@.keyed(),
                accounts_taken(
                    old(self)@,
                    *old(report),
                    bank_id,
                    accounts@.take(i as int),
                    batch_id,
                    self@,
                    *report,
                ),
                journalled(*old(self), *self),
                old(self)@.exclusive() ==> self@.exclusive(),
            decreases accounts@.len() - i,
        {
            let ghost before = *self;
            let ghost counted = *report;
            let ghost prefix = accounts@.take(i + 1);
            assert(prefix.drop_last() =~= accounts@.take(i as int));
            assert(prefix.last() == accounts@[i as int]);
            let id: i64 = match self.ensure_account(bank_id, &accounts[i].name, report) {
                Ok(id) => id,
                Err(e) => {
                    proof {
                        journal_goes_on(*old(self), before, *self);
                        assert(accounts_taken(
                            old(self)@,
                            *old(report),
                            bank_id,
                            accounts@.take(i as int),
                            batch_id,
                            before@,
                            counted,
                        ));
                    }
                    return Err(e);
                },
            };
            let ghost one = *self;
            let ghost made = *report;
            proof {
                journal_goes_on(*old(self), before, one);
            }
            match self.import_account_transactions(id, &accounts[i], batch_id, report) {
                Ok(_) => {},
                Err(e) => {
                    proof {
                        journal_goes_on(*old(self), one, *self);
                        assert(accounts_taken(
                            old(self)@,
                            *old(report),
                            bank_id,
                            accounts@.take(i as int),
                            batch_id,
                            before@,
                            counted,
                        ));
                        assert(account_made(
                            before@,
                            counted,
                            bank_id,
                            accounts@[i as int].name@,
                            id,
                            one@,
                            made,
                        ));
                        assert(account_fails(
                            before@,
                            counted,
                            bank_id,
                            accounts@[i as int],
                            batch_id,
                            e,
                        ));
                    }
                    return Err(e);
                },
            }
            proof {
                journal_goes_on(*old(self), one, *self);
                let (x, y) = choose|x: Tables, y: RefreshReport|
                    files_taken(one@, made, id, accounts@[i as int].files@, batch_id, x, y)
                        && #[trigger] pull_step(
                        x,
                        y,
                        id,
                        accounts@[i as int].pulled,
                        batch_id,
                        self@,
                        *report,
                    );
                assert(account_made(
                    before@,
                    counted,
                    bank_id,
                    accounts@[i as int].name@,
                    id,
                    one@,
                    made,
                ));
                assert(pull_step(
                    x,
                    y,
                    id,
                    accounts@[i as int].pulled,
                    batch_id,
                    self@,
                    *report,
                ));
                assert(account_step(
                    before@,
                    counted,
                    bank_id,
                    prefix.last(),
                    batch_id,
                    self@,
                    *report,
                ));
            }
            i += 1;
        }
        assert(accounts@.take(i as int) =~= accounts@);
        Ok(())
    }

    fn import_banks(
        &mut self,
        banks: &Vec<BankImport>,
        batch_id: i64,
        report: &mut RefreshReport,
    ) -> (result: Result<(), Error>)
        requires
            old(self)@.keyed(),
        ensures
            match result {
                Ok(_) => banks_taken(
                    old(self)@,
                    *old(report),
                    banks@,
                    batch_id,
                    final(self)@,
                    *final(report),
                ),
                Err(e) => banks_fail(old(self)@, *old(report), banks@, batch_id, e),
            },
            journalled(*old(self), *final(self)),
            final(self)@.keyed(),
            old(self)@.exclusive() ==> final(self)@.exclusive(),
    {
        let mut i: usize = 0;
        proof {
            journal_starts(*self);
            assert(banks@.take(0) =~= Seq::empty());
        }
        while i < banks.len()
            invariant
                i <= banks@.len(),
                self@.keyed(),
                banks_taken(
                    old(self)@,
                    *old(report),
                    banks@.take(i as int),
                    batch_id,
                    self@,
                    *report,
                ),
                journalled(*old(self), *self),
                old(self)@.exclusive() ==> self@.exclusive(),
            decreases banks@.len() - i,
        {
            let ghost before = *self;
            let ghost counted = *report;
            let ghost prefix = banks@.take(i + 1);
            assert(prefix.drop_last() =~= banks@.take(i as int));
            assert(prefix.last() == banks@[i as int]);
            let (id, created): (i64, bool) = match self.ensure_bank(&banks[i].name, report) {
                Ok(r) => r,
                Err(e) => {
                    proof {
                        journal_goes_on(*old(self), before, *self);
                        assert(banks_taken(
                            old(self)@,
                            *old(report),
                            banks@.take(i as int),
                            batch_id,
                            before@,
                            counted,
                        ));
                    }
                    return Err(e);
                },
            };
            let ghost one = *self;
            let ghost made = *report;
            proof {
                journal_goes_on(*old(self), before, one);
            }
            match self.import_accounts(id, &banks[i].accounts, batch_id, report) {
                Ok(_) => {},
                Err(e) => {
                    proof {
                        journal_goes_on(*old(self), one, *self);
                        assert(banks_taken(
                            old(self)@,
                            *old(report),
                            banks@.take(i as int),
                            batch_id,
                            before@,
                            counted,
                        ));
                        assert(before@.bank_made(banks@[i as int].name@, id, created, one@));
                        assert(bank_fails(before@, counted, banks@[i as int], batch_id, e));
                    }
                    return Err(e);
                },
            }
            proof {
                journal_goes_on(*old(self), one, *self);
                assert(before@.bank_made(prefix.last().name@, id, created, one@));
                assert(bank_step(before@, counted, prefix.last(), batch_id, self@, *report));
            }
            i += 1;
        }
        assert(banks@.take(i as int) =~= banks@);
        Ok(())
    }
}

fn has_bank_folder(banks: &Vec<BankImport>, name: &str) -> (yes: bool)
    ensures
        yes == bank_found(banks@, name@),
{
    let mut i: usize = 0;
    while i < banks.len()
        invariant
            i <= banks@.len(),
            forall|j: int| 0 <= j < i ==> (#[trigger] banks@[j]).name@ != name@,
        decreases banks@.len() - i,
    {
        if same(&banks[i].name, name) {
            assert(banks@[i as int].name@ == name@);
            return true;
        }
        i += 1;
    }
    false
}

fn has_account_folder(accounts: &Vec<AccountImport>, name: &str) -> (yes: bool)
    ensures
        yes == account_found(accounts@, name@),
{
    let mut i: usize = 0;
    while i < accounts.len()
        invariant
            i <= accounts@.len(),
            forall|j: int| 0 <= j < i ==> (#[trigger] accounts@[j]).name@ != name@,
        decreases accounts@.len() - i,
    {
        if same(&accounts[i].name, name) {
            assert(accounts@[i as int].name@ == name@);
            return true;
        }
        i += 1;
    }
    false
}

fn is_account_missing(banks: &Vec<BankImport>, bank: &str, name: &str) -> (yes: bool)
    ensures
        yes == account_missing(banks@, bank@, name@),
{
    let mut i: usize = 0;
    while i < banks.len()
        invariant
            i <= banks@.len(),
            forall|j: int|
                0 <= j < i ==> !((#[trigger] banks@[j]).name@ == bank@ && !account_found(
                    banks@[j].accounts@,
                    name@,
                )),
        decreases banks@.len() - i,
    {
        if same(&banks[i].name, bank) && !has_account_folder(&banks[i].accounts, name) {
            assert(banks@[i as int].name@ == bank@);
            return true;
        }
        i += 1;
    }
    false
}

impl TransactionStore {
    /// Delete the banks without a folder; how many there were.
    fn soft_delete_missing_banks(&mut self, banks: &Vec<BankImport>, now: Timestamp) -> (n: usize)
        requires
            old(self)@.keyed(),
        ensures
            final(self)@ == old(self)@.without_banks(old(self)@.lost_banks(banks@), now),
            n == old(self)@.lost_banks(banks@).len(),
            journalled(*old(self), *final(self)),
            final(self)@.keyed(),
            old(self)@.exclusive() ==> final(self)@.exclusive(),
    {
        let ghost start = self@;
        let ghost lost = start.lost_banks(banks@);
        let keys = keys_of(self.bank_table());
        let mut n: usize = 0;
        let mut i: usize = 0;
        let ghost mut gone: Set<i64> = Set::empty();
        proof {
            journal_starts(*self);
            assert(start.without_banks(gone, now).banks =~= start.banks);
        }
        while i < keys.len()
            invariant
                i <= keys@.len(),
                keys@.no_duplicates(),
                forall|k: i64| #[trigger] keys@.contains(k) <==> start.banks.contains_key(k),
                start.keyed(),
                lost == start.lost_banks(banks@),
                n <= i,
                gone.finite(),
                n == gone.len(),
                forall|k: i64| #[trigger]
                    gone.contains(k) <==> keys@.take(i as int).contains(k) && lost.contains(k),
                self@ == start.without_banks(gone, now),
                journalled(*old(self), *self),
            decreases keys@.len() - i,
        {
            let k: i64 = keys[i];
            assert(keys@.contains(keys@[i as int]));
            let ghost before = *self;
            proof {
                lemma_take_contains(keys@, i as int);
                assert(!keys@.take(i as int).contains(k));
                assert(self@.banks[k] == start.banks[k]);
            }
            if let Some(bank) = self.bank_row(k) {
                if bank.deleted_at.is_none() && !has_bank_folder(banks, &bank.name) {
                    let row = Bank { id: k, name: bank.name.clone(), deleted_at: Some(now) };
                    self.put_bank(row);
                    n += 1;
                    proof {
                        journal_goes_on(*old(self), before, *self);
                        assert(self@.banks =~= start.without_banks(gone.insert(k), now).banks);
                        gone = gone.insert(k);
                    }
                }
            }
            i += 1;
        }
        proof {
            assert(keys@.take(i as int) =~= keys@);
            assert(gone =~= lost);
            lemma_same_transfers(start, self@);
        }
        n
    }

    /// Delete the accounts without a folder in their bank's; how many there
    /// were.
    fn soft_delete_missing_accounts(&mut self, banks: &Vec<BankImport>, now: Timestamp) -> (n:
        usize)
        requires
            old(self)@.keyed(),
        ensures
            final(self)@ == old(self)@.without_accounts(old(self)@.lost_accounts(banks@), now),
            n == old(self)@.lost_accounts(banks@).len(),
            journalled(*old(self), *final(self)),
            final(self)@.keyed(),
            old(self)@.exclusive() ==> final(self)@.exclusive(),
    {
        let ghost start = self@;
        let ghost lost = start.lost_accounts(banks@);
        let keys = keys_of(self.account_table());
        let mut n: usize = 0;
        let mut i: usize = 0;
        let ghost mut gone: Set<i64> = Set::empty();
        proof {
            journal_starts(*self);
            assert(start.without_accounts(gone, now).accounts =~= start.accounts);
        }
        while i < keys.len()
            invariant
                i <= keys@.len(),
                keys@.no_duplicates(),
                forall|k: i64| #[trigger] keys@.contains(k) <==> start.accounts.contains_key(k),
                start.keyed(),
                lost == start.lost_accounts(banks@),
                n <= i,
                gone.finite(),
                n == gone.len(),
                forall|k: i64| #[trigger]
                    gone.contains(k) <==> keys@.take(i as int).contains(k) && lost.contains(k),
                self@ == start.without_accounts(gone, now),
                journalled(*old(self), *self),
            decreases keys@.len() - i,
        {
            let k: i64 = keys[i];
            assert(keys@.contains(keys@[i as int]));
            let ghost before = *self;
            proof {
                lemma_take_contains(keys@, i as int);
                assert(!keys@.take(i as int).contains(k));
                assert(self@.accounts[k] == start.accounts[k]);
                assert(self@.banks == start.banks);
            }
            if let Some(account) = self.account_row(k) {
                if self.is_account_open(account) && is_account_missing(
                    banks,
                    self.bank_name_at(account.bank_id),
                    &account.name,
                ) {
                    let row = Account {
                        id: k,
                        bank_id: account.bank_id,
                        name: account.name.clone(),
                        deleted_at: Some(now),
                    };
                    assert(lost.contains(k));
                    self.put_account(row);
                    n += 1;
                    proof {
                        journal_goes_on(*old(self), before, *self);
                        assert(self@.accounts =~= start.without_accounts(
                            gone.insert(k),
                            now,
                        ).accounts);
                        gone = gone.insert(k);
                    }
                } else {
                    assert(!lost.contains(k));
                }
            }
            i += 1;
        }
        proof {
            assert(keys@.take(i as int) =~= keys@);
            assert(gone =~= lost);
            lemma_same_transfers(start, self@);
        }
        n
    }

    fn refresh_inner(&mut self, banks: &Vec<BankImport>, batch_id: i64, now: Timestamp) -> (result:
        Result<RefreshReport, Error>)
        requires
            old(self)@.keyed(),
        ensures
            match result {
                Ok(report) => old(self)@.refreshed(banks@, batch_id, now, final(self)@, report),
                Err(e) => banks_fail(old(self)@, blank_report(), banks@, batch_id, e),
            },
            journalled(*old(self), *final(self)),
            final(self)@.keyed(),
            old(self)@.exclusive() ==> final(self)@.exclusive(),
    {
        let mut report = RefreshReport::default();
        match self.import_banks(banks, batch_id, &mut report) {
            Ok(_) => {},
            Err(e) => return Err(e),
        }
        let ghost one = *self;
        let ghost counted = report;
        report.banks_deleted = self.soft_delete_missing_banks(banks, now);
        let ghost two = *self;
        report.accounts_deleted = self.soft_delete_missing_accounts(banks, now);
        proof {
            journal_goes_on(*old(self), one, two);
            journal_goes_on(*old(self), two, *self);
            assert(banks_taken(old(self)@, blank_report(), banks@, batch_id, one@, counted));
        }
        Ok(report)
    }

    /// Import everything found in the exports folder: banks and accounts are
    /// made or brought back, new files and what was pulled are taken in, and
    /// banks and accounts without a folder are deleted. Where anything fails,
    /// nothing changes.
    pub fn refresh(&mut self, banks: &Vec<BankImport>, batch_id: i64, now: Timestamp) -> (result:
        Result<RefreshReport, Error>)
        requires
            old(self)@.keyed(),
        ensures
            match result {
                Ok(report) => old(self)@.refreshed(banks@, batch_id, now, final(self)@, report),
                Err(e) => {
                    &&& banks_fail(old(self)@, blank_report(), banks@, batch_id, e)
                    &&& *final(self) == *old(self)
                },
            },
            journalled(*old(self), *final(self)),
            final(self)@.keyed(),
            old(self)@.exclusive() ==> final(self)@.exclusive(),
    {
        proof {
            journal_starts(*self);
        }
        let mut copy = self.duplicate();
        let ghost start = copy;
        match copy.refresh_inner(banks, batch_id, now) {
            Ok(report) => {
                self.adopt(copy, Ghost(start));
                Ok(report)
            },
            Err(e) => Err(e),
        }
    }
}

/// Banks that are not deleted.
pub open spec fn existing_bank() -> spec_fn(Bank) -> bool {
    |b: Bank| b.deleted_at is None
}

/// The bank's accounts that are not deleted.
pub open spec fn existing_account(bank_id: i64) -> spec_fn(Account) -> bool {
    |a: Account| a.bank_id == bank_id && a.deleted_at is None
}

} // verus!
