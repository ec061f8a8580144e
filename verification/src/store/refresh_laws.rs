//! Refreshing again: what a first refresh brought, a second one does not add. The
//! names that it goes by stay apart.

use vstd::prelude::*;

use super::accounts::named_account;
use super::import::{importing_leaves_a_row, tallied, took_in, ImportOutcome, RawTransaction};
use super::refresh::{
    account_made, account_step, accounts_taken, bank_counted, bank_step, banks_taken,
    blank_report, file_counted, file_step, files_taken, is_account_of, pull_step, AccountImport,
    BankImport, FileImport, PullImport,
};
use super::{listed, Tables};
use crate::model::{Account, RefreshReport, Timestamp};
use crate::time::date_of;

verus! {

impl Tables {
    /// No two banks have one name, and no two accounts of a bank.
    pub open spec fn names_differ(self) -> bool {
        &&& forall|a: i64, b: i64| #[trigger]
            self.banks.contains_key(a) && #[trigger] self.banks.contains_key(b)
                && self.banks[a].name@ == self.banks[b].name@ ==> a == b
        &&& forall|a: i64, b: i64| #[trigger]
            self.accounts.contains_key(a) && #[trigger] self.accounts.contains_key(b)
                && is_account_of(
                self.accounts[a],
                self.accounts[b].bank_id,
                self.accounts[b].name@,
            ) ==> a == b
    }

    /// Every bank, account, transaction and imported file is still there, under its
    /// name or hash.
    pub open spec fn grown(self, next: Tables) -> bool {
        &&& forall|b: i64| #[trigger]
            self.banks.contains_key(b) ==> next.banks.contains_key(b) && next.banks[b].name@
                == self.banks[b].name@
        &&& forall|a: i64| #[trigger]
            self.accounts.contains_key(a) ==> next.accounts.contains_key(a) && is_account_of(
                next.accounts[a],
                self.accounts[a].bank_id,
                self.accounts[a].name@,
            )
        &&& forall|x: i64| #[trigger]
            self.transactions.contains_key(x) ==> next.transactions.contains_key(x)
                && next.transactions[x].account_id == self.transactions[x].account_id
                && next.transactions[x].hash@ == self.transactions[x].hash@
        &&& forall|a: i64, h: Seq<char>| #[trigger]
            listed(self.files, a).contains(h) ==> listed(next.files, a).contains(h)
    }

    /// The account has every raw transaction.
    pub open spec fn has_all(self, account_id: i64, raws: Seq<RawTransaction>) -> bool {
        forall|i: int|
            0 <= i < raws.len() ==> self.has_import(account_id, (#[trigger] raws[i]).identity()@)
    }

    /// The account has every file.
    pub open spec fn has_files(self, account_id: i64, files: Seq<FileImport>) -> bool {
        forall|i: int|
            0 <= i < files.len() ==> listed(self.files, account_id).contains(
                (#[trigger] files[i]).content_hash@,
            )
    }

    /// The account has what was pulled.
    pub open spec fn has_pulled(self, account_id: i64, pulled: Option<PullImport>) -> bool {
        pulled matches Some(p) ==> (p.result matches Ok(raws) ==> self.has_all(account_id, raws@))
    }

    /// The row is the bank's account of the name, and has its files and its pull.
    pub open spec fn holds_account(self, id: i64, bank_id: i64, account: AccountImport) -> bool {
        &&& self.accounts.contains_key(id)
        &&& is_account_of(self.accounts[id], bank_id, account.name@)
        &&& self.has_files(id, account.files@)
        &&& self.has_pulled(id, account.pulled)
    }

    /// The bank has the account and all that is in its folder.
    pub open spec fn has_account(self, bank_id: i64, account: AccountImport) -> bool {
        exists|id: i64| #[trigger] self.holds_account(id, bank_id, account)
    }

    /// The bank has the accounts and all that is in their folders.
    pub open spec fn has_accounts(self, bank_id: i64, accounts: Seq<AccountImport>) -> bool {
        forall|j: int|
            0 <= j < accounts.len() ==> self.has_account(bank_id, #[trigger] accounts[j])
    }

    /// The row is the bank, and has its accounts.
    pub open spec fn holds_bank(self, id: i64, bank: BankImport) -> bool {
        &&& self.banks.contains_key(id)
        &&& self.banks[id].name@ == bank.name@
        &&& self.has_accounts(id, bank.accounts@)
    }

    /// There are the banks, and all that is in their folders.
    pub open spec fn has_banks(self, banks: Seq<BankImport>) -> bool {
        forall|i: int| 0 <= i < banks.len() ==> self.has_folder(#[trigger] banks[i])
    }

    /// There is the bank, and all that is in its folder.
    pub open spec fn has_folder(self, bank: BankImport) -> bool {
        exists|id: i64| #[trigger] self.holds_bank(id, bank)
    }
}

/// Nothing was added: neither banks nor accounts nor transactions.
pub open spec fn quiet(t: Tables, r: RefreshReport, u: Tables, s: RefreshReport) -> bool {
    &&& s.banks_added == r.banks_added
    &&& s.accounts_added == r.accounts_added
    &&& s.transactions_added == r.transactions_added
    &&& u.banks.dom() == t.banks.dom()
    &&& u.accounts.dom() == t.accounts.dom()
    &&& u.transactions.dom() == t.transactions.dom()
}

// ==================== What is there stays there ====================

proof fn lemma_grown(a: Tables, b: Tables, c: Tables)
    requires
        a.grown(b),
        b.grown(c),
    ensures
        a.grown(c),
{
    assert forall|x: i64| #[trigger] a.banks.contains_key(x) implies c.banks.contains_key(x)
        && c.banks[x].name@ == a.banks[x].name@ by {
        assert(b.banks.contains_key(x));
    }
    assert forall|x: i64| #[trigger] a.accounts.contains_key(x) implies c.accounts.contains_key(x)
        && is_account_of(c.accounts[x], a.accounts[x].bank_id, a.accounts[x].name@) by {
        assert(b.accounts.contains_key(x));
    }
    assert forall|x: i64| #[trigger] a.transactions.contains_key(x) implies
        c.transactions.contains_key(x) && c.transactions[x].account_id
        == a.transactions[x].account_id && c.transactions[x].hash@ == a.transactions[x].hash@ by {
        assert(b.transactions.contains_key(x));
    }
    assert forall|x: i64, h: Seq<char>| #[trigger] listed(a.files, x).contains(h) implies listed(
        c.files,
        x,
    ).contains(h) by {
        assert(listed(b.files, x).contains(h));
    }
}

proof fn lemma_import_stays(t: Tables, u: Tables, account_id: i64, hash: Seq<char>)
    requires
        t.grown(u),
        t.has_import(account_id, hash),
    ensures
        u.has_import(account_id, hash),
{
    let id = choose|id: i64| #[trigger] t.imported_as(id, account_id, hash);
    assert(t.transactions.contains_key(id));
    assert(u.imported_as(id, account_id, hash));
}

proof fn lemma_account_stays(t: Tables, u: Tables, bank_id: i64, account: AccountImport)
    requires
        t.grown(u),
        t.has_account(bank_id, account),
    ensures
        u.has_account(bank_id, account),
{
    let id = choose|id: i64| #[trigger] t.holds_account(id, bank_id, account);
    lemma_contents_stay(t, u, id, account);
    assert(u.holds_account(id, bank_id, account));
}

proof fn lemma_contents_stay(t: Tables, u: Tables, id: i64, account: AccountImport)
    requires
        t.grown(u),
        t.has_files(id, account.files@),
        t.has_pulled(id, account.pulled),
    ensures
        u.has_files(id, account.files@),
        u.has_pulled(id, account.pulled),
{
    if let Some(p) = account.pulled {
        if let Ok(raws) = p.result {
            assert forall|i: int| 0 <= i < raws@.len() implies u.has_import(
                id,
                (#[trigger] raws@[i]).identity()@,
            ) by {
                lemma_import_stays(t, u, id, raws@[i].identity()@);
            }
        }
    }
}

proof fn lemma_accounts_stay(t: Tables, u: Tables, bank_id: i64, accounts: Seq<AccountImport>)
    requires
        t.grown(u),
        t.has_accounts(bank_id, accounts),
    ensures
        u.has_accounts(bank_id, accounts),
{
    assert forall|j: int| 0 <= j < accounts.len() implies u.has_account(
        bank_id,
        #[trigger] accounts[j],
    ) by {
        lemma_account_stays(t, u, bank_id, accounts[j]);
    }
}

proof fn lemma_banks_stay(t: Tables, u: Tables, banks: Seq<BankImport>)
    requires
        t.grown(u),
        t.has_banks(banks),
    ensures
        u.has_banks(banks),
{
    assert forall|i: int| 0 <= i < banks.len() implies u.has_folder(#[trigger] banks[i]) by {
        assert(t.has_folder(banks[i]));
        let id = choose|id: i64| #[trigger] t.holds_bank(id, banks[i]);
        lemma_accounts_stay(t, u, id, banks[i].accounts@);
        assert(u.holds_bank(id, banks[i]));
    }
}

// ==================== Raw transactions ====================

proof fn lemma_took_in(
    t: Tables,
    r: RefreshReport,
    account_id: i64,
    raws: Seq<RawTransaction>,
    source_file: Seq<char>,
    batch_id: i64,
    u: Tables,
    s: RefreshReport,
)
    requires
        took_in(t, r, account_id, raws, source_file, batch_id, u, s),
    ensures
        t.grown(u),
        u == (Tables { transactions: u.transactions, ..t }),
        u.has_all(account_id, raws),
        t.has_all(account_id, raws) ==> quiet(t, r, u, s),
    decreases raws.len(),
{
    if raws.len() > 0 {
        let before = raws.drop_last();
        let raw = raws.last();
        let (mid, m, outcome) = choose|mid: Tables, m: RefreshReport, outcome: ImportOutcome|
            {
                &&& took_in(t, r, account_id, before, source_file, batch_id, mid, m)
                &&& date_of(raw.date@) is Some
                &&& #[trigger] mid.took(
                    account_id,
                    date_of(raw.date@)->0,
                    raw,
                    source_file,
                    batch_id,
                    outcome,
                    u,
                )
                &&& s == #[trigger] tallied(m, outcome)
            };
        lemma_took_in(t, r, account_id, before, source_file, batch_id, mid, m);
        let date = date_of(raw.date@)->0;
        importing_leaves_a_row(mid, account_id, date, raw, source_file, batch_id, outcome, u);
        assert(mid.grown(u));
        lemma_grown(t, mid, u);
        assert forall|i: int| 0 <= i < raws.len() implies u.has_import(
            account_id,
            (#[trigger] raws[i]).identity()@,
        ) by {
            if i < before.len() {
                assert(before[i] == raws[i]);
                lemma_import_stays(mid, u, account_id, raws[i].identity()@);
            }
        }
        if t.has_all(account_id, raws) {
            assert forall|i: int| 0 <= i < before.len() implies t.has_import(
                account_id,
                (#[trigger] before[i]).identity()@,
            ) by {
                assert(before[i] == raws[i]);
            }
            assert(t.has_import(account_id, raws[raws.len() - 1].identity()@));
            lemma_import_stays(t, mid, account_id, raw.identity()@);
            assert(outcome != ImportOutcome::Added);
            assert(u.transactions.dom() =~= mid.transactions.dom());
        }
    }
}

// ==================== Files and pulls ====================

proof fn lemma_file(
    t: Tables,
    r: RefreshReport,
    account_id: i64,
    file: FileImport,
    batch_id: i64,
    u: Tables,
    s: RefreshReport,
)
    requires
        file_step(t, r, account_id, file, batch_id, u, s),
    ensures
        t.grown(u),
        u.banks == t.banks,
        u.accounts == t.accounts,
        listed(u.files, account_id).contains(file.content_hash@),
        listed(t.files, account_id).contains(file.content_hash@) ==> u == t && s == r,
{
    let hash = file.content_hash@;
    if !listed(t.files, account_id).contains(hash) {
        let w = choose|w: Tables|
            {
                &&& #[trigger] took_in(
                    t,
                    file_counted(r),
                    account_id,
                    file.transactions@,
                    file.path@,
                    batch_id,
                    w,
                    s,
                )
                &&& u == (Tables {
                    files: w.files.insert(account_id, listed(w.files, account_id).push(hash)),
                    ..w
                })
            };
        lemma_took_in(
            t,
            file_counted(r),
            account_id,
            file.transactions@,
            file.path@,
            batch_id,
            w,
            s,
        );
        let more = listed(w.files, account_id).push(hash);
        assert(listed(u.files, account_id) == more);
        assert(more[more.len() - 1] == hash);
        assert forall|a: i64, h: Seq<char>| #[trigger] listed(w.files, a).contains(h) implies
            listed(u.files, a).contains(h) by {
            if a == account_id {
                let i = choose|i: int|
                    0 <= i < listed(w.files, a).len() && listed(w.files, a)[i] == h;
                assert(more[i] == h);
            }
        }
        assert(w.grown(u));
        lemma_grown(t, w, u);
    }
}

proof fn lemma_files(
    t: Tables,
    r: RefreshReport,
    account_id: i64,
    files: Seq<FileImport>,
    batch_id: i64,
    u: Tables,
    s: RefreshReport,
)
    requires
        files_taken(t, r, account_id, files, batch_id, u, s),
    ensures
        t.grown(u),
        u.banks == t.banks,
        u.accounts == t.accounts,
        u.has_files(account_id, files),
        t.has_files(account_id, files) ==> u == t && s == r,
    decreases files.len(),
{
    if files.len() > 0 {
        let before = files.drop_last();
        let (w, q) = choose|w: Tables, q: RefreshReport|
            files_taken(t, r, account_id, before, batch_id, w, q) && #[trigger] file_step(
                w,
                q,
                account_id,
                files.last(),
                batch_id,
                u,
                s,
            );
        lemma_files(t, r, account_id, before, batch_id, w, q);
        lemma_file(w, q, account_id, files.last(), batch_id, u, s);
        lemma_grown(t, w, u);
        assert forall|i: int| 0 <= i < files.len() implies listed(u.files, account_id).contains(
            (#[trigger] files[i]).content_hash@,
        ) by {
            if i < before.len() {
                assert(before[i] == files[i]);
                assert(listed(w.files, account_id).contains(files[i].content_hash@));
            }
        }
        if t.has_files(account_id, files) {
            assert forall|i: int| 0 <= i < before.len() implies listed(
                t.files,
                account_id,
            ).contains((#[trigger] before[i]).content_hash@) by {
                assert(before[i] == files[i]);
            }
            assert(listed(t.files, account_id).contains(files[files.len() - 1].content_hash@));
        }
    }
}

proof fn lemma_pull(
    t: Tables,
    r: RefreshReport,
    account_id: i64,
    pulled: Option<PullImport>,
    batch_id: i64,
    u: Tables,
    s: RefreshReport,
)
    requires
        pull_step(t, r, account_id, pulled, batch_id, u, s),
    ensures
        t.grown(u),
        u == (Tables { transactions: u.transactions, ..t }),
        u.has_pulled(account_id, pulled),
        t.has_pulled(account_id, pulled) ==> quiet(t, r, u, s),
{
    if let Some(p) = pulled {
        if let Ok(raws) = p.result {
            lemma_took_in(t, file_counted(r), account_id, raws@, p.path@, batch_id, u, s);
        }
    }
}

// ==================== Accounts ====================

proof fn lemma_account(
    t: Tables,
    r: RefreshReport,
    bank_id: i64,
    account: AccountImport,
    batch_id: i64,
    u: Tables,
    s: RefreshReport,
)
    requires
        t.names_differ(),
        account_step(t, r, bank_id, account, batch_id, u, s),
    ensures
        t.grown(u),
        u.names_differ(),
        u.has_account(bank_id, account),
        t.has_account(bank_id, account) ==> quiet(t, r, u, s),
{
    let name = account.name@;
    let (id, w, q, x, y) = choose|
        id: i64,
        w: Tables,
        q: RefreshReport,
        x: Tables,
        y: RefreshReport,
    |
        {
            &&& #[trigger] account_made(t, r, bank_id, name, id, w, q)
            &&& files_taken(w, q, id, account.files@, batch_id, x, y)
            &&& #[trigger] pull_step(x, y, id, account.pulled, batch_id, u, s)
        };
    lemma_files(w, q, id, account.files@, batch_id, x, y);
    lemma_pull(x, y, id, account.pulled, batch_id, u, s);
    assert(t.grown(w));
    lemma_grown(t, w, x);
    lemma_grown(t, x, u);
    assert(u.accounts == w.accounts && u.banks == t.banks);
    assert forall|a: i64, b: i64| #[trigger]
        u.accounts.contains_key(a) && #[trigger] u.accounts.contains_key(b) && is_account_of(
            u.accounts[a],
            u.accounts[b].bank_id,
            u.accounts[b].name@,
        ) implies a == b by {
        if a != id && b != id {
            assert(t.accounts.contains_key(a) && t.accounts.contains_key(b));
        } else if a != b {
            let other = if a == id {
                b
            } else {
                a
            };
            assert(t.accounts.contains_key(other));
            assert(is_account_of(t.accounts[other], bank_id, name));
            if t.accounts.contains_key(id) {
                assert(is_account_of(
                    t.accounts[other],
                    t.accounts[id].bank_id,
                    t.accounts[id].name@,
                ));
            }
        }
    }
    lemma_has_files_stay(x, u, id, account.files@);
    assert(u.holds_account(id, bank_id, account));
    if t.has_account(bank_id, account) {
        let k = choose|k: i64| #[trigger] t.holds_account(k, bank_id, account);
        assert(t.accounts.contains_key(k));
        assert(t.accounts.contains_key(id));
        assert(is_account_of(t.accounts[k], t.accounts[id].bank_id, t.accounts[id].name@));
        assert(k == id);
        assert(w.has_files(id, account.files@));
        assert(x == w && y == q);
        assert(w.accounts.dom() =~= t.accounts.dom());
        lemma_pulled_stays(t, x, id, account.pulled);
    }
}

proof fn lemma_has_files_stay(t: Tables, u: Tables, id: i64, files: Seq<FileImport>)
    requires
        t.grown(u),
        t.has_files(id, files),
    ensures
        u.has_files(id, files),
{
}

proof fn lemma_pulled_stays(t: Tables, u: Tables, id: i64, pulled: Option<PullImport>)
    requires
        t.grown(u),
        t.has_pulled(id, pulled),
    ensures
        u.has_pulled(id, pulled),
{
    if let Some(p) = pulled {
        if let Ok(raws) = p.result {
            assert forall|i: int| 0 <= i < raws@.len() implies u.has_import(
                id,
                (#[trigger] raws@[i]).identity()@,
            ) by {
                lemma_import_stays(t, u, id, raws@[i].identity()@);
            }
        }
    }
}

proof fn lemma_accounts(
    t: Tables,
    r: RefreshReport,
    bank_id: i64,
    accounts: Seq<AccountImport>,
    batch_id: i64,
    u: Tables,
    s: RefreshReport,
)
    requires
        t.names_differ(),
        accounts_taken(t, r, bank_id, accounts, batch_id, u, s),
    ensures
        t.grown(u),
        u.names_differ(),
        u.has_accounts(bank_id, accounts),
        t.has_accounts(bank_id, accounts) ==> quiet(t, r, u, s),
    decreases accounts.len(),
{
    if accounts.len() > 0 {
        let before = accounts.drop_last();
        let last = accounts.last();
        let (w, q) = choose|w: Tables, q: RefreshReport|
            accounts_taken(t, r, bank_id, before, batch_id, w, q) && #[trigger] account_step(
                w,
                q,
                bank_id,
                last,
                batch_id,
                u,
                s,
            );
        lemma_accounts(t, r, bank_id, before, batch_id, w, q);
        lemma_account(w, q, bank_id, last, batch_id, u, s);
        lemma_grown(t, w, u);
        lemma_accounts_stay(w, u, bank_id, before);
        assert forall|j: int| 0 <= j < accounts.len() implies u.has_account(
            bank_id,
            #[trigger] accounts[j],
        ) by {
            if j < before.len() {
                assert(u.has_account(bank_id, before[j]));
            }
        }
        if t.has_accounts(bank_id, accounts) {
            assert forall|j: int| 0 <= j < before.len() implies t.has_account(
                bank_id,
                #[trigger] before[j],
            ) by {
                assert(before[j] == accounts[j]);
            }
            assert(t.has_account(bank_id, accounts[accounts.len() - 1]));
            lemma_account_stays(t, w, bank_id, last);
        }
    }
}

// ==================== Banks ====================

proof fn lemma_bank(
    t: Tables,
    r: RefreshReport,
    bank: BankImport,
    batch_id: i64,
    u: Tables,
    s: RefreshReport,
)
    requires
        t.names_differ(),
        bank_step(t, r, bank, batch_id, u, s),
    ensures
        t.grown(u),
        u.names_differ(),
        u.has_folder(bank),
        t.has_folder(bank) ==> quiet(t, r, u, s),
{
    let (id, created, w) = choose|id: i64, created: bool, w: Tables|
        {
            &&& #[trigger] t.bank_made(bank.name@, id, created, w)
            &&& accounts_taken(
                w,
                bank_counted(r, created),
                id,
                bank.accounts@,
                batch_id,
                u,
                s,
            )
        };
    assert(t.grown(w));
    assert forall|a: i64, b: i64| #[trigger]
        w.banks.contains_key(a) && #[trigger] w.banks.contains_key(b) && w.banks[a].name@
            == w.banks[b].name@ implies a == b by {
        if a != id && b != id {
            assert(t.banks.contains_key(a) && t.banks.contains_key(b));
        } else if a != b {
            let other = if a == id {
                b
            } else {
                a
            };
            assert(t.banks.contains_key(other));
            assert(t.has_bank(bank.name@));
        }
    }
    lemma_accounts(w, bank_counted(r, created), id, bank.accounts@, batch_id, u, s);
    lemma_grown(t, w, u);
    assert(w.banks.contains_key(id));
    assert(u.holds_bank(id, bank));
    if t.has_folder(bank) {
        let k = choose|k: i64| #[trigger] t.holds_bank(k, bank);
        assert(t.banks.contains_key(k));
        assert(t.has_bank(bank.name@));
        assert(!created);
        assert(t.banks.contains_key(id));
        assert(k == id);
        lemma_accounts_stay(t, w, id, bank.accounts@);
        assert(w.banks.dom() =~= t.banks.dom());
    }
}

proof fn lemma_banks(
    t: Tables,
    r: RefreshReport,
    banks: Seq<BankImport>,
    batch_id: i64,
    u: Tables,
    s: RefreshReport,
)
    requires
        t.names_differ(),
        banks_taken(t, r, banks, batch_id, u, s),
    ensures
        t.grown(u),
        u.names_differ(),
        u.has_banks(banks),
        t.has_banks(banks) ==> quiet(t, r, u, s),
    decreases banks.len(),
{
    if banks.len() > 0 {
        let before = banks.drop_last();
        let last = banks.last();
        let (w, q) = choose|w: Tables, q: RefreshReport|
            banks_taken(t, r, before, batch_id, w, q) && #[trigger] bank_step(
                w,
                q,
                last,
                batch_id,
                u,
                s,
            );
        lemma_banks(t, r, before, batch_id, w, q);
        lemma_bank(w, q, last, batch_id, u, s);
        lemma_grown(t, w, u);
        lemma_banks_stay(w, u, before);
        assert forall|i: int| 0 <= i < banks.len() implies u.has_folder(#[trigger] banks[i]) by {
            if i < before.len() {
                assert(u.has_folder(before[i]));
            }
        }
        if t.has_banks(banks) {
            assert forall|i: int| 0 <= i < before.len() implies t.has_folder(
                #[trigger] before[i],
            ) by {
                assert(t.has_folder(banks[i]));
            }
            assert(t.has_folder(banks[banks.len() - 1]));
            let id = choose|id: i64| #[trigger] t.holds_bank(id, banks[banks.len() - 1]);
            lemma_accounts_stay(t, w, id, last.accounts@);
            assert(w.holds_bank(id, last));
        }
    }
}

/// A refresh loses nothing: every bank, account, transaction and imported file is
/// still there, and everything in the folders is.
pub proof fn refreshing_loses_nothing(
    t: Tables,
    banks: Seq<BankImport>,
    batch_id: i64,
    now: Timestamp,
    u: Tables,
    report: RefreshReport,
)
    requires
        t.names_differ(),
        t.refreshed(banks, batch_id, now, u, report),
    ensures
        t.grown(u),
        u.names_differ(),
        u.has_banks(banks),
        t.has_banks(banks) ==> quiet(t, blank_report(), u, report),
{
    let (w, q) = choose|w: Tables, q: RefreshReport|
        {
            let v = w.without_banks(w.lost_banks(banks), now);
            &&& #[trigger] banks_taken(t, blank_report(), banks, batch_id, w, q)
            &&& u == v.without_accounts(v.lost_accounts(banks), now)
            &&& report == (RefreshReport {
                banks_deleted: w.lost_banks(banks).len() as usize,
                accounts_deleted: v.lost_accounts(banks).len() as usize,
                ..q
            })
        };
    lemma_banks(t, blank_report(), banks, batch_id, w, q);
    assert(w.grown(u));
    lemma_grown(t, w, u);
    lemma_banks_stay(w, u, banks);
    assert(u.names_differ()) by {
        assert forall|a: i64, b: i64| #[trigger]
            u.banks.contains_key(a) && #[trigger] u.banks.contains_key(b) && u.banks[a].name@
                == u.banks[b].name@ implies a == b by {
            assert(w.banks.contains_key(a) && w.banks.contains_key(b));
        }
        assert forall|a: i64, b: i64| #[trigger]
            u.accounts.contains_key(a) && #[trigger] u.accounts.contains_key(b) && is_account_of(
                u.accounts[a],
                u.accounts[b].bank_id,
                u.accounts[b].name@,
            ) implies a == b by {
            assert(w.accounts.contains_key(a) && w.accounts.contains_key(b));
            assert(is_account_of(w.accounts[a], w.accounts[b].bank_id, w.accounts[b].name@));
        }
    }
    assert(u.banks.dom() =~= w.banks.dom());
    assert(u.accounts.dom() =~= w.accounts.dom());
}

/// Refreshing again from the same folders adds no bank, no account and no
/// transaction.
pub proof fn refreshing_again_adds_nothing(
    t: Tables,
    u: Tables,
    v: Tables,
    banks: Seq<BankImport>,
    first: (i64, Timestamp, RefreshReport),
    second: (i64, Timestamp, RefreshReport),
)
    requires
        t.names_differ(),
        t.refreshed(banks, first.0, first.1, u, first.2),
        u.refreshed(banks, second.0, second.1, v, second.2),
    ensures
        second.2.banks_added == 0,
        second.2.accounts_added == 0,
        second.2.transactions_added == 0,
        v.banks.dom() == u.banks.dom(),
        v.accounts.dom() == u.accounts.dom(),
        v.transactions.dom() == u.transactions.dom(),
{
    refreshing_loses_nothing(t, banks, first.0, first.1, u, first.2);
    refreshing_loses_nothing(u, banks, second.0, second.1, v, second.2);
}

/// Renaming an account keeps the names apart, where every account is of a bank that
/// is there.
pub proof fn renaming_keeps_names_apart(
    t: Tables,
    id: i64,
    new_path: Seq<char>,
    on_disk: bool,
    u: Tables,
)
    requires
        t.names_differ(),
        forall|a: i64| #[trigger]
            t.accounts.contains_key(a) ==> t.banks.contains_key(t.accounts[a].bank_id),
        t.account_renamed(id, new_path, on_disk, u),
    ensures
        u.names_differ(),
{
    let p = named_account(new_path)->0;
    if p != (t.bank_name_of(t.accounts[id]), t.accounts[id].name@) {
        let (bank_id, created, w) = choose|bank_id: i64, created: bool, between: Tables|
            #[trigger] t.bank_made(p.0, bank_id, created, between) && {
                let row = u.accounts[id];
                &&& u == (Tables {
                    accounts: between.accounts.insert(id, row),
                    transactions: t.rebanked(id, bank_id),
                    ..between
                })
                &&& row == (Account { bank_id, name: row.name, ..t.accounts[id] })
                &&& row.name@ == p.1
            };
        assert forall|a: i64, b: i64| #[trigger]
            u.banks.contains_key(a) && #[trigger] u.banks.contains_key(b) && u.banks[a].name@
                == u.banks[b].name@ implies a == b by {
            assert(a == bank_id || t.banks.contains_key(a));
            assert(b == bank_id || t.banks.contains_key(b));
        }
        assert forall|a: i64, b: i64| #[trigger]
            u.accounts.contains_key(a) && #[trigger] u.accounts.contains_key(b) && is_account_of(
                u.accounts[a],
                u.accounts[b].bank_id,
                u.accounts[b].name@,
            ) implies a == b by {
            assert(t.accounts.contains_key(a) && t.accounts.contains_key(b));
            assert(!t.stands_at(a, p.0, p.1) || a == id);
            assert(!t.stands_at(b, p.0, p.1) || b == id);
        }
    }
}

} // verus!
