//! What a refresh makes of the folders it finds.

use vstd::prelude::*;

use super::import::{importing_leaves_a_row, tallied, took_in, ImportOutcome, RawTransaction};
use super::import_laws::{a_new_hash_is_a_new_row, is_of};
use super::refresh::{
    account_found, account_made, account_missing, account_step, accounts_taken, bank_counted,
    bank_found, bank_step, banks_taken, blank_report,
    file_counted, file_step, files_taken, pull_step, AccountImport, BankImport, FileImport,
};
use super::refresh_laws::refreshing_loses_nothing;
use super::{listed, Tables};
use crate::model::{Account, Bank, RefreshReport, Timestamp};
use crate::time::{date_of, read_date};

verus! {

/// After a refresh a bank is open only if a folder has its name, and an account of a
/// bank with a folder only if one of that bank's account folders has the account's
/// own name.
pub proof fn what_has_no_folder_is_closed(
    t: Tables,
    banks: Seq<BankImport>,
    batch_id: i64,
    now: Timestamp,
    u: Tables,
    report: RefreshReport,
    id: i64,
)
    requires
        t.refreshed(banks, batch_id, now, u, report),
    ensures
        u.banks.contains_key(id) && u.banks[id].deleted_at is None ==> exists|i: int|
            0 <= i < banks.len() && (#[trigger] banks[i]).name@ == u.banks[id].name@,
        ({
            let a = u.accounts[id];
            let b = u.banks[a.bank_id];
            u.accounts.contains_key(id) && u.banks.contains_key(a.bank_id) && b.deleted_at is None
                && a.deleted_at is None ==> forall|i: int|
                #![trigger banks[i]]
                0 <= i < banks.len() && banks[i].name@ == b.name@ ==> exists|j: int|
                    0 <= j < banks[i].accounts@.len() && (#[trigger] banks[i].accounts@[j]).name@
                        == a.name@
        }),
{
    let (w, q) = choose|w: Tables, q: RefreshReport|
        {
            let v = w.without_banks(w.lost_banks(banks), now);
            &&& #[trigger] banks_taken(t, blank_report(), banks, batch_id, w, q)
            &&& u == v.without_accounts(v.lost_accounts(banks), now)
            &&& report == (RefreshReport {
                banks_deleted: w.lost_banks(banks).len() as usize,
                accounts_deleted: v.lost_accounts(banks).len() as usize,
                ..q
            })
        };
    let v = w.without_banks(w.lost_banks(banks), now);
    if u.banks.contains_key(id) && u.banks[id].deleted_at is None {
        assert(!w.lost_banks(banks).contains(id));
    }
    let a = u.accounts[id];
    if u.accounts.contains_key(id) && u.banks.contains_key(a.bank_id) && a.deleted_at is None
        && u.banks[a.bank_id].deleted_at is None {
        assert(!v.lost_accounts(banks).contains(id));
        assert(v.is_open(id));
    }
}

/// The counts tell how many rows there are more, as long as they are below the largest
/// count there is.
pub open spec fn counted(t: Tables, r: RefreshReport, u: Tables, s: RefreshReport) -> bool {
    &&& t.banks.dom().finite() ==> u.banks.dom().finite() && (s.banks_added < usize::MAX
        ==> u.banks.dom().len() - t.banks.dom().len() == s.banks_added - r.banks_added)
    &&& t.accounts.dom().finite() ==> u.accounts.dom().finite() && (s.accounts_added < usize::MAX
        ==> u.accounts.dom().len() - t.accounts.dom().len() == s.accounts_added - r.accounts_added)
    &&& t.transactions.dom().finite() ==> u.transactions.dom().finite() && (s.transactions_added
        < usize::MAX ==> u.transactions.dom().len() - t.transactions.dom().len()
        == s.transactions_added - r.transactions_added)
    &&& s.banks_added >= r.banks_added
    &&& s.accounts_added >= r.accounts_added
    &&& s.transactions_added >= r.transactions_added
}

proof fn lemma_counted_on(
    t: Tables,
    r: RefreshReport,
    w: Tables,
    q: RefreshReport,
    u: Tables,
    s: RefreshReport,
)
    requires
        counted(t, r, w, q),
        counted(w, q, u, s),
    ensures
        counted(t, r, u, s),
{
}

proof fn lemma_took_in(
    t: Tables,
    r: RefreshReport,
    account_id: i64,
    raws: Seq<RawTransaction>,
    path: Seq<char>,
    batch_id: i64,
    u: Tables,
    s: RefreshReport,
)
    requires
        took_in(t, r, account_id, raws, path, batch_id, u, s),
    ensures
        counted(t, r, u, s),
        u == (Tables { transactions: u.transactions, ..t }),
    decreases raws.len(),
{
    if raws.len() > 0 {
        let last = raws.last();
        let (mid, m, outcome) = choose|mid: Tables, m: RefreshReport, outcome: ImportOutcome|
            {
                &&& took_in(t, r, account_id, raws.drop_last(), path, batch_id, mid, m)
                &&& date_of(raws.last().date@) is Some
                &&& #[trigger] mid.took(
                    account_id,
                    date_of(raws.last().date@)->0,
                    raws.last(),
                    path,
                    batch_id,
                    outcome,
                    u,
                )
                &&& s == #[trigger] tallied(m, outcome)
            };
        lemma_took_in(t, r, account_id, raws.drop_last(), path, batch_id, mid, m);
        let date = date_of(last.date@)->0;
        a_new_hash_is_a_new_row(mid, account_id, date, last, path, batch_id, outcome, u);
        if outcome == ImportOutcome::Added {
            let id = choose|id: i64|
                !(#[trigger] mid.transactions.contains_key(id)) && u.transactions
                    == mid.transactions.insert(id, u.transactions[id]);
            assert(u.transactions.dom() =~= mid.transactions.dom().insert(id));
        }
        lemma_counted_on(t, r, mid, m, u, s);
    }
}

proof fn lemma_files(
    t: Tables,
    r: RefreshReport,
    account_id: i64,
    files: Seq<FileImport>,
    batch_id: i64,
    u: Tables,
    s: RefreshReport,
)
    requires
        files_taken(t, r, account_id, files, batch_id, u, s),
    ensures
        counted(t, r, u, s),
        u == (Tables { transactions: u.transactions, files: u.files, ..t }),
    decreases files.len(),
{
    if files.len() > 0 {
        let (w, q) = choose|w: Tables, q: RefreshReport|
            files_taken(t, r, account_id, files.drop_last(), batch_id, w, q) && #[trigger]
            file_step(w, q, account_id, files.last(), batch_id, u, s);
        lemma_files(t, r, account_id, files.drop_last(), batch_id, w, q);
        let file = files.last();
        if !listed(w.files, account_id).contains(file.content_hash@) {
            let x = choose|x: Tables|
                {
                    &&& #[trigger] took_in(
                        w,
                        file_counted(q),
                        account_id,
                        file.transactions@,
                        file.path@,
                        batch_id,
                        x,
                        s,
                    )
                    &&& u == (Tables {
                        files: x.files.insert(
                            account_id,
                            listed(x.files, account_id).push(file.content_hash@),
                        ),
                        ..x
                    })
                };
            lemma_took_in(
                w,
                file_counted(q),
                account_id,
                file.transactions@,
                file.path@,
                batch_id,
                x,
                s,
            );
        }
        lemma_counted_on(t, r, w, q, u, s);
    }
}

/// The accounts stay, but for those of the bank with a folder, of which none is
/// deleted then; new ones are of the bank, and have a folder.
pub open spec fn accounts_follow(
    t: Tables,
    u: Tables,
    bank_id: i64,
    folders: Seq<AccountImport>,
) -> bool {
    &&& forall|k: i64| #[trigger]
        t.accounts.contains_key(k) ==> {
            let (was, is) = (t.accounts[k], u.accounts[k]);
            &&& u.accounts.contains_key(k)
            &&& is.bank_id == was.bank_id && is.name@ == was.name@
            &&& is == was || is.deleted_at is None
            &&& !(was.bank_id == bank_id && has_account_folder(folders, was.name@)) ==> is == was
        }
    &&& forall|k: i64| #[trigger]
        u.accounts.contains_key(k) && !t.accounts.contains_key(k) ==> u.accounts[k].bank_id
            == bank_id && has_account_folder(folders, u.accounts[k].name@)
            && u.accounts[k].deleted_at is None
    &&& forall|name: Seq<char>| #[trigger]
        has_account_folder(folders, name) ==> is_open_account(u, bank_id, name)
}

/// An account of the bank has the name and is not deleted.
pub open spec fn is_open_account(t: Tables, bank_id: i64, name: Seq<char>) -> bool {
    exists|k: i64| #[trigger]
        t.accounts.contains_key(k) && t.accounts[k].bank_id == bank_id && t.accounts[k].name@
            == name && t.accounts[k].deleted_at is None
}

/// A folder of an account has the name.
pub open spec fn has_account_folder(folders: Seq<AccountImport>, name: Seq<char>) -> bool {
    exists|j: int| 0 <= j < folders.len() && (#[trigger] folders[j]).name@ == name
}

proof fn lemma_accounts(
    t: Tables,
    r: RefreshReport,
    bank_id: i64,
    accounts: Seq<AccountImport>,
    batch_id: i64,
    u: Tables,
    s: RefreshReport,
)
    requires
        accounts_taken(t, r, bank_id, accounts, batch_id, u, s),
    ensures
        counted(t, r, u, s),
        u.banks == t.banks,
        accounts_follow(t, u, bank_id, accounts),
    decreases accounts.len(),
{
    if accounts.len() > 0 {
        let rest = accounts.drop_last();
        let account = accounts.last();
        let (w, q) = choose|w: Tables, q: RefreshReport|
            accounts_taken(t, r, bank_id, accounts.drop_last(), batch_id, w, q) && #[trigger]
            account_step(w, q, bank_id, accounts.last(), batch_id, u, s);
        lemma_accounts(t, r, bank_id, rest, batch_id, w, q);
        let (id, x, y, v, z) = choose|
            id: i64,
            w1: Tables,
            q1: RefreshReport,
            x: Tables,
            y: RefreshReport,
        |
            {
                &&& #[trigger] account_made(w, q, bank_id, account.name@, id, w1, q1)
                &&& files_taken(w1, q1, id, account.files@, batch_id, x, y)
                &&& #[trigger] pull_step(x, y, id, account.pulled, batch_id, u, s)
            };
        lemma_files(x, y, id, account.files@, batch_id, v, z);
        if account.pulled is Some {
            let p = account.pulled->0;
            lemma_took_in(v, file_counted(z), id, p.result->Ok_0@, p.path@, batch_id, u, s);
        }
        assert(x.accounts.dom() =~= if w.accounts.contains_key(id) {
            w.accounts.dom()
        } else {
            w.accounts.dom().insert(id)
        });
        assert(counted(w, q, x, y));
        lemma_counted_on(w, q, x, y, v, z);
        lemma_counted_on(w, q, v, z, u, s);
        lemma_counted_on(t, r, w, q, u, s);
        assert(accounts[accounts.len() - 1] == account);
        assert forall|name: Seq<char>| #[trigger] has_account_folder(rest, name) implies
            has_account_folder(accounts, name) by {
            let j = choose|j: int| 0 <= j < rest.len() && (#[trigger] rest[j]).name@ == name;
            assert(accounts[j].name@ == name);
        }
        assert(has_account_folder(accounts, account.name@));
        assert(u.accounts == x.accounts);
        assert(accounts_follow(t, u, bank_id, accounts)) by {
            assert forall|k: i64| #[trigger] t.accounts.contains_key(k) implies {
                let (was, is) = (t.accounts[k], u.accounts[k]);
                &&& u.accounts.contains_key(k)
                &&& is.bank_id == was.bank_id && is.name@ == was.name@
                &&& is == was || is.deleted_at is None
                &&& !(was.bank_id == bank_id && has_account_folder(accounts, was.name@)) ==> is
                    == was
            } by {
                assert(w.accounts.contains_key(k));
            }
            assert forall|k: i64| #[trigger]
                u.accounts.contains_key(k) && !t.accounts.contains_key(k) implies
                u.accounts[k].bank_id == bank_id && has_account_folder(
                accounts,
                u.accounts[k].name@,
            ) && u.accounts[k].deleted_at is None by {
                if k != id {
                    assert(w.accounts.contains_key(k));
                }
            }
            assert forall|name: Seq<char>| #[trigger]
                has_account_folder(accounts, name) implies is_open_account(u, bank_id, name) by {
                let j = choose|j: int|
                    0 <= j < accounts.len() && (#[trigger] accounts[j]).name@ == name;
                if j < rest.len() {
                    assert(rest[j].name@ == name);
                    assert(has_account_folder(rest, name));
                    let k = choose|k: i64| #[trigger]
                        w.accounts.contains_key(k) && w.accounts[k].bank_id == bank_id
                            && w.accounts[k].name@ == name && w.accounts[k].deleted_at is None;
                    assert(u.accounts.contains_key(k));
                } else {
                    assert(u.accounts.contains_key(id));
                }
            }
        }
    } else {
        assert forall|name: Seq<char>| !#[trigger] has_account_folder(accounts, name) by {}
    }
}

/// A folder of a bank has the name.
pub open spec fn has_bank_folder(folders: Seq<BankImport>, name: Seq<char>) -> bool {
    exists|i: int| 0 <= i < folders.len() && (#[trigger] folders[i]).name@ == name
}

/// Some folder of a bank with the name has a folder of an account with the other.
pub open spec fn has_folder_in(
    folders: Seq<BankImport>,
    bank: Seq<char>,
    name: Seq<char>,
) -> bool {
    exists|i: int|
        0 <= i < folders.len() && (#[trigger] folders[i]).name@ == bank && has_account_folder(
            folders[i].accounts@,
            name,
        )
}

/// Banks and accounts without a folder stay as they are; every bank with one is there
/// and not deleted.
pub open spec fn banks_follow(t: Tables, u: Tables, folders: Seq<BankImport>) -> bool {
    &&& forall|k: i64| #[trigger]
        t.banks.contains_key(k) ==> {
            let (was, is) = (t.banks[k], u.banks[k]);
            &&& u.banks.contains_key(k)
            &&& is.name@ == was.name@
            &&& is == was || is.deleted_at is None
            &&& !has_bank_folder(folders, was.name@) ==> is == was
        }
    &&& forall|k: i64| #[trigger]
        u.banks.contains_key(k) && !t.banks.contains_key(k) ==> u.banks[k].deleted_at is None
            && has_bank_folder(folders, u.banks[k].name@)
    &&& forall|k: i64| #[trigger]
        t.accounts.contains_key(k) ==> {
            let (was, is) = (t.accounts[k], u.accounts[k]);
            &&& u.accounts.contains_key(k)
            &&& is.bank_id == was.bank_id && is.name@ == was.name@
            &&& is == was || is.deleted_at is None
            &&& !(u.banks.contains_key(was.bank_id) && has_folder_in(
                folders,
                u.banks[was.bank_id].name@,
                was.name@,
            )) ==> is == was
        }
    &&& forall|k: i64| #[trigger]
        u.accounts.contains_key(k) && !t.accounts.contains_key(k) ==> {
            let is = u.accounts[k];
            &&& is.deleted_at is None
            &&& u.banks.contains_key(is.bank_id)
            &&& has_folder_in(folders, u.banks[is.bank_id].name@, is.name@)
        }
    &&& forall|i: int|
        0 <= i < folders.len() ==> is_open_bank(u, (#[trigger] folders[i]).name@)
    &&& forall|bank: Seq<char>, name: Seq<char>| #[trigger]
        has_folder_in(folders, bank, name) ==> is_open_in(u, bank, name)
}

/// An account of a bank with the name has the other, and neither is deleted.
pub open spec fn is_open_in(t: Tables, bank: Seq<char>, name: Seq<char>) -> bool {
    exists|k: i64| #[trigger]
        t.banks.contains_key(k) && t.banks[k].name@ == bank && t.banks[k].deleted_at is None
            && is_open_account(t, k, name)
}

/// A bank of the name is there and not deleted.
pub open spec fn is_open_bank(t: Tables, name: Seq<char>) -> bool {
    exists|k: i64| #[trigger]
        t.banks.contains_key(k) && t.banks[k].name@ == name && t.banks[k].deleted_at is None
}

proof fn lemma_banks(
    t: Tables,
    r: RefreshReport,
    banks: Seq<BankImport>,
    batch_id: i64,
    u: Tables,
    s: RefreshReport,
)
    requires
        banks_taken(t, r, banks, batch_id, u, s),
    ensures
        counted(t, r, u, s),
        banks_follow(t, u, banks),
    decreases banks.len(),
{
    if banks.len() > 0 {
        let rest = banks.drop_last();
        let bank = banks.last();
        let (w, q) = choose|w: Tables, q: RefreshReport|
            banks_taken(t, r, banks.drop_last(), batch_id, w, q) && #[trigger] bank_step(
                w,
                q,
                banks.last(),
                batch_id,
                u,
                s,
            );
        lemma_banks(t, r, rest, batch_id, w, q);
        let (id, created, x) = choose|id: i64, created: bool, x: Tables|
            {
                &&& #[trigger] w.bank_made(bank.name@, id, created, x)
                &&& accounts_taken(
                    x,
                    bank_counted(q, created),
                    id,
                    bank.accounts@,
                    batch_id,
                    u,
                    s,
                )
            };
        let y = bank_counted(q, created);
        lemma_accounts(x, y, id, bank.accounts@, batch_id, u, s);
        assert(x.banks.dom() =~= if created {
            w.banks.dom().insert(id)
        } else {
            w.banks.dom()
        });
        assert(created ==> !w.banks.contains_key(id));
        assert(counted(w, q, x, y));
        lemma_counted_on(w, q, x, y, u, s);
        lemma_counted_on(t, r, w, q, u, s);
        assert(banks[banks.len() - 1] == bank);
        assert forall|name: Seq<char>| #[trigger] has_bank_folder(rest, name) implies
            has_bank_folder(banks, name) by {
            let i = choose|i: int| 0 <= i < rest.len() && (#[trigger] rest[i]).name@ == name;
            assert(banks[i].name@ == name);
        }
        assert forall|b: Seq<char>, name: Seq<char>| #[trigger] has_folder_in(rest, b, name) implies
            has_folder_in(banks, b, name) by {
            let i = choose|i: int|
                0 <= i < rest.len() && (#[trigger] rest[i]).name@ == b && has_account_folder(
                    rest[i].accounts@,
                    name,
                );
            assert(banks[i].name@ == b);
        }
        assert(has_bank_folder(banks, bank.name@));
        assert forall|name: Seq<char>| #[trigger]
            has_account_folder(bank.accounts@, name) implies has_folder_in(
            banks,
            bank.name@,
            name,
        ) by {}
        lemma_bank_follows(t, w, x, u, banks, bank, id);
    }
}

proof fn lemma_bank_follows(
    t: Tables,
    w: Tables,
    x: Tables,
    u: Tables,
    banks: Seq<BankImport>,
    bank: BankImport,
    id: i64,
)
    requires
        banks.len() > 0,
        bank == banks.last(),
        banks_follow(t, w, banks.drop_last()),
        x == (Tables { banks: w.banks.insert(id, x.banks[id]), ..w }),
        x.banks[id].name@ == bank.name@,
        x.banks[id].deleted_at is None,
        w.banks.contains_key(id) ==> w.banks[id].name@ == bank.name@,
        u.banks == x.banks,
        accounts_follow(x, u, id, bank.accounts@),
        has_bank_folder(banks, bank.name@),
        forall|name: Seq<char>| #[trigger]
            has_bank_folder(banks.drop_last(), name) ==> has_bank_folder(banks, name),
        forall|b: Seq<char>, name: Seq<char>| #[trigger]
            has_folder_in(banks.drop_last(), b, name) ==> has_folder_in(banks, b, name),
        forall|name: Seq<char>| #[trigger]
            has_account_folder(bank.accounts@, name) ==> has_folder_in(banks, bank.name@, name),
    ensures
        banks_follow(t, u, banks),
{
    let rest = banks.drop_last();
    assert forall|k: i64| #[trigger] t.banks.contains_key(k) implies {
        let (was, is) = (t.banks[k], u.banks[k]);
        &&& u.banks.contains_key(k)
        &&& is.name@ == was.name@
        &&& is == was || is.deleted_at is None
        &&& !has_bank_folder(banks, was.name@) ==> is == was
    } by {
        assert(w.banks.contains_key(k));
    }
    assert forall|k: i64| #[trigger] u.banks.contains_key(k) && !t.banks.contains_key(k) implies
        u.banks[k].deleted_at is None && has_bank_folder(banks, u.banks[k].name@) by {
        if k != id {
            assert(w.banks.contains_key(k));
        }
    }
    assert forall|k: i64| #[trigger] t.accounts.contains_key(k) implies {
        let (was, is) = (t.accounts[k], u.accounts[k]);
        &&& u.accounts.contains_key(k)
        &&& is.bank_id == was.bank_id && is.name@ == was.name@
        &&& is == was || is.deleted_at is None
        &&& !(u.banks.contains_key(was.bank_id) && has_folder_in(
            banks,
            u.banks[was.bank_id].name@,
            was.name@,
        )) ==> is == was
    } by {
        assert(w.accounts.contains_key(k));
        assert(x.accounts.contains_key(k));
        let was = t.accounts[k];
        if !(u.banks.contains_key(was.bank_id) && has_folder_in(
            banks,
            u.banks[was.bank_id].name@,
            was.name@,
        )) {
            if was.bank_id == id {
                assert(!has_account_folder(bank.accounts@, was.name@));
            }
            if w.banks.contains_key(was.bank_id) {
                assert(w.banks[was.bank_id].name@ == u.banks[was.bank_id].name@);
                assert(!has_folder_in(rest, w.banks[was.bank_id].name@, was.name@));
            }
        }
    }
    assert forall|k: i64| #[trigger]
        u.accounts.contains_key(k) && !t.accounts.contains_key(k) implies {
        let is = u.accounts[k];
        &&& is.deleted_at is None
        &&& u.banks.contains_key(is.bank_id)
        &&& has_folder_in(banks, u.banks[is.bank_id].name@, is.name@)
    } by {
        if x.accounts.contains_key(k) {
            assert(w.accounts.contains_key(k));
        }
    }
    assert forall|i: int| 0 <= i < banks.len() implies is_open_bank(
        u,
        (#[trigger] banks[i]).name@,
    ) by {
        if i < rest.len() {
            assert(is_open_bank(w, rest[i].name@));
            let k = choose|k: i64| #[trigger]
                w.banks.contains_key(k) && w.banks[k].name@ == rest[i].name@
                    && w.banks[k].deleted_at is None;
            assert(u.banks.contains_key(k));
        } else {
            assert(u.banks.contains_key(id));
        }
    }
    assert forall|b: Seq<char>, name: Seq<char>| #[trigger]
        has_folder_in(banks, b, name) implies is_open_in(u, b, name) by {
        let i = choose|i: int|
            0 <= i < banks.len() && (#[trigger] banks[i]).name@ == b && has_account_folder(
                banks[i].accounts@,
                name,
            );
        if i < rest.len() {
            assert(rest[i] == banks[i]);
            assert(has_folder_in(rest, b, name));
            let k = choose|k: i64| #[trigger]
                w.banks.contains_key(k) && w.banks[k].name@ == b && w.banks[k].deleted_at is None
                    && is_open_account(w, k, name);
            let a = choose|a: i64| #[trigger]
                w.accounts.contains_key(a) && w.accounts[a].bank_id == k && w.accounts[a].name@
                    == name && w.accounts[a].deleted_at is None;
            assert(x.accounts.contains_key(a));
            assert(u.accounts.contains_key(a));
            assert(is_open_account(u, k, name));
            assert(u.banks.contains_key(k));
        } else {
            assert(is_open_account(u, id, name));
            assert(u.banks.contains_key(id));
        }
    }
}

/// No two folders of banks have one name.
pub open spec fn folders_differ(banks: Seq<BankImport>) -> bool {
    forall|i: int, j: int|
        0 <= i < j < banks.len() ==> (#[trigger] banks[i]).name@ != (#[trigger] banks[j]).name@
}

/// The bank was open and has no folder.
pub open spec fn loses_bank(t: Tables, banks: Seq<BankImport>, id: i64) -> bool {
    t.banks.contains_key(id) && t.banks[id].deleted_at is None && !has_bank_folder(
        banks,
        t.banks[id].name@,
    )
}

/// The account was not deleted and has no folder, though its bank has one.
pub open spec fn loses_account(t: Tables, banks: Seq<BankImport>, id: i64) -> bool {
    let a = t.accounts[id];
    &&& t.accounts.contains_key(id)
    &&& a.deleted_at is None
    &&& t.banks.contains_key(a.bank_id)
    &&& has_bank_folder(banks, t.banks[a.bank_id].name@)
    &&& !has_folder_in(banks, t.banks[a.bank_id].name@, a.name@)
}

/// A refresh deletes what has no folder any more, at the time of the refresh, and counts
/// it: banks without a folder, and accounts without one in their bank's. Every bank and
/// account with a folder is open. The new banks, accounts and transactions are counted,
/// as long as the counts are below the largest there is, and none goes.
pub proof fn a_refresh_follows_the_folders(
    t: Tables,
    banks: Seq<BankImport>,
    batch_id: i64,
    now: Timestamp,
    u: Tables,
    report: RefreshReport,
    id: i64,
    bank: Seq<char>,
    name: Seq<char>,
)
    requires
        t.names_differ(),
        forall|k: i64| #[trigger]
            t.accounts.contains_key(k) ==> t.banks.contains_key(t.accounts[k].bank_id),
        folders_differ(banks),
        t.refreshed(banks, batch_id, now, u, report),
    ensures
        report.banks_deleted == Set::new(|k: i64| loses_bank(t, banks, k)).len() as usize,
        report.accounts_deleted == Set::new(|k: i64| loses_account(t, banks, k)).len() as usize,
        loses_bank(t, banks, id) ==> u.banks.contains_key(id) && u.banks[id] == (Bank {
            deleted_at: Some(now),
            ..t.banks[id]
        }),
        loses_account(t, banks, id) ==> u.accounts.contains_key(id) && u.accounts[id] == (Account {
            deleted_at: Some(now),
            ..t.accounts[id]
        }),
        has_bank_folder(banks, bank) ==> is_open_bank(u, bank),
        has_folder_in(banks, bank, name) ==> is_open_in(u, bank, name),
        t.banks.dom().finite() && report.banks_added < usize::MAX ==> u.banks.dom().len()
            == t.banks.dom().len() + report.banks_added,
        t.accounts.dom().finite() && report.accounts_added < usize::MAX ==> u.accounts.dom().len()
            == t.accounts.dom().len() + report.accounts_added,
        t.transactions.dom().finite() && report.transactions_added < usize::MAX
            ==> u.transactions.dom().len() == t.transactions.dom().len()
            + report.transactions_added,
        t.banks.dom().subset_of(u.banks.dom()),
        t.accounts.dom().subset_of(u.accounts.dom()),
{
    let (w, q) = choose|w: Tables, q: RefreshReport|
        {
            let v = w.without_banks(w.lost_banks(banks), now);
            &&& #[trigger] banks_taken(t, blank_report(), banks, batch_id, w, q)
            &&& u == v.without_accounts(v.lost_accounts(banks), now)
            &&& report == (RefreshReport {
                banks_deleted: w.lost_banks(banks).len() as usize,
                accounts_deleted: v.lost_accounts(banks).len() as usize,
                ..q
            })
        };
    let v = w.without_banks(w.lost_banks(banks), now);
    lemma_banks(t, blank_report(), banks, batch_id, w, q);
    refreshing_loses_nothing(t, banks, batch_id, now, u, report);
    assert(u.banks.dom() =~= w.banks.dom());
    assert(u.accounts.dom() =~= w.accounts.dom());
    assert forall|b: Seq<char>| has_bank_folder(banks, b) == #[trigger] bank_found(banks, b) by {}
    assert forall|k: i64| w.lost_banks(banks).contains(k) == #[trigger] loses_bank(t, banks, k) by {
        assert(bank_found(banks, w.banks[k].name@) == has_bank_folder(banks, w.banks[k].name@));
        if w.banks.contains_key(k) && t.banks.contains_key(k) {
            assert(bank_found(banks, t.banks[k].name@) == has_bank_folder(banks, t.banks[k].name@));
        }
    }
    assert(w.lost_banks(banks) =~= Set::new(|k: i64| loses_bank(t, banks, k)));
    assert forall|b: Seq<char>, n: Seq<char>|
        #![trigger account_missing(banks, b, n)]
        account_missing(banks, b, n) == (has_bank_folder(banks, b) && !has_folder_in(
            banks,
            b,
            n,
        )) by {
        if has_bank_folder(banks, b) && !has_folder_in(banks, b, n) {
            let i = choose|i: int| 0 <= i < banks.len() && (#[trigger] banks[i]).name@ == b;
            assert(!has_account_folder(banks[i].accounts@, n));
            assert(!account_found(banks[i].accounts@, n));
        }
        if account_missing(banks, b, n) {
            let i = choose|i: int|
                0 <= i < banks.len() && (#[trigger] banks[i]).name@ == b && !account_found(
                    banks[i].accounts@,
                    n,
                );
            if has_folder_in(banks, b, n) {
                let j = choose|j: int|
                    0 <= j < banks.len() && (#[trigger] banks[j]).name@ == b && has_account_folder(
                        banks[j].accounts@,
                        n,
                    );
                assert(i == j) by {
                    if i < j {
                        assert(banks[i].name@ != banks[j].name@);
                    } else if j < i {
                        assert(banks[j].name@ != banks[i].name@);
                    }
                }
            }
        }
    }
    // A bank with a folder is open.
    assert forall|k: i64|
        #![trigger w.banks.contains_key(k)]
        w.banks.contains_key(k) && has_bank_folder(banks, w.banks[k].name@) implies
        w.banks[k].deleted_at is None && v.banks[k] == w.banks[k] by {
        let b = w.banks[k].name@;
        assert(bank_found(banks, b));
        let i = choose|i: int| 0 <= i < banks.len() && (#[trigger] banks[i]).name@ == b;
        assert(is_open_bank(w, banks[i].name@));
        let m = choose|m: i64| #[trigger]
            w.banks.contains_key(m) && w.banks[m].name@ == b && w.banks[m].deleted_at is None;
        assert(u.banks.contains_key(k) && u.banks.contains_key(m));
        assert(u.banks[k].name@ == u.banks[m].name@);
        assert(k == m);
    }
    assert forall|k: i64| v.lost_accounts(banks).contains(k) == #[trigger] loses_account(
        t,
        banks,
        k,
    ) by {
        let a = w.accounts[k];
        if v.lost_accounts(banks).contains(k) {
            let b = v.banks[a.bank_id].name@;
            assert(account_missing(banks, b, a.name@));
            assert(w.banks.contains_key(a.bank_id));
            assert(!has_folder_in(banks, w.banks[a.bank_id].name@, a.name@));
            assert(t.accounts.contains_key(k));
        }
        if loses_account(t, banks, k) {
            let was = t.accounts[k];
            assert(w.banks.contains_key(was.bank_id));
            assert(w.banks[was.bank_id].name@ == t.banks[was.bank_id].name@);
            assert(account_missing(banks, w.banks[was.bank_id].name@, was.name@));
        }
    }
    assert(v.lost_accounts(banks) =~= Set::new(|k: i64| loses_account(t, banks, k)));
    if has_bank_folder(banks, bank) {
        let i = choose|i: int| 0 <= i < banks.len() && (#[trigger] banks[i]).name@ == bank;
        assert(is_open_bank(w, banks[i].name@));
        let m = choose|m: i64| #[trigger]
            w.banks.contains_key(m) && w.banks[m].name@ == bank && w.banks[m].deleted_at is None;
        assert(u.banks.contains_key(m));
    }
    if has_folder_in(banks, bank, name) {
        let k = choose|k: i64| #[trigger]
            w.banks.contains_key(k) && w.banks[k].name@ == bank && w.banks[k].deleted_at is None
                && is_open_account(w, k, name);
        let a = choose|a: i64| #[trigger]
            w.accounts.contains_key(a) && w.accounts[a].bank_id == k && w.accounts[a].name@ == name
                && w.accounts[a].deleted_at is None;
        assert(has_bank_folder(banks, bank));
        assert(!v.lost_accounts(banks).contains(a)) by {
            assert(account_missing(banks, bank, name) == false);
        }
        assert(u.accounts.contains_key(a));
        assert(is_open_account(u, k, name));
        assert(u.banks.contains_key(k));
    }
}


/// A file whose contents were imported into the account before changes nothing and
/// counts nothing. Any other is counted, its contents are listed as imported behind those
/// before, and each of its transactions has a row in the account.
pub proof fn a_file_is_taken_in_once(
    t: Tables,
    r: RefreshReport,
    account_id: i64,
    file: FileImport,
    batch_id: i64,
    u: Tables,
    s: RefreshReport,
    i: int,
)
    requires
        file_step(t, r, account_id, file, batch_id, u, s),
        0 <= i < file.transactions@.len(),
    ensures
        ({
            let (was, is) = (listed(t.files, account_id), listed(u.files, account_id));
            if was.contains(file.content_hash@) {
                u == t && s == r
            } else {
                let raw = file.transactions@[i];
                &&& is == was.push(file.content_hash@)
                &&& r.files_processed < usize::MAX ==> s.files_processed == r.files_processed + 1
                &&& exists|k: i64| #[trigger]
                    u.transactions.contains_key(k) && is_of(u.transactions[k], account_id, raw)
            }
        }),
{
    if !listed(t.files, account_id).contains(file.content_hash@) {
        let w = choose|w: Tables|
            {
                &&& #[trigger] took_in(
                    t,
                    file_counted(r),
                    account_id,
                    file.transactions@,
                    file.path@,
                    batch_id,
                    w,
                    s,
                )
                &&& u == (Tables {
                    files: w.files.insert(
                        account_id,
                        listed(w.files, account_id).push(file.content_hash@),
                    ),
                    ..w
                })
            };
        lemma_took_in(
            t,
            file_counted(r),
            account_id,
            file.transactions@,
            file.path@,
            batch_id,
            w,
            s,
        );
        each_transaction_is_counted_once(
            t,
            file_counted(r),
            account_id,
            file.transactions@,
            file.path@,
            batch_id,
            w,
            s,
            i,
        );
        let raw = file.transactions@[i];
        let k = choose|k: i64| #[trigger]
            w.transactions.contains_key(k) && is_of(w.transactions[k], account_id, raw);
        assert(u.transactions.contains_key(k));
    }
}

/// The three counts of transactions together.
pub open spec fn all_counted(r: RefreshReport) -> int {
    r.transactions_added + r.transactions_updated + r.transactions_skipped
}

/// Each transaction that is taken in is counted once, as added, updated or skipped, and
/// has a row in the account.
pub proof fn each_transaction_is_counted_once(
    t: Tables,
    r: RefreshReport,
    account_id: i64,
    raws: Seq<RawTransaction>,
    path: Seq<char>,
    batch_id: i64,
    u: Tables,
    s: RefreshReport,
    i: int,
)
    requires
        took_in(t, r, account_id, raws, path, batch_id, u, s),
        0 <= i < raws.len(),
    ensures
        s.transactions_added < usize::MAX && s.transactions_updated < usize::MAX
            && s.transactions_skipped < usize::MAX ==> all_counted(s) == all_counted(r)
            + raws.len(),
        s == (RefreshReport {
            transactions_added: s.transactions_added,
            transactions_updated: s.transactions_updated,
            transactions_skipped: s.transactions_skipped,
            ..r
        }),
        exists|k: i64| #[trigger]
            u.transactions.contains_key(k) && is_of(u.transactions[k], account_id, raws[i]),
    decreases raws.len(),
{
    let last = raws.last();
    let rest = raws.drop_last();
    let (mid, m, outcome) = choose|mid: Tables, m: RefreshReport, outcome: ImportOutcome|
        {
            &&& took_in(t, r, account_id, raws.drop_last(), path, batch_id, mid, m)
            &&& date_of(raws.last().date@) is Some
            &&& #[trigger] mid.took(
                account_id,
                date_of(raws.last().date@)->0,
                raws.last(),
                path,
                batch_id,
                outcome,
                u,
            )
            &&& s == #[trigger] tallied(m, outcome)
        };
    let date = date_of(last.date@)->0;
    a_new_hash_is_a_new_row(mid, account_id, date, last, path, batch_id, outcome, u);
    importing_leaves_a_row(mid, account_id, date, last, path, batch_id, outcome, u);
    if rest.len() > 0 {
        each_transaction_is_counted_once(
            t,
            r,
            account_id,
            rest,
            path,
            batch_id,
            mid,
            m,
            if i < rest.len() {
                i
            } else {
                0
            },
        );
    }
    if i < rest.len() {
        assert(rest[i] == raws[i]);
        let k = choose|k: i64| #[trigger]
            mid.transactions.contains_key(k) && is_of(mid.transactions[k], account_id, raws[i]);
        assert(u.transactions.contains_key(k));
    } else {
        let k = choose|k: i64| #[trigger] u.imported_as(k, account_id, last.identity()@);
        assert(u.transactions.contains_key(k) && is_of(u.transactions[k], account_id, last));
    }
}

/// A date is read as an ISO date where it can be, and else as day, month and year.
pub proof fn dates_are_read_iso_first(text: Seq<char>)
    ensures
        date_of(text) == match read_date(text, "%Y-%m-%d"@) {
            Some(d) => Some(d),
            None => read_date(text, "%d/%m/%Y"@),
        },
{
}

} // verus!
