//! Account management: list/lookup by id or path, per-account transaction
//! counts and listings, and rename/move/delete.
//!
//! An account's exports folder moves with it. The folder is moved between
//! [`TransactionStore::claim_account_path`] and
//! [`TransactionStore::move_account`], so a filesystem failure leaves the
//! tables untouched.

use std::collections::HashMap;

use vstd::prelude::*;
use vstd::std_specs::hash::*;
use vstd::string::*;

use super::enrichments::lemma_same_transfers;
use super::order::{
    by_name, lemma_by_name_total, lemma_by_name_transitive, lemma_newest_first, name_leq, newer,
    newest_first,
};
use super::select::{
    keys_of, lemma_take_contains, lists, lists_up_to, select, select_keys, selection,
};
use super::{
    fresh_id, is_fresh, journal_goes_on, journal_starts, journalled, lemma_same_text, Error, Tables,
    TransactionStore,
};
use crate::model::{Account, AccountWithBank, Bank, Timestamp, Transaction};
use crate::sort::{total, transitive};
use crate::text::{
    decimal_int, has_char, int_string, lemma_lex_total, lemma_lex_transitive, lex_le, lex_leq,
    parted, same, split_once, trim, trimmed,
};

verus! {

broadcast use group_hash_axioms;

/// Where an account's folder is, and where it goes.
#[derive(Debug)]
pub struct AccountMove {
    pub old_bank: String,
    pub old_name: String,
    pub new_bank: String,
    pub new_name: String,
}

/// The bank and the account that a path names.
pub open spec fn named_account(path: Seq<char>) -> Option<(Seq<char>, Seq<char>)> {
    match parted(path, '/') {
        Some(p) => if trimmed(p.0).len() > 0 && trimmed(p.1).len() > 0 {
            Some((trimmed(p.0), trimmed(p.1)))
        } else {
            None
        },
        None => None,
    }
}

/// A path with exactly one slash between a bank and an account.
pub open spec fn proper_path(path: Seq<char>) -> bool {
    named_account(path) is Some && (parted(path, '/') matches Some(p) && parted(p.1, '/') is None)
}

impl Tables {
    /// The bank's name; empty where there is none.
    pub open spec fn bank_name_of(self, a: Account) -> Seq<char> {
        if self.banks.contains_key(a.bank_id) {
            self.banks[a.bank_id].name@
        } else {
            Seq::empty()
        }
    }

    /// Neither the account nor its bank is deleted.
    pub open spec fn open_account(self) -> spec_fn(Account) -> bool {
        |a: Account|
            a.deleted_at is None && self.banks.contains_key(a.bank_id)
                && self.banks[a.bank_id].deleted_at is None
    }

    /// The account with the id is not deleted, nor its bank.
    pub open spec fn is_open(self, id: i64) -> bool {
        self.accounts.contains_key(id) && self.open_account()(self.accounts[id])
    }

    /// The row shows the account with its bank.
    pub open spec fn shows_account(self, id: i64, row: AccountWithBank) -> bool {
        let a = self.accounts[id];
        &&& row.id == id
        &&& row.bank_id == a.bank_id
        &&& row.bank_name@ == self.bank_name_of(a)
        &&& row.name@ == a.name@
        &&& row.path@ == self.bank_name_of(a) + "/"@ + a.name@
    }

    /// The account is open and has the bank's and its own name.
    pub open spec fn is_named(self, id: i64, bank: Seq<char>, name: Seq<char>) -> bool {
        self.is_open(id) && self.bank_name_of(self.accounts[id]) == bank && self.accounts[id].name@
            == name
    }

    /// Accounts by bank, then by name.
    pub open spec fn by_bank(self) -> spec_fn(Account, Account) -> bool {
        |a: Account, b: Account|
            if self.bank_name_of(a) == self.bank_name_of(b) {
                by_name(a.name@, a.id, b.name@, b.id)
            } else {
                lex_le(self.bank_name_of(a), self.bank_name_of(b))
            }
    }

    /// The transactions of an account, deleted or not.
    pub open spec fn holdings(self, account_id: i64) -> Set<i64> {
        Set::new(
            |tx: i64|
                self.transactions.contains_key(tx) && self.transactions[tx].account_id
                    == account_id,
        )
    }

    /// The transactions of an account that is not deleted.
    pub open spec fn in_account(self, account_id: i64) -> spec_fn(Transaction) -> bool {
        |tx: Transaction| self.live(tx) && tx.account_id == account_id
    }

    /// The account, deleted or not, has the bank's and its own name.
    pub open spec fn stands_at(self, id: i64, bank: Seq<char>, name: Seq<char>) -> bool {
        &&& self.accounts.contains_key(id)
        &&& self.banks.contains_key(self.accounts[id].bank_id)
        &&& self.banks[self.accounts[id].bank_id].name@ == bank
        &&& self.accounts[id].name@ == name
    }

    /// Another account has the path, deleted or not.
    pub open spec fn place_taken(self, bank: Seq<char>, name: Seq<char>, account_id: i64) -> bool {
        exists|id: i64| id != account_id && #[trigger] self.stands_at(id, bank, name)
    }

    /// The tables after a bank of the name was found, brought back or made.
    pub open spec fn bank_made(
        self,
        name: Seq<char>,
        id: i64,
        created: bool,
        next: Tables,
    ) -> bool {
        let row = next.banks[id];
        &&& next == (Tables { banks: self.banks.insert(id, row), ..self })
        &&& row.id == id && row.name@ == name && row.deleted_at is None
        &&& if created {
            is_fresh(self.banks, id) && !self.has_bank(name)
        } else {
            self.banks.contains_key(id) && self.banks[id].name@ == name
        }
    }

    /// There is a bank of the name, deleted or not.
    pub open spec fn has_bank(self, name: Seq<char>) -> bool {
        exists|id: i64| #[trigger] self.banks.contains_key(id) && self.banks[id].name@ == name
    }
}

proof fn lemma_by_bank(t: Tables)
    ensures
        total(t.by_bank()),
        transitive(t.by_bank()),
{
    let order = t.by_bank();
    assert forall|a: Account, b: Account| #[trigger] order(a, b) || order(b, a) by {
        lemma_lex_total(t.bank_name_of(a), t.bank_name_of(b));
        lemma_by_name_total(a.name@, a.id, b.name@, b.id);
    }
    assert forall|a: Account, b: Account, c: Account| #[trigger] order(a, b) && #[trigger] order(
        b,
        c,
    ) implies order(a, c) by {
        let (x, y, z) = (t.bank_name_of(a), t.bank_name_of(b), t.bank_name_of(c));
        if x == y && y == z {
            lemma_by_name_transitive(a.name@, a.id, b.name@, b.id, c.name@, c.id);
        } else if x != y && y != z {
            lemma_lex_transitive(x, y, z);
            lemma_lex_total(x, y);
        }
    }
}

/// The message for every path that is refused.
pub open spec fn path_hint() -> Seq<char> {
    "expected Bank/Account with a single '/'; account names cannot contain '/'"@
}

fn invalid_path() -> (e: Error)
    ensures
        e matches Error::InvalidAccountPath(m) && m@ == path_hint(),
{
    Error::InvalidAccountPath(
        "expected Bank/Account with a single '/'; account names cannot contain '/'".to_owned(),
    )
}

impl TransactionStore {
    pub(crate) fn bank_name_at(&self, bank_id: i64) -> (name: &str)
        ensures
            name@ == if self@.banks.contains_key(bank_id) {
                self@.banks[bank_id].name@
            } else {
                Seq::empty()
            },
    {
        match self.bank_row(bank_id) {
            Some(bank) => bank.name.as_str(),
            None => {
                proof {
                    reveal_strlit("");
                    assert(""@ =~= Seq::empty());
                }
                ""
            },
        }
    }

    pub(crate) fn is_account_open(&self, a: &Account) -> (yes: bool)
        ensures
            yes == self@.open_account()(*a),
    {
        a.deleted_at.is_none() && match self.bank_row(a.bank_id) {
            Some(bank) => bank.deleted_at.is_none(),
            None => false,
        }
    }

    fn with_bank(&self, a: &Account) -> (row: AccountWithBank)
        ensures
            row.id == a.id,
            row.bank_id == a.bank_id,
            row.bank_name@ == self@.bank_name_of(*a),
            row.name@ == a.name@,
            row.path@ == self@.bank_name_of(*a) + "/"@ + a.name@,
    {
        let bank_name = self.bank_name_at(a.bank_id).to_owned();
        let mut path = bank_name.clone();
        path.append("/");
        path.append(&a.name);
        AccountWithBank { id: a.id, bank_id: a.bank_id, bank_name, name: a.name.clone(), path }
    }

    /// List live accounts (bank and account both un-deleted), ordered by
    /// bank then account name.
    pub fn list_accounts_with_bank(&self) -> (rows: Vec<AccountWithBank>)
        requires
            self@.keyed(),
        ensures
            exists|keys: Seq<i64>| #[trigger]
                selection(keys, self@.accounts, self@.open_account(), self@.by_bank())
                    && rows@.len() == keys.len() && forall|i: int|
                    0 <= i < keys.len() ==> self@.shows_account(keys[i], #[trigger] rows@[i]),
    {
        let keep = |a: &Account| -> (b: bool)
            ensures
                b == self@.open_account()(*a),
        { self.is_account_open(a) };
        let in_order = |a: &Account, b: &Account| -> (le: bool)
            ensures
                le == self@.by_bank()(*a, *b),
        { self.bank_leq(a, b) };
        proof {
            lemma_by_bank(self@);
        }
        let keys = select_keys(
            self.account_table(),
            keep,
            in_order,
            Ghost(self@.open_account()),
            Ghost(self@.by_bank()),
        );
        let mut rows: Vec<AccountWithBank> = Vec::new();
        let mut i: usize = 0;
        while i < keys.len()
            invariant
                i <= keys@.len(),
                self@.keyed(),
                selection(keys@, self@.accounts, self@.open_account(), self@.by_bank()),
                rows@.len() == i,
                forall|j: int|
                    0 <= j < i ==> self@.shows_account(keys@[j], #[trigger] rows@[j]),
            decreases keys@.len() - i,
        {
            let k: i64 = keys[i];
            assert(keys@.contains(keys@[i as int]));
            if let Some(a) = self.account_row(k) {
                rows.push(self.with_bank(a));
            }
            i += 1;
        }
        rows
    }

    /// The live accounts, ordered by bank then account name.
    pub fn list_open_accounts(&self) -> (rows: Vec<Account>)
        ensures
            lists(rows@, self@.accounts, self@.open_account(), self@.by_bank()),
    {
        let keep = |a: &Account| -> (b: bool)
            ensures
                b == self@.open_account()(*a),
        { self.is_account_open(a) };
        let in_order = |a: &Account, b: &Account| -> (le: bool)
            ensures
                le == self@.by_bank()(*a, *b),
        { self.bank_leq(a, b) };
        proof {
            lemma_by_bank(self@);
        }
        select(
            self.account_table(),
            keep,
            in_order,
            None,
            Ghost(self@.open_account()),
            Ghost(self@.by_bank()),
        )
    }

    fn bank_leq(&self, a: &Account, b: &Account) -> (le: bool)
        ensures
            le == self@.by_bank()(*a, *b),
    {
        let x = self.bank_name_at(a.bank_id);
        let y = self.bank_name_at(b.bank_id);
        if same(x, y) {
            name_leq(&a.name, a.id, &b.name, b.id)
        } else {
            lex_leq(x, y)
        }
    }

    /// Get a live account by id.
    pub fn get_account_with_bank(&self, id: i64) -> (row: Option<AccountWithBank>)
        requires
            self@.keyed(),
        ensures
            match row {
                Some(r) => self@.is_open(id) && self@.shows_account(id, r),
                None => !self@.is_open(id),
            },
    {
        match self.account_row(id) {
            Some(a) => if self.is_account_open(a) {
                Some(self.with_bank(a))
            } else {
                None
            },
            None => None,
        }
    }

    /// Get a live account by its "Bank/Account" path. A path without exactly one
    /// usable `/`-separated bank and account segment resolves to `None` rather
    /// than an error.
    pub fn get_account_by_path(&self, path: &str) -> (row: Option<AccountWithBank>)
        requires
            self@.keyed(),
        ensures
            match (named_account(trimmed(path@)), row) {
                (Some(p), Some(r)) => proper_path(trimmed(path@)) && self@.is_named(r.id, p.0, p.1)
                    && self@.shows_account(r.id, r),
                (Some(p), None) => proper_path(trimmed(path@)) ==> forall|id: i64|
                    !#[trigger] self@.is_named(id, p.0, p.1),
                (None, row) => row is None,
            },
    {
        let (left, right): (&str, &str) = match split_once(trim(path), '/') {
            Some(p) => p,
            None => return None,
        };
        if has_char(right, '/') {
            return None;
        }
        let (bank, name): (&str, &str) = (trim(left), trim(right));
        if bank.is_empty() || name.is_empty() {
            return None;
        }
        let keys = keys_of(self.account_table());
        let mut i: usize = 0;
        while i < keys.len()
            invariant
                i <= keys@.len(),
                self@.keyed(),
                named_account(trimmed(path@)) == Some((bank@, name@)),
                proper_path(trimmed(path@)),
                forall|k: i64| #[trigger] keys@.contains(k) <==> self@.accounts.contains_key(k),
                forall|j: int| 0 <= j < i ==> !self@.is_named(#[trigger] keys@[j], bank@, name@),
            decreases keys@.len() - i,
        {
            let k: i64 = keys[i];
            assert(keys@.contains(keys@[i as int]));
            if let Some(a) = self.account_row(k) {
                if self.is_account_open(a) && same(self.bank_name_at(a.bank_id), bank) && same(
                    &a.name,
                    name,
                ) {
                    return Some(self.with_bank(a));
                }
            }
            i += 1;
        }
        assert forall|id: i64| !#[trigger] self@.is_named(id, bank@, name@) by {
            if self@.accounts.contains_key(id) {
                assert(keys@.contains(id));
                let j = choose|j: int| 0 <= j < keys@.len() && keys@[j] == id;
                assert(!self@.is_named(keys@[j], bank@, name@));
            }
        }
        None
    }

    /// Count transactions in an account.
    pub fn count_transactions_in_account(&self, id: i64) -> (n: usize)
        ensures
            n == self@.holdings(id).len(),
    {
        let keys = keys_of(self.transaction_table());
        let mut n: usize = 0;
        let mut i: usize = 0;
        let ghost mut seen: Set<i64> = Set::empty();
        while i < keys.len()
            invariant
                i <= keys@.len(),
                keys@.no_duplicates(),
                forall|k: i64| #[trigger]
                    keys@.contains(k) <==> self@.transactions.contains_key(k),
                n <= i,
                seen.finite(),
                n == seen.len(),
                forall|k: i64| #[trigger]
                    seen.contains(k) <==> keys@.take(i as int).contains(k) && self@.holdings(
                        id,
                    ).contains(k),
            decreases keys@.len() - i,
        {
            let k: i64 = keys[i];
            assert(keys@.contains(keys@[i as int]));
            proof {
                lemma_take_contains(keys@, i as int);
                assert(!keys@.take(i as int).contains(k));
            }
            if let Some(tx) = self.transaction_row(k) {
                if tx.account_id == id {
                    n += 1;
                    proof {
                        seen = seen.insert(k);
                    }
                }
            }
            i += 1;
        }
        proof {
            assert(keys@.take(i as int) =~= keys@);
            assert(seen =~= self@.holdings(id));
        }
        n
    }

    /// Transaction counts keyed by account id. Accounts with zero transactions
    /// are absent from the map.
    pub fn get_account_transaction_counts(&self) -> (counts: HashMap<i64, usize>)
        ensures
            forall|a: i64| #[trigger]
                counts@.contains_key(a) <==> self@.holdings(a).len() > 0,
            forall|a: i64| #[trigger]
                counts@.contains_key(a) ==> counts@[a] == self@.holdings(a).len(),
    {
        let keys = keys_of(self.transaction_table());
        let mut counts: HashMap<i64, usize> = HashMap::new();
        let mut i: usize = 0;
        while i < keys.len()
            invariant
                i <= keys@.len(),
                forall|k: i64| #[trigger]
                    keys@.contains(k) <==> self@.transactions.contains_key(k),
                forall|j: int|
                    0 <= j < i ==> counts@.contains_key(
                        self@.transactions[#[trigger] keys@[j]].account_id,
                    ),
                forall|a: i64| #[trigger]
                    counts@.contains_key(a) ==> counts@[a] == self@.holdings(a).len() && exists|
                        tx: i64,
                    | #[trigger]
                        self@.holdings(a).contains(tx),
            decreases keys@.len() - i,
        {
            let k: i64 = keys[i];
            assert(keys@.contains(keys@[i as int]));
            if let Some(tx) = self.transaction_row(k) {
                let a: i64 = tx.account_id;
                assert(self@.holdings(a).contains(k));
                if !counts.contains_key(&a) {
                    counts.insert(a, self.count_transactions_in_account(a));
                }
            }
            i += 1;
        }
        proof {
            assert forall|a: i64| #[trigger] counts@.contains_key(a) <==> self@.holdings(a).len()
                > 0 by {
                lemma_holdings(self@, keys@, a);
                if counts@.contains_key(a) {
                    let tx = choose|tx: i64| #[trigger] self@.holdings(a).contains(tx);
                    assert(self@.holdings(a).contains(tx));
                    vstd::set_lib::axiom_is_empty(self@.holdings(a));
                }
                if self@.holdings(a).len() > 0 {
                    let tx = self@.holdings(a).choose();
                    assert(self@.holdings(a).contains(tx));
                    assert(keys@.contains(tx));
                    let j = choose|j: int| 0 <= j < keys@.len() && keys@[j] == tx;
                    assert(counts@.contains_key(self@.transactions[keys@[j]].account_id));
                }
            }
        }
        counts
    }

    /// Transactions belonging to an account, newest first.
    pub fn query_transactions_in_account(&self, id: i64, limit: Option<usize>) -> (rows: Vec<
        Transaction,
    >)
        ensures
            lists_up_to(
                rows@,
                self@.transactions,
                self@.in_account(id),
                newest_first(),
                limit,
            ),
    {
        let keep = |tx: &Transaction| -> (b: bool)
            ensures
                b == self@.in_account(id)(*tx),
        { self.is_live(tx) && tx.account_id == id };
        proof {
            lemma_newest_first();
        }
        select(
            self.transaction_table(),
            keep,
            newer,
            limit,
            Ghost(self@.in_account(id)),
            Ghost(newest_first()),
        )
    }

    fn bank_named(&self, name: &str) -> (id: Option<i64>)
        ensures
            match id {
                Some(id) => self@.banks.contains_key(id) && self@.banks[id].name@ == name@,
                None => !self@.has_bank(name@),
            },
    {
        let keys = keys_of(self.bank_table());
        let mut i: usize = 0;
        while i < keys.len()
            invariant
                i <= keys@.len(),
                forall|k: i64| #[trigger] keys@.contains(k) <==> self@.banks.contains_key(k),
                forall|j: int| 0 <= j < i ==> self@.banks[#[trigger] keys@[j]].name@ != name@,
            decreases keys@.len() - i,
        {
            let k: i64 = keys[i];
            assert(keys@.contains(keys@[i as int]));
            if let Some(bank) = self.bank_row(k) {
                if same(&bank.name, name) {
                    return Some(k);
                }
            }
            i += 1;
        }
        assert forall|id: i64| #[trigger] self@.banks.contains_key(id) implies
            self@.banks[id].name@ != name@ by {
            assert(keys@.contains(id));
            let j = choose|j: int| 0 <= j < keys@.len() && keys@[j] == id;
            assert(self@.banks[keys@[j]].name@ != name@);
        }
        None
    }

    /// Resolve a bank by name, undeleting or inserting as needed. Returns
    /// `(bank_id, was_created)`; `was_created` is true only for a new bank (an
    /// undelete is not a creation).
    pub fn get_or_create_bank(&mut self, name: &str) -> (result: Result<(i64, bool), Error>)
        requires
            old(self)@.keyed(),
        ensures
            match result {
                Ok(r) => old(self)@.bank_made(name@, r.0, r.1, final(self)@),
                Err(Error::NoFreeId) => {
                    &&& !old(self)@.has_bank(name@)
                    &&& old(self)@.banks.contains_key(i64::MAX)
                    &&& *final(self) == *old(self)
                },
                Err(_) => false,
            },
            journalled(*old(self), *final(self)),
            final(self)@.keyed(),
            old(self)@.exclusive() ==> final(self)@.exclusive(),
    {
        proof {
            journal_starts(*self);
        }
        match self.bank_named(name) {
            Some(id) => {
                if let Some(bank) = self.bank_row(id) {
                    if bank.deleted_at.is_some() {
                        let row = Bank { id, name: bank.name.clone(), deleted_at: None };
                        self.put_bank(row);
                        proof {
                            lemma_same_transfers(old(self)@, self@);
                        }
                    } else {
                        assert(self@.banks.insert(id, self@.banks[id]) =~= self@.banks);
                    }
                }
                Ok((id, false))
            },
            None => {
                let id: i64 = match fresh_id(self.bank_table()) {
                    Some(id) => id,
                    None => return Err(Error::NoFreeId),
                };
                self.put_bank(Bank { id, name: name.to_owned(), deleted_at: None });
                proof {
                    lemma_same_transfers(old(self)@, self@);
                }
                Ok((id, true))
            },
        }
    }

    /// What renaming an account to a path moves; `None` where it has that path
    /// already.
    pub fn plan_account_rename(&self, id: i64, new_path: &str) -> (plan: Result<
        Option<AccountMove>,
        Error,
    >)
        requires
            self@.keyed(),
        ensures
            match plan {
                Ok(None) => self@.is_open(id) && proper_path(new_path@) && named_account(new_path@)
                    == Some((self@.bank_name_of(self@.accounts[id]), self@.accounts[id].name@)),
                Ok(Some(m)) => {
                    &&& self@.is_open(id)
                    &&& proper_path(new_path@)
                    &&& named_account(new_path@) == Some((m.new_bank@, m.new_name@))
                    &&& m.old_bank@ == self@.bank_name_of(self@.accounts[id])
                    &&& m.old_name@ == self@.accounts[id].name@
                    &&& m.new_bank@ != m.old_bank@ || m.new_name@ != m.old_name@
                },
                Err(Error::AccountNotFound(text)) => !self@.is_open(id) && text@ == decimal_int(
                    id as int,
                ),
                Err(Error::InvalidAccountPath(text)) => self@.is_open(id) && !proper_path(new_path@)
                    && text@ == path_hint(),
                Err(_) => false,
            },
    {
        let current = match self.get_account_with_bank(id) {
            Some(row) => row,
            None => return Err(Error::AccountNotFound(int_string(id))),
        };
        let (bank, account): (&str, &str) = match split_once(new_path, '/') {
            Some(p) => p,
            None => return Err(invalid_path()),
        };
        if has_char(account, '/') {
            return Err(invalid_path());
        }
        let (new_bank, new_name): (&str, &str) = (trim(bank), trim(account));
        if new_bank.is_empty() || new_name.is_empty() {
            return Err(invalid_path());
        }
        if same(new_bank, &current.bank_name) && same(new_name, &current.name) {
            return Ok(None);
        }
        Ok(
            Some(
                AccountMove {
                    old_bank: current.bank_name,
                    old_name: current.name,
                    new_bank: new_bank.to_owned(),
                    new_name: new_name.to_owned(),
                },
            ),
        )
    }

    fn is_place_taken(&self, bank: &str, name: &str, except: i64) -> (taken: bool)
        ensures
            taken == self@.place_taken(bank@, name@, except),
    {
        let keys = keys_of(self.account_table());
        let mut i: usize = 0;
        while i < keys.len()
            invariant
                i <= keys@.len(),
                forall|k: i64| #[trigger] keys@.contains(k) <==> self@.accounts.contains_key(k),
                forall|j: int|
                    0 <= j < i && #[trigger] keys@[j] != except ==> !self@.stands_at(
                        keys@[j],
                        bank@,
                        name@,
                    ),
            decreases keys@.len() - i,
        {
            let k: i64 = keys[i];
            assert(keys@.contains(keys@[i as int]));
            if let Some(a) = self.account_row(k) {
                if let Some(b) = self.bank_row(a.bank_id) {
                    if k != except && same(&b.name, bank) && same(&a.name, name) {
                        assert(self@.stands_at(k, bank@, name@));
                        return true;
                    }
                }
            }
            i += 1;
        }
        assert forall|id: i64| id != except implies !#[trigger] self@.stands_at(
            id,
            bank@,
            name@,
        ) by {
            if self@.accounts.contains_key(id) {
                assert(keys@.contains(id));
                let j = choose|j: int| 0 <= j < keys@.len() && keys@[j] == id;
                assert(keys@[j] == id);
            }
        }
        false
    }

    /// Whether an account may move: nothing is at its new path, and its new bank is
    /// there or can be made. `on_disk` says whether the folder there exists.
    /// Accounts never merge: a collision with a different existing account (in the
    /// tables or on disk) is an error. Nothing changes yet.
    pub fn claim_account_path(&self, id: i64, plan: &AccountMove, on_disk: bool) -> (result: Result<
        (),
        Error,
    >)
        ensures
            match result {
                Ok(_) => {
                    &&& !on_disk
                    &&& !self@.place_taken(plan.new_bank@, plan.new_name@, id)
                    &&& self@.can_make_bank(plan.new_bank@)
                },
                Err(Error::AccountExists(path)) => {
                    &&& path@ == plan.new_bank@ + "/"@ + plan.new_name@
                    &&& on_disk || self@.place_taken(plan.new_bank@, plan.new_name@, id)
                },
                Err(Error::NoFreeId) => {
                    &&& !on_disk
                    &&& !self@.place_taken(plan.new_bank@, plan.new_name@, id)
                    &&& !self@.can_make_bank(plan.new_bank@)
                },
                Err(_) => false,
            },
    {
        if on_disk || self.is_place_taken(&plan.new_bank, &plan.new_name, id) {
            let mut path = plan.new_bank.clone();
            path.append("/");
            path.append(&plan.new_name);
            return Err(Error::AccountExists(path));
        }
        if self.bank_named(&plan.new_bank).is_none() && self.bank_row(i64::MAX).is_some() {
            return Err(Error::NoFreeId);
        }
        Ok(())
    }

    fn rebank(&mut self, account_id: i64, bank_id: i64)
        requires
            old(self)@.keyed(),
        ensures
            final(self)@ == (Tables {
                transactions: old(self)@.rebanked(account_id, bank_id),
                ..old(self)@
            }),
            journalled(*old(self), *final(self)),
            final(self)@.keyed(),
    {
        let ghost start = self@;
        let ghost goal = start.rebanked(account_id, bank_id);
        let keys = keys_of(self.transaction_table());
        let mut i: usize = 0;
        proof {
            journal_starts(*self);
        }
        while i < keys.len()
            invariant
                i <= keys@.len(),
                keys@.no_duplicates(),
                forall|k: i64| #[trigger] keys@.contains(k) <==> start.transactions.contains_key(k),
                goal == start.rebanked(account_id, bank_id),
                start.keyed(),
                self@ == (Tables { transactions: self@.transactions, ..start }),
                self@.transactions.dom() == start.transactions.dom(),
                forall|j: int|
                    0 <= j < i ==> self@.transactions[#[trigger] keys@[j]] == goal[keys@[j]],
                forall|j: int|
                    i <= j < keys@.len() ==> self@.transactions[#[trigger] keys@[j]]
                        == start.transactions[keys@[j]],
                journalled(*old(self), *self),
            decreases keys@.len() - i,
        {
            let k: i64 = keys[i];
            assert(keys@.contains(keys@[i as int]));
            let ghost before = *self;
            if let Some(tx) = self.transaction_row(k) {
                if tx.account_id == account_id {
                    let mut row = tx.clone();
                    row.bank_id = bank_id;
                    self.put_transaction(row);
                    proof {
                        lemma_same_text(before, *self, row);
                        journal_goes_on(*old(self), before, *self);
                        assert(self@.transactions.dom() =~= start.transactions.dom());
                    }
                }
            }
            i += 1;
        }
        assert(self@.transactions =~= goal) by {
            assert forall|k: i64| #[trigger] goal.contains_key(k) implies self@.transactions[k]
                == goal[k] by {
                assert(keys@.contains(k));
                let j = choose|j: int| 0 <= j < keys@.len() && keys@[j] == k;
                assert(self@.transactions[keys@[j]] == goal[keys@[j]]);
            }
        }
    }

    /// Give an account its new bank and name, once its folder has moved. The bank is
    /// made or brought back; the account's transactions go with it.
    pub fn move_account(&mut self, id: i64, plan: &AccountMove) -> (result: Result<(), Error>)
        requires
            old(self)@.keyed(),
        ensures
            match result {
                Ok(_) => old(self)@.account_moved(id, plan.new_bank@, plan.new_name@, final(self)@),
                Err(Error::NoFreeId) => {
                    &&& old(self)@.accounts.contains_key(id)
                    &&& !old(self)@.can_make_bank(plan.new_bank@)
                    &&& *final(self) == *old(self)
                },
                Err(Error::AccountNotFound(text)) => {
                    &&& !old(self)@.accounts.contains_key(id)
                    &&& text@ == decimal_int(id as int)
                    &&& *final(self) == *old(self)
                },
                Err(_) => false,
            },
            journalled(*old(self), *final(self)),
            final(self)@.keyed(),
            old(self)@.exclusive() ==> final(self)@.exclusive(),
    {
        proof {
            journal_starts(*self);
        }
        let deleted_at = match self.account_row(id) {
            Some(a) => a.deleted_at,
            None => return Err(Error::AccountNotFound(int_string(id))),
        };
        let (bank_id, created): (i64, bool) = match self.get_or_create_bank(&plan.new_bank) {
            Ok(r) => r,
            Err(e) => return Err(e),
        };
        let ghost one = *self;
        self.put_account(Account { id, bank_id, name: plan.new_name.clone(), deleted_at });
        let ghost two = *self;
        self.rebank(id, bank_id);
        proof {
            journal_goes_on(*old(self), one, two);
            journal_goes_on(*old(self), two, *self);
            assert(two@.rebanked(id, bank_id) =~= old(self)@.rebanked(id, bank_id));
            lemma_same_transfers(one@, self@);
            assert(old(self)@.bank_made(plan.new_bank@, bank_id, created, one@));
        }
        Ok(())
    }

    /// Rename/move an account. `new_path` is "Bank/Account"; the bank is
    /// created if it does not exist. Never merges. Where anything is refused,
    /// nothing changes.
    pub fn rename_account(&mut self, id: i64, new_path: &str, on_disk: bool) -> (result: Result<
        (),
        Error,
    >)
        requires
            old(self)@.keyed(),
        ensures
            match result {
                Ok(_) => old(self)@.account_renamed(id, new_path@, on_disk, final(self)@),
                Err(Error::AccountNotFound(text)) => {
                    &&& !old(self)@.is_open(id)
                    &&& text@ == decimal_int(id as int)
                },
                Err(Error::InvalidAccountPath(text)) => {
                    &&& old(self)@.is_open(id)
                    &&& !proper_path(new_path@)
                    &&& text@ == path_hint()
                },
                Err(Error::AccountExists(path)) => {
                    &&& old(self)@.is_open(id)
                    &&& proper_path(new_path@)
                    &&& named_account(new_path@) matches Some(p)
                    &&& path@ == p.0 + "/"@ + p.1
                    &&& p != (
                        old(self)@.bank_name_of(old(self)@.accounts[id]),
                        old(self)@.accounts[id].name@,
                    )
                    &&& on_disk || old(self)@.place_taken(p.0, p.1, id)
                },
                Err(Error::NoFreeId) => {
                    &&& old(self)@.is_open(id)
                    &&& proper_path(new_path@)
                    &&& named_account(new_path@) matches Some(p)
                    &&& !on_disk && !old(self)@.place_taken(p.0, p.1, id)
                    &&& !old(self)@.can_make_bank(p.0)
                },
                Err(_) => false,
            },
            result is Err ==> *final(self) == *old(self),
            journalled(*old(self), *final(self)),
            final(self)@.keyed(),
            old(self)@.exclusive() ==> final(self)@.exclusive(),
    {
        proof {
            journal_starts(*self);
        }
        let plan = match self.plan_account_rename(id, new_path) {
            Ok(Some(plan)) => plan,
            Ok(None) => return Ok(()),
            Err(e) => return Err(e),
        };
        match self.claim_account_path(id, &plan, on_disk) {
            Ok(_) => self.move_account(id, &plan),
            Err(e) => Err(e),
        }
    }

    /// Delete an account: soft-delete the row. Transactions, enrichments and
    /// transfers are retained. Returns the number of transactions the account
    /// held.
    pub fn delete_account(&mut self, id: i64, now: Timestamp) -> (result: Result<usize, Error>)
        requires
            old(self)@.keyed(),
        ensures
            match result {
                Ok(n) => {
                    &&& old(self)@.is_open(id)
                    &&& n == old(self)@.holdings(id).len()
                    &&& final(self)@ == (Tables {
                        accounts: old(self)@.accounts.insert(
                            id,
                            Account { deleted_at: Some(now), ..old(self)@.accounts[id] },
                        ),
                        ..old(self)@
                    })
                },
                Err(Error::AccountNotFound(text)) => {
                    &&& !old(self)@.is_open(id)
                    &&& text@ == decimal_int(id as int)
                    &&& *final(self) == *old(self)
                },
                Err(_) => false,
            },
            journalled(*old(self), *final(self)),
            final(self)@.keyed(),
            old(self)@.exclusive() ==> final(self)@.exclusive(),
            old(self)@.names_differ() ==> final(self)@.names_differ(),
    {
        proof {
            journal_starts(*self);
        }
        if self.get_account_with_bank(id).is_none() {
            return Err(Error::AccountNotFound(int_string(id)));
        }
        let n: usize = self.count_transactions_in_account(id);
        let mut row = match self.account_row(id) {
            Some(a) => a.clone(),
            None => return Err(Error::AccountNotFound(int_string(id))),
        };
        row.deleted_at = Some(now);
        self.put_account(row);
        proof {
            lemma_same_transfers(old(self)@, self@);
        }
        Ok(n)
    }
}

impl Tables {
    /// The transactions, those of the account with another bank.
    pub open spec fn rebanked(self, account_id: i64, bank_id: i64) -> Map<i64, Transaction> {
        Map::new(
            |id: i64| self.transactions.contains_key(id),
            |id: i64|
                if self.transactions[id].account_id == account_id {
                    Transaction { bank_id, ..self.transactions[id] }
                } else {
                    self.transactions[id]
                },
        )
    }

    /// Every transaction is in its account's bank.
    pub open spec fn banked(self) -> bool {
        forall|id: i64| #[trigger]
            self.transactions.contains_key(id) && self.accounts.contains_key(
                self.transactions[id].account_id,
            ) ==> self.transactions[id].bank_id
                == self.accounts[self.transactions[id].account_id].bank_id
    }

    /// The tables after renaming an account.
    pub open spec fn account_renamed(
        self,
        id: i64,
        new_path: Seq<char>,
        on_disk: bool,
        next: Tables,
    ) -> bool {
        &&& self.is_open(id)
        &&& proper_path(new_path)
        &&& named_account(new_path) matches Some(p)
        &&& if p == (self.bank_name_of(self.accounts[id]), self.accounts[id].name@) {
            next == self
        } else {
            !on_disk && !self.place_taken(p.0, p.1, id) && self.account_moved(id, p.0, p.1, next)
        }
    }

    /// There is a bank of the name, or an id for one.
    pub open spec fn can_make_bank(self, name: Seq<char>) -> bool {
        self.has_bank(name) || !self.banks.contains_key(i64::MAX)
    }

    /// The tables after moving an account to a bank and a name.
    pub open spec fn account_moved(
        self,
        id: i64,
        bank: Seq<char>,
        name: Seq<char>,
        next: Tables,
    ) -> bool {
        self.accounts.contains_key(id) && exists|bank_id: i64, created: bool, between: Tables|
            #[trigger] self.bank_made(bank, bank_id, created, between) && {
                let row = next.accounts[id];
                &&& next == (Tables {
                    accounts: between.accounts.insert(id, row),
                    transactions: self.rebanked(id, bank_id),
                    ..between
                })
                &&& row == (Account { bank_id, name: row.name, ..self.accounts[id] })
                &&& row.name@ == name
            }
    }
}

/// Renaming an account leaves every transaction in its account's bank, and moves
/// none to another account.
pub proof fn renaming_takes_the_transactions_along(
    t: Tables,
    id: i64,
    new_path: Seq<char>,
    on_disk: bool,
    next: Tables,
)
    requires
        t.banked(),
        t.account_renamed(id, new_path, on_disk, next),
    ensures
        next.banked(),
        forall|tx: i64| #[trigger]
            t.transactions.contains_key(tx) ==> next.transactions.contains_key(tx)
                && next.transactions[tx].account_id == t.transactions[tx].account_id,
{
}

proof fn lemma_holdings(t: Tables, keys: Seq<i64>, a: i64)
    requires
        forall|k: i64| #[trigger] keys.contains(k) <==> t.transactions.contains_key(k),
    ensures
        t.holdings(a).finite(),
{
    assert(t.holdings(a).subset_of(keys.to_set())) by {
        assert forall|x: i64| t.holdings(a).contains(x) implies keys.to_set().contains(x) by {
            assert(keys.contains(x));
        }
    }
    vstd::set_lib::lemma_len_subset(t.holdings(a), keys.to_set());
}

} // verus!
