//! The orders in which rows are listed.

use vstd::prelude::*;

use crate::model::{Account, Bank, Category, Filter, Timestamp, Transaction, Transfer};
use crate::sort::{total, transitive};
use crate::text::{lemma_lex_total, lemma_lex_transitive, lex_le, lex_leq, same};

verus! {

/// By name, then by id.
pub open spec fn by_name(a: Seq<char>, i: i64, b: Seq<char>, j: i64) -> bool {
    if a == b {
        i <= j
    } else {
        lex_le(a, b)
    }
}

pub(crate) fn name_leq(a: &str, i: i64, b: &str, j: i64) -> (le: bool)
    ensures
        le == by_name(a@, i, b@, j),
{
    if same(a, b) {
        i <= j
    } else {
        lex_leq(a, b)
    }
}

pub(crate) proof fn lemma_by_name_total(a: Seq<char>, i: i64, b: Seq<char>, j: i64)
    ensures
        by_name(a, i, b, j) || by_name(b, j, a, i),
{
    lemma_lex_total(a, b);
}

pub(crate) proof fn lemma_by_name_transitive(
    a: Seq<char>,
    i: i64,
    b: Seq<char>,
    j: i64,
    c: Seq<char>,
    k: i64,
)
    requires
        by_name(a, i, b, j),
        by_name(b, j, c, k),
    ensures
        by_name(a, i, c, k),
{
    if a != b && b != c {
        lemma_lex_transitive(a, b, c);
        lemma_lex_total(a, b);
    }
}

/// Newest first; on one day the last imported first.
pub open spec fn newest_first() -> spec_fn(Transaction, Transaction) -> bool {
    |a: Transaction, b: Transaction| by_name(b.date@, b.id, a.date@, a.id)
}

pub(crate) fn newer(a: &Transaction, b: &Transaction) -> (le: bool)
    ensures
        le == newest_first()(*a, *b),
{
    name_leq(&b.date, b.id, &a.date, a.id)
}

pub proof fn lemma_newest_first()
    ensures
        total(newest_first()),
        transitive(newest_first()),
{
    let order = newest_first();
    assert forall|a: Transaction, b: Transaction| #[trigger] order(a, b) || order(b, a) by {
        lemma_by_name_total(a.date@, a.id, b.date@, b.id);
    }
    assert forall|a: Transaction, b: Transaction, c: Transaction| #[trigger]
        order(a, b) && #[trigger] order(b, c) implies order(a, c) by {
        lemma_by_name_transitive(c.date@, c.id, b.date@, b.id, a.date@, a.id);
    }
}

/// In path order.
pub open spec fn by_path() -> spec_fn(Category, Category) -> bool {
    |a: Category, b: Category| by_name(a.path@, a.id, b.path@, b.id)
}

pub(crate) fn path_leq(a: &Category, b: &Category) -> (le: bool)
    ensures
        le == by_path()(*a, *b),
{
    name_leq(&a.path, a.id, &b.path, b.id)
}

pub proof fn lemma_by_path()
    ensures
        total(by_path()),
        transitive(by_path()),
{
    let order = by_path();
    assert forall|a: Category, b: Category| #[trigger] order(a, b) || order(b, a) by {
        lemma_by_name_total(a.path@, a.id, b.path@, b.id);
    }
    assert forall|a: Category, b: Category, c: Category| #[trigger]
        order(a, b) && #[trigger] order(b, c) implies order(a, c) by {
        lemma_by_name_transitive(a.path@, a.id, b.path@, b.id, c.path@, c.id);
    }
}

/// Banks by name.
pub open spec fn by_bank_name() -> spec_fn(Bank, Bank) -> bool {
    |a: Bank, b: Bank| by_name(a.name@, a.id, b.name@, b.id)
}

pub(crate) fn bank_leq(a: &Bank, b: &Bank) -> (le: bool)
    ensures
        le == by_bank_name()(*a, *b),
{
    name_leq(&a.name, a.id, &b.name, b.id)
}

pub proof fn lemma_by_bank_name()
    ensures
        total(by_bank_name()),
        transitive(by_bank_name()),
{
    let order = by_bank_name();
    assert forall|a: Bank, b: Bank| #[trigger] order(a, b) || order(b, a) by {
        lemma_by_name_total(a.name@, a.id, b.name@, b.id);
    }
    assert forall|a: Bank, b: Bank, c: Bank| #[trigger] order(a, b) && #[trigger] order(
        b,
        c,
    ) implies order(a, c) by {
        lemma_by_name_transitive(a.name@, a.id, b.name@, b.id, c.name@, c.id);
    }
}

/// Accounts by name.
pub open spec fn by_account_name() -> spec_fn(Account, Account) -> bool {
    |a: Account, b: Account| by_name(a.name@, a.id, b.name@, b.id)
}

pub(crate) fn account_leq(a: &Account, b: &Account) -> (le: bool)
    ensures
        le == by_account_name()(*a, *b),
{
    name_leq(&a.name, a.id, &b.name, b.id)
}

pub proof fn lemma_by_account_name()
    ensures
        total(by_account_name()),
        transitive(by_account_name()),
{
    let order = by_account_name();
    assert forall|a: Account, b: Account| #[trigger] order(a, b) || order(b, a) by {
        lemma_by_name_total(a.name@, a.id, b.name@, b.id);
    }
    assert forall|a: Account, b: Account, c: Account| #[trigger] order(a, b) && #[trigger] order(
        b,
        c,
    ) implies order(a, c) by {
        lemma_by_name_transitive(a.name@, a.id, b.name@, b.id, c.name@, c.id);
    }
}

/// Filters in display and apply order: by position, then by id.
pub open spec fn by_position() -> spec_fn(Filter, Filter) -> bool {
    |a: Filter, b: Filter|
        a.position < b.position || (a.position == b.position && a.id <= b.id)
}

pub(crate) fn position_leq(a: &Filter, b: &Filter) -> (le: bool)
    ensures
        le == by_position()(*a, *b),
{
    a.position < b.position || (a.position == b.position && a.id <= b.id)
}

/// At the same time or later.
pub open spec fn not_before(a: Timestamp, b: Timestamp) -> bool {
    a.seconds > b.seconds || (a.seconds == b.seconds && a.nanos >= b.nanos)
}

/// Transfers linked last first.
pub open spec fn latest_first() -> spec_fn(Transfer, Transfer) -> bool {
    |a: Transfer, b: Transfer|
        if a.created_at == b.created_at {
            a.id <= b.id
        } else {
            not_before(a.created_at, b.created_at)
        }
}

pub(crate) fn later(a: &Transfer, b: &Transfer) -> (le: bool)
    ensures
        le == latest_first()(*a, *b),
{
    if a.created_at == b.created_at {
        a.id <= b.id
    } else {
        a.created_at.seconds > b.created_at.seconds || (a.created_at.seconds
            == b.created_at.seconds && a.created_at.nanos >= b.created_at.nanos)
    }
}

/// Transactions by id.
pub open spec fn by_id() -> spec_fn(Transaction, Transaction) -> bool {
    |a: Transaction, b: Transaction| a.id <= b.id
}

pub(crate) fn id_leq(a: &Transaction, b: &Transaction) -> (le: bool)
    ensures
        le == by_id()(*a, *b),
{
    a.id <= b.id
}

} // verus!
