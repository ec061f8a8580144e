//! Reading rows out of a table: those wanted, in order.

use std::collections::HashMap;

use vstd::prelude::*;
use vstd::seq_lib::*;
use vstd::std_specs::hash::*;
use vstd::std_specs::iter::IteratorSpec;

use crate::sort::{sort_rows, sorted, total, transitive};

verus! {

broadcast use group_hash_axioms;

/// A row of a table.
pub trait Row: Sized {
    fn copy(&self) -> (row: Self)
        ensures
            row == *self,
    ;
}

/// The rows at the keys.
pub open spec fn rows_at<T>(m: Map<i64, T>, keys: Seq<i64>) -> Seq<T> {
    keys.map_values(|k: i64| m[k])
}

/// The keys of the wanted rows, each once, so that the rows are in order.
pub open spec fn selection<T>(
    keys: Seq<i64>,
    m: Map<i64, T>,
    wanted: spec_fn(T) -> bool,
    order: spec_fn(T, T) -> bool,
) -> bool {
    &&& keys.no_duplicates()
    &&& forall|k: i64| #[trigger] keys.contains(k) <==> m.contains_key(k) && wanted(m[k])
    &&& sorted(rows_at(m, keys), order)
}

/// The rows are the wanted ones in order.
pub open spec fn lists<T>(
    rows: Seq<T>,
    m: Map<i64, T>,
    wanted: spec_fn(T) -> bool,
    order: spec_fn(T, T) -> bool,
) -> bool {
    exists|keys: Seq<i64>| #[trigger] selection(keys, m, wanted, order) && rows == rows_at(m, keys)
}

/// The first of the elements, as many as the limit allows.
pub open spec fn limited<T>(s: Seq<T>, limit: Option<usize>) -> Seq<T> {
    match limit {
        Some(n) => if n < s.len() {
            s.take(n as int)
        } else {
            s
        },
        None => s,
    }
}

/// The rows are the first of the wanted ones in order.
pub open spec fn lists_up_to<T>(
    rows: Seq<T>,
    m: Map<i64, T>,
    wanted: spec_fn(T) -> bool,
    order: spec_fn(T, T) -> bool,
    limit: Option<usize>,
) -> bool {
    exists|keys: Seq<i64>| #[trigger]
        selection(keys, m, wanted, order) && rows == rows_at(m, limited(keys, limit))
}

/// The keys of a table, each once.
pub(crate) fn keys_of<T>(m: &HashMap<i64, T>) -> (keys: Vec<i64>)
    ensures
        keys@.no_duplicates(),
        forall|k: i64| #[trigger] keys@.contains(k) <==> m@.contains_key(k),
{
    let mut keys: Vec<i64> = Vec::new();
    let it_keys = m.keys();
    let ghost all = spec_keys_iter(m).remaining().unref();
    for id in it: it_keys
        invariant
            it.seq().unref() == all,
            keys@ == all.take(it.index()),
    {
        assert(all.take(it.index() + 1) =~= all.take(it.index()).push(*id));
        keys.push(*id);
    }
    proof {
        assert(all.take(all.len() as int) =~= all);
        let refs = spec_keys_iter(m).remaining();
        assert forall|i: int, j: int|
            0 <= i < all.len() && 0 <= j < all.len() && i != j implies all[i] != all[j] by {
            assert(refs[i] != refs[j]);
        }
        assert(all.to_set() == m@.dom());
        assert forall|k: i64| #[trigger] keys@.contains(k) <==> m@.contains_key(k) by {
            assert(all.to_set().contains(k) <==> all.contains(k));
        }
    }
    keys
}

/// The keys of the wanted rows, in the order of the rows.
pub(crate) fn select_keys<T, F: Fn(&T) -> bool, G: Fn(&T, &T) -> bool>(
    m: &HashMap<i64, T>,
    keep: F,
    le: G,
    Ghost(wanted): Ghost<spec_fn(T) -> bool>,
    Ghost(order): Ghost<spec_fn(T, T) -> bool>,
) -> (keys: Vec<i64>)
    requires
        total(order),
        transitive(order),
        forall|t: T| #[trigger] call_requires(keep, (&t,)),
        forall|t: T, b: bool| #[trigger] call_ensures(keep, (&t,), b) ==> b == wanted(t),
        forall|a: T, b: T| #[trigger] call_requires(le, (&a, &b)),
        forall|a: T, b: T, r: bool| #[trigger] call_ensures(le, (&a, &b), r) ==> r == order(a, b),
    ensures
        selection(keys@, m@, wanted, order),
{
    let all = keys_of(m);
    let mut found: Vec<i64> = Vec::new();
    let mut i: usize = 0;
    while i < all.len()
        invariant
            i <= all@.len(),
            all@.no_duplicates(),
            forall|k: i64| #[trigger] all@.contains(k) <==> m@.contains_key(k),
            forall|t: T| #[trigger] call_requires(keep, (&t,)),
            forall|t: T, b: bool| #[trigger] call_ensures(keep, (&t,), b) ==> b == wanted(t),
            found@.no_duplicates(),
            forall|k: i64| #[trigger]
                found@.contains(k) <==> all@.take(i as int).contains(k) && wanted(m@[k]),
        decreases all@.len() - i,
    {
        let k: i64 = all[i];
        assert(all@.contains(all@[i as int]));
        let ghost before = found@;
        let ghost seen = all@.take(i as int);
        assert(all@.take(i + 1) =~= seen.push(k));
        assert(!seen.contains(k));
        assert(!before.contains(k));
        assert forall|j: int| 0 <= j < before.len() implies #[trigger] before[j] != k by {
            assert(before.contains(before[j]));
        }
        if let Some(row) = m.get(&k) {
            if keep(row) {
                found.push(k);
            }
        }
        proof {
            assert forall|x: i64| #[trigger]
                found@.contains(x) <==> all@.take(i + 1).contains(x) && wanted(m@[x]) by {
                lemma_push_contains(seen, k, x);
                if found@ != before {
                    lemma_push_contains(before, k, x);
                }
            }
        }
        i += 1;
    }
    assert(all@.take(i as int) =~= all@);
    let in_order = &le;
    let by_row = |a: &i64, b: &i64| -> (r: bool)
        ensures
            if m@.contains_key(*a) && m@.contains_key(*b) {
                call_ensures(in_order, (&m@[*a], &m@[*b]), r)
            } else {
                r == (m@.contains_key(*a) || !m@.contains_key(*b))
            },
    {
        match (m.get(a), m.get(b)) {
            (Some(x), Some(y)) => in_order(x, y),
            (Some(_), None) => true,
            (None, Some(_)) => false,
            (None, None) => true,
        }
    };
    let ghost by_key = key_order(m@, order);
    proof {
        assert(total(by_key));
        assert(transitive(by_key));
    }
    let keys = sort_rows(found, by_row, Ghost(by_key));
    proof {
        lemma_same_members(found@, keys@);
        let rows = rows_at(m@, keys@);
        assert forall|a: int, b: int| 0 <= a < b < rows.len() implies order(
            #[trigger] rows[a],
            #[trigger] rows[b],
        ) by {
            assert(by_key(keys@[a], keys@[b]));
            assert(keys@.contains(keys@[a]) && keys@.contains(keys@[b]));
        }
    }
    keys
}

/// Keys in the order of their rows; keys without a row come last.
spec fn key_order<T>(m: Map<i64, T>, order: spec_fn(T, T) -> bool) -> spec_fn(i64, i64) -> bool {
    |a: i64, b: i64|
        if m.contains_key(a) && m.contains_key(b) {
            order(m[a], m[b])
        } else {
            m.contains_key(a) || !m.contains_key(b)
        }
}

proof fn lemma_push_contains(s: Seq<i64>, k: i64, x: i64)
    ensures
        s.push(k).contains(x) <==> s.contains(x) || x == k,
{
    if s.contains(x) {
        let i = choose|i: int| 0 <= i < s.len() && s[i] == x;
        assert(s.push(k)[i] == x);
    }
    if x == k {
        assert(s.push(k)[s.len() as int] == x);
    }
    if s.push(k).contains(x) && x != k {
        let i = choose|i: int| 0 <= i < s.push(k).len() && s.push(k)[i] == x;
        assert(s[i] == x);
    }
}

pub(crate) proof fn lemma_same_members(a: Seq<i64>, b: Seq<i64>)
    requires
        a.to_multiset() == b.to_multiset(),
        a.no_duplicates(),
    ensures
        b.no_duplicates(),
        forall|x: i64| #[trigger] b.contains(x) <==> a.contains(x),
{
    broadcast use group_to_multiset_ensures;

    assert forall|x: i64| #[trigger] b.contains(x) <==> a.contains(x) by {
        assert(a.contains(x) <==> a.to_multiset().count(x) > 0);
        assert(b.contains(x) <==> b.to_multiset().count(x) > 0);
    }
    a.lemma_multiset_has_no_duplicates();
    b.lemma_multiset_has_no_duplicates_conv();
}

/// Copies of the rows at the keys, as many as the limit allows.
pub(crate) fn rows_of<T: Row>(m: &HashMap<i64, T>, keys: &Vec<i64>, limit: Option<usize>) -> (rows:
    Vec<T>)
    requires
        forall|i: int| 0 <= i < keys@.len() ==> m@.contains_key(#[trigger] keys@[i]),
    ensures
        rows@ == rows_at(m@, limited(keys@, limit)),
{
    let n: usize = match limit {
        Some(n) => if n < keys.len() {
            n
        } else {
            keys.len()
        },
        None => keys.len(),
    };
    let ghost chosen = limited(keys@, limit);
    let mut rows: Vec<T> = Vec::new();
    let mut i: usize = 0;
    while i < n
        invariant
            i <= n <= keys@.len(),
            n == chosen.len(),
            chosen == limited(keys@, limit),
            forall|j: int| 0 <= j < n ==> chosen[j] == keys@[j],
            forall|i: int| 0 <= i < keys@.len() ==> m@.contains_key(#[trigger] keys@[i]),
            rows@ == rows_at(m@, chosen.take(i as int)),
        decreases n - i,
    {
        let k: i64 = keys[i];
        if let Some(row) = m.get(&k) {
            rows.push(row.copy());
        }
        assert(rows@ =~= rows_at(m@, chosen.take(i + 1)));
        i += 1;
    }
    assert(chosen.take(n as int) =~= chosen);
    rows
}

/// The wanted rows in order, as many as the limit allows.
pub(crate) fn select<T: Row, F: Fn(&T) -> bool, G: Fn(&T, &T) -> bool>(
    m: &HashMap<i64, T>,
    keep: F,
    le: G,
    limit: Option<usize>,
    Ghost(wanted): Ghost<spec_fn(T) -> bool>,
    Ghost(order): Ghost<spec_fn(T, T) -> bool>,
) -> (rows: Vec<T>)
    requires
        total(order),
        transitive(order),
        forall|t: T| #[trigger] call_requires(keep, (&t,)),
        forall|t: T, b: bool| #[trigger] call_ensures(keep, (&t,), b) ==> b == wanted(t),
        forall|a: T, b: T| #[trigger] call_requires(le, (&a, &b)),
        forall|a: T, b: T, r: bool| #[trigger] call_ensures(le, (&a, &b), r) ==> r == order(a, b),
    ensures
        lists_up_to(rows@, m@, wanted, order, limit),
        limit is None ==> lists(rows@, m@, wanted, order),
{
    let keys = select_keys(m, keep, le, Ghost(wanted), Ghost(order));
    assert forall|i: int| 0 <= i < keys@.len() implies m@.contains_key(#[trigger] keys@[i]) by {
        assert(keys@.contains(keys@[i]));
    }
    rows_of(m, &keys, limit)
}

/// Every listed row is a wanted row of the table.
pub proof fn lemma_listed<T>(
    rows: Seq<T>,
    m: Map<i64, T>,
    wanted: spec_fn(T) -> bool,
    order: spec_fn(T, T) -> bool,
    limit: Option<usize>,
)
    requires
        lists_up_to(rows, m, wanted, order, limit),
    ensures
        forall|i: int|
            0 <= i < rows.len() ==> wanted(#[trigger] rows[i]) && m.contains_value(rows[i]),
{
    let keys = choose|keys: Seq<i64>| #[trigger]
        selection(keys, m, wanted, order) && rows == rows_at(m, limited(keys, limit));
    assert forall|i: int| 0 <= i < rows.len() implies wanted(#[trigger] rows[i])
        && m.contains_value(rows[i]) by {
        let chosen = limited(keys, limit);
        assert(chosen[i] == keys[i]);
        assert(keys.contains(keys[i]));
        assert(rows[i] == m[keys[i]]);
    }
}

/// Taking one more element adds it to the set.
pub proof fn lemma_taken(ids: Seq<i64>, i: int)
    requires
        0 <= i < ids.len(),
    ensures
        ids.take(i + 1).to_set() == ids.take(i).to_set().insert(ids[i]),
{
    assert(ids.take(i + 1) =~= ids.take(i).push(ids[i]));
    assert forall|x: i64|
        ids.take(i + 1).to_set().contains(x) == ids.take(i).to_set().insert(ids[i]).contains(x) by {
        lemma_push_contains(ids.take(i), ids[i], x);
    }
    assert(ids.take(i + 1).to_set() =~= ids.take(i).to_set().insert(ids[i]));
}

/// What the first elements contain, with one more of them.
pub proof fn lemma_take_contains(ids: Seq<i64>, i: int)
    requires
        0 <= i < ids.len(),
    ensures
        forall|x: i64| #[trigger]
            ids.take(i + 1).contains(x) <==> ids.take(i).contains(x) || x == ids[i],
{
    assert(ids.take(i + 1) =~= ids.take(i).push(ids[i]));
    assert forall|x: i64| #[trigger] ids.take(i + 1).contains(x) <==> ids.take(i).contains(x) || x
        == ids[i] by {
        lemma_push_contains(ids.take(i), ids[i], x);
    }
}

} // verus!
