//! Sorting rows by an order of their own.

use vstd::multiset::Multiset;
use vstd::prelude::*;
use vstd::seq_lib::*;

verus! {

/// No row comes before one that precedes it.
pub open spec fn sorted<T>(rows: Seq<T>, order: spec_fn(T, T) -> bool) -> bool {
    forall|i: int, j: int| 0 <= i < j < rows.len() ==> order(#[trigger] rows[i], #[trigger] rows[j])
}

/// Any two rows are in one order or the other.
pub open spec fn total<T>(order: spec_fn(T, T) -> bool) -> bool {
    forall|a: T, b: T| #[trigger] order(a, b) || order(b, a)
}

pub open spec fn transitive<T>(order: spec_fn(T, T) -> bool) -> bool {
    forall|a: T, b: T, c: T| #[trigger] order(a, b) && #[trigger] order(b, c) ==> order(a, c)
}

/// Put a row into sorted rows, behind those that may stand before it.
pub(crate) fn insert_sorted<T, F: Fn(&T, &T) -> bool>(
    rows: &mut Vec<T>,
    row: T,
    le: &F,
    Ghost(order): Ghost<spec_fn(T, T) -> bool>,
)
    requires
        sorted(old(rows)@, order),
        total(order),
        transitive(order),
        forall|a: T, b: T| #[trigger] call_requires(le, (&a, &b)),
        forall|a: T, b: T, r: bool| #[trigger] call_ensures(le, (&a, &b), r) ==> r == order(a, b),
    ensures
        sorted(final(rows)@, order),
        final(rows)@.to_multiset() == old(rows)@.to_multiset().insert(row),
        final(rows)@.len() == old(rows)@.len() + 1,
{
    let ghost before = rows@;
    let mut i: usize = rows.len();
    while i > 0 && !le(&rows[i - 1], &row)
        invariant
            i <= rows@.len(),
            rows@ == before,
            sorted(before, order),
            total(order),
            transitive(order),
            forall|a: T, b: T| #[trigger] call_requires(le, (&a, &b)),
            forall|a: T, b: T, r: bool| #[trigger]
                call_ensures(le, (&a, &b), r) ==> r == order(a, b),
            forall|j: int| i <= j < before.len() ==> order(row, #[trigger] before[j]),
        decreases i,
    {
        assert(!order(before[i - 1], row));
        assert(order(row, before[i - 1]));
        i -= 1;
    }
    rows.insert(i, row);
    proof {
        lemma_inserted(before, i as int, row, order);
        assert(rows@ =~= before.insert(i as int, row));
    }
}

/// A row put behind those that may stand before it and before the others keeps
/// the rows sorted.
pub proof fn lemma_inserted<T>(
    before: Seq<T>,
    k: int,
    row: T,
    order: spec_fn(T, T) -> bool,
)
    requires
        sorted(before, order),
        transitive(order),
        0 <= k <= before.len(),
        k > 0 ==> order(before[k - 1], row),
        forall|j: int| k <= j < before.len() ==> order(row, #[trigger] before[j]),
    ensures
        sorted(before.insert(k, row), order),
        before.insert(k, row).to_multiset() == before.to_multiset().insert(row),
{
    before.insert_ensures(k, row);
    let rows = before.insert(k, row);
    assert forall|a: int, b: int| 0 <= a < b < rows.len() implies order(
        #[trigger] rows[a],
        #[trigger] rows[b],
    ) by {
        if b < k {
            assert(rows[a] == before[a] && rows[b] == before[b]);
        } else if a > k {
            assert(rows[a] == before[a - 1] && rows[b] == before[b - 1]);
        } else if a == k {
            assert(rows[b] == before[b - 1]);
        } else if b == k {
            assert(rows[a] == before[a]);
            if a < k - 1 {
                assert(order(before[a], before[k - 1]));
            }
        } else {
            assert(rows[a] == before[a] && rows[b] == before[b - 1]);
        }
    }
    lemma_multiset_insert(before, k, row);
}

proof fn lemma_multiset_insert<T>(s: Seq<T>, i: int, row: T)
    requires
        0 <= i <= s.len(),
    ensures
        s.insert(i, row).to_multiset() == s.to_multiset().insert(row),
{
    broadcast use group_to_multiset_ensures;

    s.insert_ensures(i, row);
    assert(s.insert(i, row) =~= s.take(i) + seq![row] + s.skip(i));
    assert(s =~= s.take(i) + s.skip(i));
    lemma_multiset_commutative(s.take(i) + seq![row], s.skip(i));
    lemma_multiset_commutative(s.take(i), seq![row]);
    lemma_multiset_commutative(s.take(i), s.skip(i));
    assert(seq![row] =~= Seq::<T>::empty().push(row));
    assert(seq![row].to_multiset() =~= Multiset::<T>::empty().insert(row));
    assert(s.insert(i, row).to_multiset() =~= s.to_multiset().insert(row));
}

/// Higher marks first; equal ones as `tie` says.
pub open spec fn best<T>(mark_of: spec_fn(T) -> int, tie: spec_fn(T, T) -> bool) -> spec_fn(
    T,
    T,
) -> bool {
    |a: T, b: T| mark_of(a) > mark_of(b) || (mark_of(a) == mark_of(b) && tie(a, b))
}

/// The marks are those of the rows.
pub open spec fn marked<T>(rows: Seq<T>, marks: Seq<u64>, mark_of: spec_fn(T) -> int) -> bool {
    &&& marks.len() == rows.len()
    &&& forall|i: int| 0 <= i < rows.len() ==> mark_of(#[trigger] rows[i]) == marks[i]
}

/// Put a row into rows sorted by their marks.
pub(crate) fn insert_marked<T, F: Fn(&T, &T) -> bool>(
    rows: &mut Vec<T>,
    marks: &mut Vec<u64>,
    row: T,
    mark: u64,
    le: &F,
    Ghost(mark_of): Ghost<spec_fn(T) -> int>,
    Ghost(tie): Ghost<spec_fn(T, T) -> bool>,
)
    requires
        sorted(old(rows)@, best(mark_of, tie)),
        marked(old(rows)@, old(marks)@, mark_of),
        mark_of(row) == mark,
        total(tie),
        transitive(tie),
        forall|a: T, b: T| #[trigger] call_requires(le, (&a, &b)),
        forall|a: T, b: T, r: bool| #[trigger] call_ensures(le, (&a, &b), r) ==> r == tie(a, b),
    ensures
        sorted(final(rows)@, best(mark_of, tie)),
        marked(final(rows)@, final(marks)@, mark_of),
        final(rows)@.to_multiset() == old(rows)@.to_multiset().insert(row),
{
    let ghost order = best(mark_of, tie);
    let ghost before = rows@;
    let ghost marks_before = marks@;
    assert(transitive(order));
    let mut i: usize = rows.len();
    while i > 0 && (marks[i - 1] < mark || (marks[i - 1] == mark && !le(&rows[i - 1], &row)))
        invariant
            i <= rows@.len(),
            rows@ == before,
            marks@ == marks_before,
            marked(before, marks_before, mark_of),
            mark_of(row) == mark,
            total(tie),
            forall|a: T, b: T| #[trigger] call_requires(le, (&a, &b)),
            forall|a: T, b: T, r: bool| #[trigger]
                call_ensures(le, (&a, &b), r) ==> r == tie(a, b),
            order == best(mark_of, tie),
            forall|j: int| i <= j < before.len() ==> order(row, #[trigger] before[j]),
        decreases i,
    {
        assert(mark_of(before[i - 1]) == marks_before[i - 1]);
        assert(tie(before[i - 1], row) || tie(row, before[i - 1]));
        i -= 1;
    }
    rows.insert(i, row);
    marks.insert(i, mark);
    proof {
        if i > 0 {
            assert(mark_of(before[i - 1]) == marks_before[i - 1]);
        }
        lemma_inserted(before, i as int, row, order);
        before.insert_ensures(i as int, row);
        marks_before.insert_ensures(i as int, mark);
        assert(rows@ =~= before.insert(i as int, row));
        assert(marks@ =~= marks_before.insert(i as int, mark));
        assert forall|j: int| 0 <= j < rows@.len() implies mark_of(#[trigger] rows@[j])
            == marks@[j] by {
            if j < i {
                assert(rows@[j] == before[j]);
            } else if j > i {
                assert(rows@[j] == before[j - 1]);
                assert(mark_of(before[j - 1]) == marks_before[j - 1]);
            }
        }
    }
}

/// The rows in order.
pub(crate) fn sort_rows<T, F: Fn(&T, &T) -> bool>(
    rows: Vec<T>,
    le: F,
    Ghost(order): Ghost<spec_fn(T, T) -> bool>,
) -> (out: Vec<T>)
    requires
        total(order),
        transitive(order),
        forall|a: T, b: T| #[trigger] call_requires(le, (&a, &b)),
        forall|a: T, b: T, r: bool| #[trigger] call_ensures(le, (&a, &b), r) ==> r == order(a, b),
    ensures
        sorted(out@, order),
        out@.to_multiset() == rows@.to_multiset(),
        out@.len() == rows@.len(),
{
    let ghost all = rows@;
    let mut rest = rows;
    let mut out: Vec<T> = Vec::new();
    proof {
        broadcast use group_to_multiset_ensures;

        assert(all.to_multiset() =~= rest@.to_multiset().add(out@.to_multiset()));
    }
    while rest.len() > 0
        invariant
            total(order),
            transitive(order),
            forall|a: T, b: T| #[trigger] call_requires(le, (&a, &b)),
            forall|a: T, b: T, r: bool| #[trigger]
                call_ensures(le, (&a, &b), r) ==> r == order(a, b),
            sorted(out@, order),
            all.to_multiset() == rest@.to_multiset().add(out@.to_multiset()),
            rest@.len() + out@.len() == all.len(),
        decreases rest@.len(),
    {
        let ghost left = rest@;
        let ghost done = out@;
        if let Some(row) = rest.pop() {
            insert_sorted(&mut out, row, &le, Ghost(order));
            proof {
                broadcast use group_to_multiset_ensures;

                assert(left =~= rest@.push(row));
                assert(left.to_multiset() =~= rest@.to_multiset().insert(row));
                assert(rest@.to_multiset().add(out@.to_multiset()) =~= left.to_multiset().add(
                    done.to_multiset(),
                ));
            }
        }
    }
    proof {
        broadcast use group_to_multiset_ensures;

        assert(rest@ =~= Seq::empty());
        assert(rest@.to_multiset().add(out@.to_multiset()) =~= out@.to_multiset());
    }
    out
}

} // verus!
