//! The first element with a property.

use vstd::prelude::*;

verus! {

/// Position of the first element that `p` holds of.
pub open spec fn first_index<T>(s: Seq<T>, p: spec_fn(T) -> bool) -> Option<int>
    decreases s.len(),
{
    if s.len() == 0 {
        None
    } else {
        match first_index(s.drop_last(), p) {
            Some(i) => Some(i),
            None => if p(s.last()) {
                Some(s.len() - 1)
            } else {
                None
            },
        }
    }
}

/// An element that `p` holds of, with none before it, is the first.
pub proof fn lemma_first_index_some<T>(s: Seq<T>, p: spec_fn(T) -> bool, pos: int)
    requires
        0 <= pos < s.len(),
        p(s[pos]),
        forall|i: int| 0 <= i < pos ==> !p(#[trigger] s[i]),
    ensures
        first_index(s, p) == Some(pos),
    decreases s.len(),
{
    let rest = s.drop_last();
    if pos < rest.len() {
        lemma_first_index_some(rest, p, pos);
    } else {
        lemma_first_index_none(rest, p);
    }
}

/// Where `p` holds of no element there is no first.
pub proof fn lemma_first_index_none<T>(s: Seq<T>, p: spec_fn(T) -> bool)
    requires
        forall|i: int| 0 <= i < s.len() ==> !p(#[trigger] s[i]),
    ensures
        first_index(s, p) == None::<int>,
    decreases s.len(),
{
    if s.len() > 0 {
        let rest = s.drop_last();
        assert forall|i: int| 0 <= i < rest.len() implies !p(#[trigger] rest[i]) by {
            assert(rest[i] == s[i]);
        }
        lemma_first_index_none(rest, p);
        assert(!p(s[s.len() - 1]));
    }
}

/// The first element with a property has it, and none before it has.
pub proof fn lemma_first_index<T>(s: Seq<T>, p: spec_fn(T) -> bool)
    ensures
        match first_index(s, p) {
            Some(pos) => 0 <= pos < s.len() && p(s[pos]) && forall|i: int|
                0 <= i < pos ==> !p(#[trigger] s[i]),
            None => forall|i: int| 0 <= i < s.len() ==> !p(#[trigger] s[i]),
        },
    decreases s.len(),
{
    if s.len() > 0 {
        let rest = s.drop_last();
        lemma_first_index(rest, p);
        match first_index(rest, p) {
            Some(pos) => {
                assert(rest[pos] == s[pos]);
                assert forall|i: int| 0 <= i < pos implies !p(#[trigger] s[i]) by {
                    assert(rest[i] == s[i]);
                }
            },
            None => {
                assert forall|i: int| 0 <= i < s.len() - 1 implies !p(#[trigger] s[i]) by {
                    assert(rest[i] == s[i]);
                }
            },
        }
    }
}

/// Position of the first element that `pred` accepts.
pub(crate) fn find_first<T, F: Fn(&T) -> bool>(
    items: &Vec<T>,
    pred: F,
    Ghost(p): Ghost<spec_fn(T) -> bool>,
) -> (pos: Option<usize>)
    requires
        forall|t: T| #[trigger] call_requires(pred, (&t,)),
        forall|t: T, b: bool| #[trigger] call_ensures(pred, (&t,), b) ==> b == p(t),
    ensures
        match pos {
            Some(i) => first_index(items@, p) == Some(i as int) && i < items@.len() && p(
                items@[i as int],
            ),
            None => first_index(items@, p) == None::<int>,
        },
{
    let mut i: usize = 0;
    while i < items.len()
        invariant
            i <= items@.len(),
            forall|t: T| #[trigger] call_requires(pred, (&t,)),
            forall|t: T, b: bool| #[trigger] call_ensures(pred, (&t,), b) ==> b == p(t),
            forall|j: int| 0 <= j < i ==> !p(#[trigger] items@[j]),
        decreases items@.len() - i,
    {
        if pred(&items[i]) {
            proof {
                lemma_first_index_some(items@, p, i as int);
            }
            return Some(i);
        }
        i += 1;
    }
    proof {
        lemma_first_index_none(items@, p);
    }
    None
}

} // verus!
