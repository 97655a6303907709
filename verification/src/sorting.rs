//! Ascending order of ordinals.

use vstd::prelude::*;
use vstd::relations::{sorted_by, total_ordering};
use vstd::seq_lib::{lemma_multiset_commutative, lemma_sorted_unique, to_multiset_build, to_multiset_len};

verus! {

/// The order that ordinals are put in: that of the integers.
pub open spec fn ordinal_order() -> spec_fn(i32, i32) -> bool {
    |a: i32, b: i32| a <= b
}

/// Whether a sequence never falls.
pub open spec fn is_ascending(s: Seq<i32>) -> bool {
    forall|i: int, j: int| 0 <= i <= j < s.len() ==> s[i] <= s[j]
}

/// The ascending arrangement of a sequence: the same items, each as often as
/// before, in an order that never falls.
pub open spec fn ascending(s: Seq<i32>) -> Seq<i32> {
    s.sort_by(ordinal_order())
}

proof fn lemma_ordinal_order_is_total()
    ensures
        total_ordering(ordinal_order()),
{
}

proof fn lemma_ascending_is_sorted_by(s: Seq<i32>)
    ensures
        is_ascending(s) <==> sorted_by(s, ordinal_order()),
{
    if sorted_by(s, ordinal_order()) {
        assert forall|i: int, j: int| 0 <= i <= j < s.len() implies s[i] <= s[j] by {
            if i < j {
                assert(ordinal_order()(s[i], s[j]));
            }
        }
    }
    if is_ascending(s) {
        assert forall|i: int, j: int| 0 <= i < j < s.len() implies #[trigger] ordinal_order()(s[i], s[j]) by {
            assert(s[i] <= s[j]);
        }
    }
}

/// The ascending arrangement never falls, holds the items of the sequence,
/// each as often as the sequence does, and so has its length.
pub proof fn lemma_ascending_arranges(s: Seq<i32>)
    ensures
        is_ascending(ascending(s)),
        ascending(s).to_multiset() == s.to_multiset(),
        ascending(s).len() == s.len(),
{
    lemma_ordinal_order_is_total();
    s.lemma_sort_by_ensures(ordinal_order());
    lemma_ascending_is_sorted_by(ascending(s));
    to_multiset_len(s);
    to_multiset_len(ascending(s));
}

/// Two ascending sequences that hold the same items, each as often, are one
/// sequence.
pub proof fn lemma_ascending_unique(a: Seq<i32>, b: Seq<i32>)
    requires
        is_ascending(a),
        is_ascending(b),
        a.to_multiset() == b.to_multiset(),
    ensures
        a == b,
{
    lemma_ordinal_order_is_total();
    lemma_ascending_is_sorted_by(a);
    lemma_ascending_is_sorted_by(b);
    lemma_sorted_unique(a, b, ordinal_order());
}

/// An ascending sequence is its own ascending arrangement.
pub proof fn lemma_ascending_fixed(s: Seq<i32>)
    requires
        is_ascending(s),
    ensures
        ascending(s) == s,
{
    lemma_ascending_arranges(s);
    lemma_ascending_unique(ascending(s), s);
}

/// Merges two ascending vectors into one.
fn merge(left: &Vec<i32>, right: &Vec<i32>) -> (out: Vec<i32>)
    requires
        is_ascending(left@),
        is_ascending(right@),
    ensures
        is_ascending(out@),
        out@.to_multiset() == left@.to_multiset().add(right@.to_multiset()),
{
    let mut out: Vec<i32> = Vec::new();
    let mut i: usize = 0;
    let mut j: usize = 0;
    proof {
        let nothing = Seq::<i32>::empty();
        assert(out@ =~= nothing);
        assert(left@.take(0) =~= nothing);
        assert(right@.take(0) =~= nothing);
        assert(nothing + nothing =~= nothing);
        lemma_multiset_commutative(nothing, nothing);
    }
    while i < left.len() || j < right.len()
        invariant
            i <= left.len(),
            j <= right.len(),
            is_ascending(left@),
            is_ascending(right@),
            is_ascending(out@),
            out@.to_multiset() == left@.take(i as int).to_multiset().add(
                right@.take(j as int).to_multiset(),
            ),
            forall|k: int| 0 <= k < out@.len() && i < left.len() ==> out@[k] <= left@[i as int],
            forall|k: int| 0 <= k < out@.len() && j < right.len() ==> out@[k] <= right@[j as int],
        decreases left.len() - i + right.len() - j,
    {
        let from_left = if i < left.len() && j < right.len() {
            left[i] <= right[j]
        } else {
            i < left.len()
        };
        let ghost before = out@;
        if from_left {
            let item = left[i];
            out.push(item);
            proof {
                assert(left@.take(i + 1) =~= left@.take(i as int).push(item));
                to_multiset_build(left@.take(i as int), item);
                to_multiset_build(before, item);
            }
            i = i + 1;
        } else {
            let item = right[j];
            out.push(item);
            proof {
                assert(right@.take(j + 1) =~= right@.take(j as int).push(item));
                to_multiset_build(right@.take(j as int), item);
                to_multiset_build(before, item);
            }
            j = j + 1;
        }
    }
    assert(left@.take(i as int) =~= left@);
    assert(right@.take(j as int) =~= right@);
    out
}

/// Sorts the items of `values` from `lo` up to `hi`.
fn sort_range(values: &Vec<i32>, lo: usize, hi: usize) -> (out: Vec<i32>)
    requires
        lo <= hi <= values.len(),
    ensures
        is_ascending(out@),
        out@.to_multiset() == values@.subrange(lo as int, hi as int).to_multiset(),
    decreases hi - lo,
{
    if hi - lo <= 1 {
        let mut out: Vec<i32> = Vec::new();
        if lo < hi {
            out.push(values[lo]);
        }
        assert(out@ =~= values@.subrange(lo as int, hi as int));
        out
    } else {
        let mid = lo + (hi - lo) / 2;
        let left = sort_range(values, lo, mid);
        let right = sort_range(values, mid, hi);
        proof {
            let whole = values@.subrange(lo as int, hi as int);
            let low = values@.subrange(lo as int, mid as int);
            let high = values@.subrange(mid as int, hi as int);
            assert(whole =~= low + high);
            lemma_multiset_commutative(low, high);
        }
        merge(&left, &right)
    }
}

/// Puts a vector of ordinals in ascending order. Equal ordinals are
/// indistinguishable, so the result is the one ascending arrangement of the
/// input.
pub fn sort_ascending(values: &Vec<i32>) -> (sorted: Vec<i32>)
    ensures
        sorted@ == ascending(values@),
        is_ascending(sorted@),
        sorted@.to_multiset() == values@.to_multiset(),
        sorted@.len() == values@.len(),
{
    let sorted = sort_range(values, 0, values.len());
    proof {
        assert(values@.subrange(0, values@.len() as int) =~= values@);
        lemma_ascending_arranges(values@);
        lemma_ascending_unique(sorted@, ascending(values@));
    }
    sorted
}

} // verus!
