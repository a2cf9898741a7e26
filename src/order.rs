//! What "sorted" means, and the two outside routines that the library relies on
//! to sort a sequence and to test whether one is sorted.
use itertools::Itertools;
use vstd::prelude::*;
use vstd::relations::{sorted_by, total_ordering};
use vstd::seq_lib::lemma_sorted_unique;

verus! {

/// Every value is at most every later value.
pub open spec fn sorted(s: Seq<i32>) -> bool {
    forall|i: int, j: int| 0 <= i < j < s.len() ==> s[i] <= s[j]
}

/// Every value is at most its right neighbour.
pub open spec fn neighbours_ordered(s: Seq<i32>) -> bool {
    forall|i: int| 0 <= i < s.len() - 1 ==> #[trigger] s[i] <= s[i + 1]
}

/// `a` and `b` hold the same values, each as many times.
pub open spec fn is_permutation(a: Seq<i32>, b: Seq<i32>) -> bool {
    a.to_multiset() == b.to_multiset()
}

/// Ordered neighbours are the same thing as an ordered sequence.
pub proof fn lemma_neighbours_ordered_iff_sorted(s: Seq<i32>)
    ensures
        neighbours_ordered(s) <==> sorted(s),
{
    if neighbours_ordered(s) {
        assert forall|i: int, j: int| 0 <= i < j < s.len() implies s[i] <= s[j] by {
            lemma_ordered_from(s, i, j);
        }
    }
}

proof fn lemma_ordered_from(s: Seq<i32>, i: int, j: int)
    requires
        neighbours_ordered(s),
        0 <= i <= j < s.len(),
    ensures
        s[i] <= s[j],
    decreases j - i,
{
    if i < j {
        lemma_ordered_from(s, i, j - 1);
    }
}

/// A sequence has exactly one sorted arrangement: two sorted permutations of
/// each other are equal.
pub proof fn lemma_sorted_permutation_unique(a: Seq<i32>, b: Seq<i32>)
    requires
        sorted(a),
        sorted(b),
        is_permutation(a, b),
    ensures
        a == b,
{
    let le = |x: i32, y: i32| x <= y;
    assert(total_ordering(le));
    assert(sorted_by(a, le));
    assert(sorted_by(b, le));
    lemma_sorted_unique(a, b, le);
}

/// Relies on `slice::sort`: it sorts the values in ascending order, keeping each
/// of them.
#[verifier::external_body]
fn sort_values(v: &mut Vec<i32>)
    ensures
        sorted(final(v)@),
        is_permutation(final(v)@, old(v)@),
{
    v.sort();
}

/// Relies on `Itertools::tuple_windows`: it yields each pair of neighbours, in
/// order, and nothing when there are fewer than two values.
#[verifier::external_body]
fn neighbour_pairs(v: &Vec<i32>) -> (r: Vec<(i32, i32)>)
    ensures
        r@.len() == (if v@.len() == 0 {
            0
        } else {
            v@.len() - 1
        }),
        forall|i: int| 0 <= i < r@.len() ==> #[trigger] r@[i] == (v@[i], v@[i + 1]),
{
    v.iter().copied().tuple_windows::<(i32, i32)>().collect()
}

/// Whether each pair holds its values in ascending order.
fn pairs_ascending(pairs: &Vec<(i32, i32)>) -> (r: bool)
    ensures
        r == forall|i: int| 0 <= i < pairs@.len() ==> #[trigger] pairs@[i].0 <= pairs@[i].1,
{
    let mut i: usize = 0;
    while i < pairs.len()
        invariant
            i <= pairs@.len(),
            forall|k: int| 0 <= k < i ==> #[trigger] pairs@[k].0 <= pairs@[k].1,
        decreases pairs@.len() - i,
    {
        let (a, b) = pairs[i];
        if a > b {
            return false;
        }
        i += 1;
    }
    true
}

/// Whether `v` is in ascending order.
pub fn is_sorted(v: &Vec<i32>) -> (r: bool)
    ensures
        r == sorted(v@),
{
    let pairs = neighbour_pairs(v);
    let r = pairs_ascending(&pairs);
    proof {
        lemma_neighbours_ordered_iff_sorted(v@);
        if r {
            assert forall|i: int| 0 <= i < v@.len() - 1 implies #[trigger] v@[i] <= v@[i + 1] by {
                assert(pairs@[i] == (v@[i], v@[i + 1]));
                assert(pairs@[i].0 <= pairs@[i].1);
            }
        } else {
            let k = choose|k: int| 0 <= k < pairs@.len() && !(#[trigger] pairs@[k].0 <= pairs@[k].1);
            assert(pairs@[k] == (v@[k], v@[k + 1]));
        }
    }
    r
}

/// The reference target: `items` in ascending order.
pub fn sorted_copy(items: &Vec<i32>) -> (r: Vec<i32>)
    ensures
        sorted(r@),
        is_permutation(r@, items@),
{
    let mut r = items.clone();
    sort_values(&mut r);
    r
}

} // verus!
