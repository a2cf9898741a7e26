//! A searcher: a private working copy that is shuffled until it equals the
//! reference target, or until the searcher learns that another one succeeded.
use crate::order::{is_permutation, is_sorted, sorted};
use crate::random::shuffle;
use vstd::prelude::*;

verus! {

/// Where a searcher stands. `Found` and `Aborted` are final.
#[derive(Clone, Copy, Debug, PartialEq, Eq, Structural)]
pub enum Phase {
    Searching,
    Found,
    Aborted,
}

/// Whether `a` and `b` hold the same values in the same order.
pub fn same_values(a: &Vec<i32>, b: &Vec<i32>) -> (r: bool)
    ensures
        r == (a@ == b@),
{
    if a.len() != b.len() {
        return false;
    }
    let mut i: usize = 0;
    while i < a.len()
        invariant
            a@.len() == b@.len(),
            i <= a@.len(),
            forall|k: int| 0 <= k < i ==> a@[k] == b@[k],
        decreases a@.len() - i,
    {
        if a[i] != b[i] {
            return false;
        }
        i += 1;
    }
    assert(a@ =~= b@);
    true
}

/// A worker's private state: its working copy and its copy of the target.
pub struct Searcher {
    work: Vec<i32>,
    target: Vec<i32>,
    phase: Phase,
}

impl Searcher {
    /// The working copy.
    pub closed spec fn work(&self) -> Seq<i32> {
        self.work@
    }

    /// The reference target that the working copy is compared with.
    pub closed spec fn target(&self) -> Seq<i32> {
        self.target@
    }

    /// Where the searcher stands.
    pub closed spec fn phase_spec(&self) -> Phase {
        self.phase
    }

    /// A searcher that starts from `items` and looks for `target`.
    pub fn new(items: Vec<i32>, target: Vec<i32>) -> (s: Searcher)
        ensures
            s.work() == items@,
            s.target() == target@,
            s.phase_spec() == Phase::Searching,
    {
        Searcher { work: items, target, phase: Phase::Searching }
    }

    pub fn phase(&self) -> (r: Phase)
        ensures
            r == self.phase_spec(),
    {
        self.phase
    }

    /// One round: shuffle the working copy and compare it with the target.
    /// On a match the searcher has found its result.
    pub fn attempt(&mut self) -> (found: bool)
        requires
            old(self).phase_spec() == Phase::Searching,
        ensures
            is_permutation(final(self).work(), old(self).work()),
            final(self).target() == old(self).target(),
            found == (final(self).work() == final(self).target()),
            final(self).phase_spec() == (if found {
                Phase::Found
            } else {
                Phase::Searching
            }),
    {
        shuffle(&mut self.work);
        let found = same_values(&self.work, &self.target);
        if found {
            self.phase = Phase::Found;
        }
        found
    }

    /// After a failed round: stop if the termination signal has been seen.
    pub fn observe(&mut self, signal: bool)
        requires
            old(self).phase_spec() == Phase::Searching,
        ensures
            final(self).work() == old(self).work(),
            final(self).target() == old(self).target(),
            final(self).phase_spec() == (if signal {
                Phase::Aborted
            } else {
                Phase::Searching
            }),
    {
        if signal {
            self.phase = Phase::Aborted;
        }
    }

    /// The working copy, handed over for publishing.
    pub fn into_candidate(self) -> (r: Vec<i32>)
        ensures
            r@ == self.work(),
    {
        self.work
    }
}

/// Every value of `s` is the same.
pub open spec fn all_same(s: Seq<i32>) -> bool {
    forall|i: int, j: int| 0 <= i < s.len() && 0 <= j < s.len() ==> s[i] == s[j]
}

proof fn lemma_permutation_of_all_same_is_sorted(a: Seq<i32>, b: Seq<i32>)
    requires
        is_permutation(a, b),
        all_same(b),
    ensures
        sorted(a),
{
    broadcast use vstd::seq_lib::group_to_multiset_ensures;

    assert forall|i: int, j: int| 0 <= i < j < a.len() implies a[i] <= a[j] by {
        assert(a.to_multiset().contains(a[i]));
        assert(a.to_multiset().contains(a[j]));
        assert(b.contains(a[i]));
        assert(b.contains(a[j]));
    }
}

/// Single-threaded bogosort: shuffle `items` until they are sorted, for at most
/// `max_shuffles` rounds. Returns the last arrangement and whether it is sorted.
pub fn bogosort_singlethreaded(items: Vec<i32>, max_shuffles: u64) -> (r: (Vec<i32>, bool))
    ensures
        is_permutation(r.0@, items@),
        r.1 == sorted(r.0@),
        max_shuffles == 0 ==> r.0@ == items@ && !r.1 == !sorted(items@),
        max_shuffles > 0 && all_same(items@) ==> r.1,
{
    let mut work = items;
    if max_shuffles == 0 {
        let done = is_sorted(&work);
        return (work, done);
    }
    let mut left: u64 = max_shuffles;
    loop
        invariant
            is_permutation(work@, items@),
            0 < left <= max_shuffles,
        decreases left,
    {
        shuffle(&mut work);
        if is_sorted(&work) {
            return (work, true);
        }
        proof {
            if all_same(items@) {
                lemma_permutation_of_all_same_is_sorted(work@, items@);
            }
        }
        if left == 1 {
            return (work, false);
        }
        left -= 1;
    }
}

} // verus!
