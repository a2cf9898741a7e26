//! The state that searchers share: the reference target, a write-once result
//! slot and a termination signal that is raised once and never lowered.
use crate::order::{is_permutation, lemma_sorted_permutation_unique, sorted, sorted_copy};
use crate::searcher::{Phase, Searcher};
use vstd::prelude::*;

verus! {

/// What a race holds, as mathematical values.
pub struct RaceView {
    pub input: Seq<i32>,
    pub target: Seq<i32>,
    pub slot: Option<Seq<i32>>,
    pub signal: bool,
    /// Some searcher has been handed back after the signal was raised.
    pub retired: bool,
}

/// Why a race yields no result.
#[derive(Clone, Copy, Debug, PartialEq, Eq, Structural)]
pub enum RaceError {
    /// A searcher ended abnormally, or could not be joined.
    WorkerFailed,
    /// No searcher was handed back after the signal was raised.
    NoResult,
}

/// The shared state of one race: input, target, result slot and signal.
pub struct Race {
    input: Vec<i32>,
    target: Vec<i32>,
    slot: Option<Vec<i32>>,
    signal: bool,
    retired: bool,
}

impl View for Race {
    type V = RaceView;

    closed spec fn view(&self) -> RaceView {
        RaceView {
            input: self.input@,
            target: self.target@,
            slot: match self.slot {
                Some(v) => Some(v@),
                None => None,
            },
            signal: self.signal,
            retired: self.retired,
        }
    }
}

impl RaceView {
    /// The target is the input in ascending order; the signal is raised exactly
    /// when the slot is filled, the slot only ever holds the target, and a
    /// searcher is only retired once the signal is raised.
    pub open spec fn wf(self) -> bool {
        &&& sorted(self.target)
        &&& is_permutation(self.target, self.input)
        &&& self.signal <==> self.slot is Some
        &&& self.slot matches Some(v) ==> v == self.target
        &&& self.retired ==> self.signal
    }

    /// `next` can follow `self`: same input and target, a filled slot keeps its
    /// value, a raised signal stays raised, and so does a retirement.
    pub open spec fn advances_to(self, next: RaceView) -> bool {
        &&& next.input == self.input
        &&& next.target == self.target
        &&& self.slot is Some ==> next.slot == self.slot
        &&& self.signal ==> next.signal
        &&& self.retired ==> next.retired
    }
}

impl Race {
    /// A race over `items`. A sequence of at most one value is already sorted:
    /// its race is finished from the start, with no search at all.
    pub fn new(items: Vec<i32>) -> (r: Race)
        ensures
            r@.wf(),
            r@.input == items@,
            r@.signal == (items@.len() <= 1),
            !r@.retired,
            items@.len() <= 1 ==> r@.slot == Some(items@),
    {
        let target = sorted_copy(&items);
        if items.len() <= 1 {
            proof {
                assert(sorted(items@));
                lemma_sorted_permutation_unique(target@, items@);
            }
            let slot = Some(items.clone());
            Race { input: items, target, slot, signal: true, retired: false }
        } else {
            Race { input: items, target, slot: None, signal: false, retired: false }
        }
    }

    /// A new searcher over copies of the input and of the target.
    pub fn searcher(&self) -> (s: Searcher)
        ensures
            s.work() == self@.input,
            s.target() == self@.target,
            s.phase_spec() == Phase::Searching,
    {
        Searcher::new(self.input.clone(), self.target.clone())
    }

    /// Offer `candidate` as the result. The first candidate equal to the target
    /// fills the slot and raises the signal; any other offer changes nothing.
    /// Returns whether the slot was filled by this offer.
    pub fn publish(&mut self, candidate: Vec<i32>) -> (accepted: bool)
        requires
            old(self)@.wf(),
        ensures
            final(self)@.wf(),
            old(self)@.advances_to(final(self)@),
            accepted == (old(self)@.slot is None && candidate@ == old(self)@.target),
            accepted ==> final(self)@.slot == Some(candidate@),
            !accepted ==> final(self)@ == old(self)@,
            final(self)@.retired == old(self)@.retired,
    {
        if self.slot.is_some() {
            return false;
        }
        if !crate::searcher::same_values(&candidate, &self.target) {
            return false;
        }
        self.slot = Some(candidate);
        self.signal = true;
        true
    }

    /// Take back a searcher that has stopped. One that found the target first
    /// offers its working copy, as `publish` does. The searcher is retired when
    /// the signal is then raised: it stopped for a reason that the race knows.
    /// Returns whether it was retired.
    pub fn retire(&mut self, searcher: Searcher) -> (retired: bool)
        requires
            old(self)@.wf(),
        ensures
            final(self)@.wf(),
            old(self)@.advances_to(final(self)@),
            final(self)@.slot == (if searcher.phase_spec() == Phase::Found && old(self)@.slot is None
                && searcher.work() == old(self)@.target {
                Some(searcher.work())
            } else {
                old(self)@.slot
            }),
            retired == final(self)@.signal,
            final(self)@.retired == (old(self)@.retired || retired),
    {
        if searcher.phase() == Phase::Found {
            self.publish(searcher.into_candidate());
        }
        if self.signal {
            self.retired = true;
        }
        self.signal
    }

    /// Whether the termination signal is raised.
    pub fn is_finished(&self) -> (r: bool)
        ensures
            r == self@.signal,
    {
        self.signal
    }

    /// What the slot holds.
    pub fn result(&self) -> (r: Option<Vec<i32>>)
        ensures
            r matches Some(v) ==> self@.slot == Some(v@),
            r is None ==> self@.slot is None,
    {
        match &self.slot {
            Some(v) => Some(v.clone()),
            None => None,
        }
    }

    /// The outcome once every searcher has stopped; `workers_ok` tells whether
    /// all of them ended normally. Once a searcher has been retired the result
    /// is owed.
    pub fn collect(&self, workers_ok: bool) -> (r: Result<Vec<i32>, RaceError>)
        requires
            self@.wf(),
        ensures
            !workers_ok ==> r == Err::<Vec<i32>, RaceError>(RaceError::WorkerFailed),
            workers_ok && self@.slot is None ==> r == Err::<Vec<i32>, RaceError>(
                RaceError::NoResult,
            ),
            workers_ok && self@.slot is Some ==> (r matches Ok(v) && v@ == self@.target),
            workers_ok && self@.retired ==> (r matches Ok(v) && v@ == self@.target),
    {
        if !workers_ok {
            return Err(RaceError::WorkerFailed);
        }
        match self.result() {
            Some(v) => Ok(v),
            None => Err(RaceError::NoResult),
        }
    }
}

/// The published result is the input in ascending order: it holds the input's
/// values, is sorted, and equals any sorted arrangement of the input.
pub proof fn lemma_result_is_sorted_input(race: RaceView, out: Seq<i32>, sorted_input: Seq<i32>)
    requires
        race.wf(),
        race.slot == Some(out),
        sorted(sorted_input),
        is_permutation(sorted_input, race.input),
    ensures
        sorted(out),
        is_permutation(out, race.input),
        out == sorted_input,
{
    lemma_sorted_permutation_unique(out, sorted_input);
}

/// Two races over the same input publish the same result, however their
/// searches went.
pub proof fn lemma_same_input_same_result(a: RaceView, b: RaceView, x: Seq<i32>, y: Seq<i32>)
    requires
        a.wf(),
        b.wf(),
        a.input == b.input,
        a.slot == Some(x),
        b.slot == Some(y),
    ensures
        x == y,
{
    lemma_sorted_permutation_unique(a.target, b.target);
}

/// Along any run of steps, a filled slot keeps its value for good.
pub proof fn lemma_slot_written_once(run: Seq<RaceView>, i: int, j: int)
    requires
        forall|k: int| 0 <= k < run.len() - 1 ==> #[trigger] run[k].advances_to(run[k + 1]),
        0 <= i <= j < run.len(),
        run[i].slot is Some,
    ensures
        run[j].slot == run[i].slot,
    decreases j - i,
{
    if i < j {
        lemma_slot_written_once(run, i, j - 1);
        let k = j - 1;
        assert(run[k].advances_to(run[k + 1]));
    }
}

/// Along any run of steps, a raised termination signal stays raised.
pub proof fn lemma_signal_stays_raised(run: Seq<RaceView>, i: int, j: int)
    requires
        forall|k: int| 0 <= k < run.len() - 1 ==> #[trigger] run[k].advances_to(run[k + 1]),
        0 <= i <= j < run.len(),
        run[i].signal,
    ensures
        run[j].signal,
    decreases j - i,
{
    if i < j {
        lemma_signal_stays_raised(run, i, j - 1);
        let k = j - 1;
        assert(run[k].advances_to(run[k + 1]));
    }
}

} // verus!
