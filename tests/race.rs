use bogosort::race::{Race, RaceError};
use bogosort::searcher::{bogosort_singlethreaded, Phase, Searcher};

/// Runs `workers` searchers in turn, one round each, until all have stopped.
fn run_race(items: Vec<i32>, workers: usize) -> (Result<Vec<i32>, RaceError>, usize) {
    let mut race = Race::new(items);
    let mut rounds = 0;
    if race.is_finished() {
        return (race.collect(true), rounds);
    }
    let mut searchers: Vec<Option<Searcher>> = (0..workers).map(|_| Some(race.searcher())).collect();
    let mut published = 0;
    while searchers.iter().any(|s| s.is_some()) {
        for slot in searchers.iter_mut() {
            let mut s = match slot.take() {
                Some(s) => s,
                None => continue,
            };
            rounds += 1;
            let found = s.attempt();
            if !found {
                s.observe(race.is_finished());
                if s.phase() == Phase::Searching {
                    *slot = Some(s);
                    continue;
                }
            }
            let was_filled = race.result().is_some();
            assert!(race.retire(s));
            if found && !was_filled {
                published += 1;
            }
        }
    }
    assert_eq!(published, 1);
    (race.collect(true), rounds)
}

#[test]
fn duplicates_are_sorted() {
    let (r, _) = run_race(vec![5, 3, 3, 1], 8);
    assert_eq!(r, Ok(vec![1, 3, 3, 5]));
}

#[test]
fn empty_input_needs_no_search() {
    let (r, rounds) = run_race(vec![], 8);
    assert_eq!(r, Ok(vec![]));
    assert_eq!(rounds, 0);
}

#[test]
fn single_value_is_done_at_once() {
    let race = Race::new(vec![1]);
    assert!(race.is_finished());
    assert_eq!(race.result(), Some(vec![1]));
    let (r, rounds) = run_race(vec![1], 8);
    assert_eq!(r, Ok(vec![1]));
    assert_eq!(rounds, 0);
}

#[test]
fn one_worker_and_many_workers_agree() {
    let items = vec![8, 3, 5, 1, 7, 2, 6, 4];
    let (one, _) = run_race(items.clone(), 1);
    let (many, _) = run_race(items, 64);
    assert_eq!(one, Ok(vec![1, 2, 3, 4, 5, 6, 7, 8]));
    assert_eq!(many, Ok(vec![1, 2, 3, 4, 5, 6, 7, 8]));
}

#[test]
fn different_seeds_give_the_same_result() {
    let items = vec![4, -2, 9, 0, 4, 1];
    fastrand::seed(1);
    let (a, _) = run_race(items.clone(), 4);
    fastrand::seed(987_654_321);
    let (b, _) = run_race(items, 4);
    assert_eq!(a, Ok(vec![-2, 0, 1, 4, 4, 9]));
    assert_eq!(a, b);
}

#[test]
fn slot_keeps_its_first_value() {
    let mut race = Race::new(vec![2, 1, 3]);
    assert!(!race.is_finished());
    assert_eq!(race.result(), None);
    assert!(race.publish(vec![1, 2, 3]));
    assert!(race.is_finished());
    assert!(!race.publish(vec![1, 2, 3]));
    assert!(!race.publish(vec![3, 2, 1]));
    assert!(race.is_finished());
    assert_eq!(race.result(), Some(vec![1, 2, 3]));
    assert_eq!(race.result(), race.result());
}

#[test]
fn publish_refuses_an_unsorted_candidate() {
    let mut race = Race::new(vec![2, 1, 3]);
    assert!(!race.publish(vec![2, 1, 3]));
    assert!(!race.publish(vec![1, 2]));
    assert!(!race.is_finished());
    assert_eq!(race.result(), None);
}

#[test]
fn collect_reports_each_error() {
    let race = Race::new(vec![2, 1]);
    assert_eq!(race.collect(true), Err(RaceError::NoResult));
    assert_eq!(race.collect(false), Err(RaceError::WorkerFailed));
    let done = Race::new(vec![4]);
    assert_eq!(done.collect(false), Err(RaceError::WorkerFailed));
}

#[test]
fn searcher_stops_on_signal() {
    let mut s = Searcher::new(vec![3, 1, 2], vec![1, 2, 3]);
    assert_eq!(s.phase(), Phase::Searching);
    s.observe(false);
    assert_eq!(s.phase(), Phase::Searching);
    s.observe(true);
    assert_eq!(s.phase(), Phase::Aborted);
}

#[test]
fn attempt_rearranges_the_working_copy() {
    fastrand::seed(42);
    let items = vec![1, 2, 3, 4, 5, 6];
    let mut moved = false;
    for _ in 0..20 {
        let mut s = Searcher::new(items.clone(), vec![0]);
        assert!(!s.attempt());
        let mut w = s.into_candidate();
        if w != items {
            moved = true;
        }
        w.sort();
        assert_eq!(w, items);
    }
    assert!(moved);
}

#[test]
fn singlethreaded_sorts_within_budget() {
    fastrand::seed(7);
    let (v, ok) = bogosort_singlethreaded(vec![5, 3, 3, 1], u64::MAX);
    assert!(ok);
    assert_eq!(v, vec![1, 3, 3, 5]);
}

#[test]
fn singlethreaded_edge_cases() {
    assert_eq!(bogosort_singlethreaded(vec![], 1), (vec![], true));
    assert_eq!(bogosort_singlethreaded(vec![1], 1), (vec![1], true));
    assert_eq!(bogosort_singlethreaded(vec![2, 2, 2], 1), (vec![2, 2, 2], true));
    assert_eq!(bogosort_singlethreaded(vec![2, 1], 0), (vec![2, 1], false));
}

#[test]
fn retire_publishes_a_found_working_copy() {
    let mut race = Race::new(vec![1, 1, 1]);
    let mut s = race.searcher();
    assert!(s.attempt());
    assert_eq!(s.phase(), Phase::Found);
    assert!(race.retire(s));
    assert_eq!(race.result(), Some(vec![1, 1, 1]));
    assert_eq!(race.collect(true), Ok(vec![1, 1, 1]));
}

#[test]
fn retire_before_the_signal_is_not_counted() {
    let mut race = Race::new(vec![2, 1]);
    let mut s = race.searcher();
    s.observe(true);
    assert!(!race.retire(s));
    assert_eq!(race.collect(true), Err(RaceError::NoResult));
    assert!(race.publish(vec![1, 2]));
    assert!(race.retire(race.searcher()));
    assert_eq!(race.collect(true), Ok(vec![1, 2]));
}
