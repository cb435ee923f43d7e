use thunky::Action;
use thunky::Phase;
use thunky::Thunky;

/// Drive one request for `id`, running `produce` if the cell asks for a
/// launch, and record every completion that fires as `(id, outcome)`.
fn request(
    cell: &mut Thunky<u32, &'static str, u32>,
    id: u32,
    produce: fn(&mut u32) -> Result<u32, &'static str>,
    counter: &mut u32,
    observed: &mut Vec<(u32, Result<u32, &'static str>)>,
) {
    match cell.run(id) {
        Action::Launch => {
            let outcome = produce(counter);
            let drained = cell.cache(outcome);
            let cached = cell.peek().clone().unwrap();
            for waiter in drained {
                observed.push((waiter, cached.clone()));
            }
        }
        Action::Queued => {}
        Action::Ready(ready_id) => {
            let cached = cell.peek().clone().unwrap();
            observed.push((ready_id, cached));
        }
    }
}

fn count_and_succeed(counter: &mut u32) -> Result<u32, &'static str> {
    *counter += 1;
    Ok(*counter)
}

fn fail_twice_then_succeed(counter: &mut u32) -> Result<u32, &'static str> {
    *counter += 1;
    if *counter <= 2 {
        Err("stop")
    } else {
        Ok(*counter)
    }
}

#[test]
fn new_cell_is_idle_and_empty() {
    let cell: Thunky<u32, &'static str, u32> = Thunky::new();
    assert_eq!(cell.phase(), Phase::Idle);
    assert_eq!(*cell.peek(), None);
}

#[test]
fn producer_runs_only_once() {
    let mut cell: Thunky<u32, &'static str, u32> = Thunky::new();
    let mut counter: u32 = 0;
    let mut observed = Vec::new();
    for id in 1..=3u32 {
        request(&mut cell, id, count_and_succeed, &mut counter, &mut observed);
    }
    assert_eq!(counter, 1);
    assert_eq!(observed, vec![(1, Ok(1)), (2, Ok(1)), (3, Ok(1))]);
    assert_eq!(cell.phase(), Phase::Settled);
}

#[test]
fn failed_rounds_retry_until_success() {
    let mut cell: Thunky<u32, &'static str, u32> = Thunky::new();
    let mut counter: u32 = 0;
    let mut observed = Vec::new();
    for id in 1..=4u32 {
        request(&mut cell, id, fail_twice_then_succeed, &mut counter, &mut observed);
    }
    assert_eq!(counter, 3);
    assert_eq!(observed, vec![(1, Err("stop")), (2, Err("stop")), (3, Ok(3)), (4, Ok(3))]);
}

#[test]
fn deferred_report_notifies_all_requesters() {
    let mut cell: Thunky<u32, &'static str, u32> = Thunky::new();
    let mut launches: u32 = 0;
    for id in 1..=2u32 {
        match cell.run(id) {
            Action::Launch => launches += 1,
            Action::Queued => {}
            Action::Ready(_) => panic!("nothing is cached yet"),
        }
    }
    assert_eq!(launches, 1);
    assert_eq!(cell.phase(), Phase::Pending);
    let drained = cell.cache(Ok(42));
    assert_eq!(drained, vec![2, 1]);
    assert_eq!(*cell.peek(), Some(Ok(42)));
    assert_eq!(cell.phase(), Phase::Settled);
}

#[test]
fn retry_after_failure_resets_to_idle() {
    let mut cell: Thunky<u32, &'static str, u32> = Thunky::new();
    assert!(matches!(cell.run(1), Action::Launch));
    let drained = cell.cache(Err("boom"));
    assert_eq!(drained, vec![1]);
    assert_eq!(cell.phase(), Phase::Idle);
    assert_eq!(*cell.peek(), Some(Err("boom")));
    assert!(matches!(cell.run(2), Action::Launch));
    assert_eq!(cell.phase(), Phase::Pending);
    assert_eq!(*cell.peek(), None);
}

#[test]
fn success_is_sticky_against_late_reports() {
    let mut cell: Thunky<u32, &'static str, u32> = Thunky::new();
    assert!(matches!(cell.run(1), Action::Launch));
    cell.cache(Ok(5));
    let late_failure = cell.cache(Err("late"));
    assert!(late_failure.is_empty());
    assert_eq!(*cell.peek(), Some(Ok(5)));
    assert_eq!(cell.phase(), Phase::Settled);
    let late_success = cell.cache(Ok(6));
    assert!(late_success.is_empty());
    assert_eq!(*cell.peek(), Some(Ok(5)));
    assert_eq!(cell.phase(), Phase::Settled);
}

#[test]
fn settled_request_is_served_from_cache() {
    let mut cell: Thunky<u32, &'static str, u32> = Thunky::new();
    assert!(matches!(cell.run(1), Action::Launch));
    cell.cache(Ok(9));
    match cell.run(7) {
        Action::Ready(id) => assert_eq!(id, 7),
        _ => panic!("a settled cell serves requests at once"),
    }
    assert_eq!(*cell.peek(), Some(Ok(9)));
}

#[test]
fn every_waiter_is_drained_exactly_once() {
    let mut cell: Thunky<u32, &'static str, u32> = Thunky::new();
    for id in 1..=5u32 {
        cell.run(id);
    }
    let drained = cell.cache(Err("all out"));
    assert_eq!(drained, vec![5, 4, 3, 2, 1]);
    let again = cell.cache(Err("nobody left"));
    assert!(again.is_empty());
}

#[test]
fn equal_completion_tokens_are_notified_once_each() {
    let mut cell: Thunky<u32, &'static str, u32> = Thunky::new();
    cell.run(7);
    cell.run(7);
    cell.run(7);
    let drained = cell.cache(Ok(1));
    assert_eq!(drained, vec![7, 7, 7]);
}

#[test]
fn stray_report_on_idle_cell_is_cached() {
    let mut cell: Thunky<u32, &'static str, u32> = Thunky::new();
    let drained = cell.cache(Ok(3));
    assert!(drained.is_empty());
    assert_eq!(cell.phase(), Phase::Settled);
    assert_eq!(*cell.peek(), Some(Ok(3)));

    let mut other: Thunky<u32, &'static str, u32> = Thunky::new();
    let drained = other.cache(Err("early"));
    assert!(drained.is_empty());
    assert_eq!(other.phase(), Phase::Idle);
    assert_eq!(*other.peek(), Some(Err("early")));
}
