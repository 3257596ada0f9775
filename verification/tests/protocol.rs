//! The growable-buffer protocol, driven by simulated probes.

use proc_experiments::buffer::fill_vec;
use proc_experiments::buffer::grow;
use proc_experiments::buffer::probe_step;
use proc_experiments::buffer::Probe;
use proc_experiments::buffer::Step;
use proc_experiments::probes::CountingProbe;
use proc_experiments::probes::FailingProbe;
use proc_experiments::probes::FixedResultProbe;
use proc_experiments::processes::ProcessError;

#[test]
fn first_fit_makes_one_call() {
    let mut probe = CountingProbe {
        inner: FixedResultProbe { data: vec![7u32, 8] },
        calls: 0,
    };
    let r: Result<Vec<u32>, ProcessError> = fill_vec(&mut probe, 0, 10);
    assert_eq!(r, Ok(vec![7, 8]));
    assert_eq!(probe.calls, 1);
}

#[test]
fn never_shrinking_probe_keeps_doubling() {
    // A probe whose report always reaches the buffer's capacity never lets the
    // protocol finish; a capped loop shows the capacities it would be offered.
    let mut probe: FixedResultProbe<u32> = FixedResultProbe {
        data: vec![9u32; 100],
    };
    let mut capacity: usize = 2;
    let mut seen = Vec::new();
    for _ in 0..5 {
        let mut buf = vec![0u32; capacity];
        let r: Result<usize, ProcessError> = probe.probe(&mut buf);
        assert_eq!(r, Ok(capacity));
        match probe_step(r, capacity) {
            Step::Retry(next) => {
                seen.push(capacity);
                capacity = next;
            }
            other => panic!("expected a retry, got {:?}", other),
        }
    }
    assert_eq!(seen, vec![2, 4, 8, 16, 32]);
    assert_eq!(capacity, 64);
}

#[test]
fn repeated_query_returns_equal_results() {
    let mut probe = FixedResultProbe {
        data: vec![3u32, 1, 4, 1, 5],
    };
    let first: Result<Vec<u32>, ProcessError> = fill_vec(&mut probe, 0, 2);
    let second: Result<Vec<u32>, ProcessError> = fill_vec(&mut probe, 0, 2);
    assert_eq!(first, second);
    assert_eq!(first, Ok(vec![3, 1, 4, 1, 5]));
}

#[test]
fn exact_capacity_match_still_converges() {
    // A true result of exactly the initial capacity reports a count equal to
    // that capacity, which costs one redundant retry but returns the result
    // uncorrupted.
    let mut probe = CountingProbe {
        inner: FixedResultProbe { data: vec![1u32, 2, 3, 4] },
        calls: 0,
    };
    let r: Result<Vec<u32>, ProcessError> = fill_vec(&mut probe, 0, 4);
    assert_eq!(r, Ok(vec![1, 2, 3, 4]));
    assert_eq!(probe.calls, 2);
}

#[test]
fn any_initial_capacity_returns_full_result() {
    for initial in 1..12usize {
        let mut probe = FixedResultProbe {
            data: vec![1u32, 2, 3, 4],
        };
        let r: Result<Vec<u32>, ProcessError> = fill_vec(&mut probe, 0, initial);
        assert_eq!(r, Ok(vec![1, 2, 3, 4]));
    }
}

#[test]
fn first_failure_stops_without_retry() {
    let mut probe: CountingProbe<FailingProbe<ProcessError>> = CountingProbe {
        inner: FailingProbe { error: ProcessError::ProcessListError },
        calls: 0,
    };
    let r: Result<Vec<u32>, ProcessError> = fill_vec(&mut probe, 0, 8);
    assert_eq!(r, Err(ProcessError::ProcessListError));
    assert_eq!(probe.calls, 1);
}

#[test]
fn any_error_type_passes_through() {
    // The protocol is generic in the failure type; a probe that only succeeds
    // never has to name one.
    let mut probe = FixedResultProbe { data: vec![6u32] };
    let r: Result<Vec<u32>, String> = fill_vec(&mut probe, 0, 4);
    assert_eq!(r, Ok(vec![6]));
}

#[test]
fn grow_doubles_and_saturates() {
    assert_eq!(grow(1), 2);
    assert_eq!(grow(512), 1024);
    assert_eq!(grow(usize::MAX / 2), usize::MAX - 1);
    assert_eq!(grow(usize::MAX / 2 + 1), usize::MAX);
    assert_eq!(grow(usize::MAX), usize::MAX);
}

#[test]
fn probe_step_decides_each_report() {
    assert_eq!(
        probe_step::<ProcessError>(Ok(3), 4),
        Step::Done(3)
    );
    assert_eq!(
        probe_step::<ProcessError>(Ok(4), 4),
        Step::Retry(8)
    );
    assert_eq!(
        probe_step::<ProcessError>(Ok(9), 4),
        Step::Retry(8)
    );
    assert_eq!(
        probe_step(Err(ProcessError::ProcessListError), 4),
        Step::Fail(ProcessError::ProcessListError)
    );
}
