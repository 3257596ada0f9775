//! The two process queries, driven by simulated probes.

use proc_experiments::probes::CountingProbe;
use proc_experiments::probes::FixedPathProbe;
use proc_experiments::probes::FixedResultProbe;
use proc_experiments::processes::get_process_list;
use proc_experiments::processes::get_process_name;
use proc_experiments::processes::list_report;
use proc_experiments::processes::name_report;
use proc_experiments::processes::ProcessError;

#[test]
fn list_of_three_with_tiny_buffer() {
    let mut probe = CountingProbe {
        inner: FixedResultProbe { data: vec![10u32, 20, 30] },
        calls: 0,
    };
    let r: Result<Vec<u32>, ProcessError> = proc_experiments::buffer::fill_vec(&mut probe, 0u32, 2);
    assert_eq!(r, Ok(vec![10, 20, 30]));
    // Capacity 2 reports 2, one retry to capacity 4 fits all three.
    assert_eq!(probe.calls, 2);
}

#[test]
fn process_list_returns_snapshot() {
    let mut probe = FixedResultProbe {
        data: vec![4u32, 8, 15, 16, 23, 42],
    };
    let r = get_process_list(&mut probe);
    assert_eq!(r, Ok(vec![4, 8, 15, 16, 23, 42]));
}

#[test]
fn empty_process_list_is_not_an_error() {
    let mut probe: FixedResultProbe<u32> = FixedResultProbe { data: Vec::new() };
    let r = get_process_list(&mut probe);
    assert_eq!(r, Ok(Vec::new()));
}

#[test]
fn path_one_below_capacity_retries_once() {
    // A 511-byte path at capacity 512: the OS reports 511 bytes, the probe
    // reports 512 for the uncounted terminator, which equals the capacity and
    // forces one retry; at 1024 the full path comes back.
    let mut probe = CountingProbe {
        inner: FixedPathProbe {
            path: vec![b'a'; 511],
            denied: false,
        },
        calls: 0,
    };
    let r = get_process_name(&mut probe);
    let name = r.expect("the path fits after one retry");
    assert_eq!(probe.calls, 2);
    assert_eq!(name.len(), 512);
    let mut expected = "a".repeat(511);
    expected.push('\u{0}');
    assert_eq!(name, expected);
}

#[test]
fn permission_failure_is_terminal() {
    let mut probe = CountingProbe {
        inner: FixedPathProbe {
            path: vec![b'x'; 20],
            denied: true,
        },
        calls: 0,
    };
    let r = get_process_name(&mut probe);
    assert_eq!(r, Err(ProcessError::ProcessInformationError));
    assert_eq!(probe.calls, 1);
}

#[test]
fn invalid_utf8_decodes_to_replacement() {
    let mut probe = FixedPathProbe {
        path: vec![b'a', b'b', b'c', 0xFF],
        denied: false,
    };
    let r = get_process_name(&mut probe);
    assert_eq!(r, Ok(String::from("abc\u{FFFD}\u{0}")));
}

#[test]
fn empty_path_reports_information_error() {
    let mut probe = FixedPathProbe {
        path: Vec::new(),
        denied: false,
    };
    let r = get_process_name(&mut probe);
    assert_eq!(r, Err(ProcessError::ProcessInformationError));
}

#[test]
fn list_report_counts_identifiers() {
    assert_eq!(list_report(true, 12), Ok(3));
    assert_eq!(list_report(true, 0), Ok(0));
    assert_eq!(list_report(false, 12), Err(ProcessError::ProcessListError));
}

#[test]
fn name_report_adds_terminator() {
    assert_eq!(name_report(511), Ok(512));
    assert_eq!(name_report(1), Ok(2));
    assert_eq!(name_report(0), Err(ProcessError::ProcessInformationError));
}
