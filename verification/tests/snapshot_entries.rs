use process_inspector::memory::MemoryProbe;
use process_inspector::snapshot::{
    get_process_list, snapshot_entry, AccessDeniedPolicy, EnumerationError, ProbeOutcome,
    ProcessInfo, ProcessProbe, MAX_PROCESS_IDS,
};

fn wide(text: &str) -> Vec<u16> {
    text.encode_utf16().collect()
}

fn opened(pid: u32, path: &str, memory: MemoryProbe) -> ProcessProbe {
    ProcessProbe { pid, outcome: ProbeOutcome::Opened { path: wide(path), memory } }
}

fn denied(pid: u32) -> ProcessProbe {
    ProcessProbe { pid, outcome: ProbeOutcome::Denied }
}

fn info(pid: u32, name: &str, memory: &str) -> ProcessInfo {
    ProcessInfo { pid, name: name.to_string(), memory: memory.to_string() }
}

#[test]
fn list_failure_is_the_one_error() {
    assert_eq!(
        get_process_list(None, AccessDeniedPolicy::Omit),
        Err(EnumerationError::ListFailure)
    );
    assert_eq!(
        get_process_list(None, AccessDeniedPolicy::ReportWithSentinel),
        Err(EnumerationError::ListFailure)
    );
}

#[test]
fn list_failure_has_a_text() {
    assert_eq!(EnumerationError::ListFailure.message(), "Failed to enumerate processes");
}

#[test]
fn empty_listing_gives_empty_snapshot() {
    assert_eq!(get_process_list(Some(&vec![]), AccessDeniedPolicy::Omit), Ok(vec![]));
}

#[test]
fn opened_process_is_listed_with_name_and_memory() {
    let probes = vec![opened(
        4,
        "C:\\Windows\\System32\\ntoskrnl.exe",
        MemoryProbe::WorkingSet(150_000),
    )];
    assert_eq!(
        get_process_list(Some(&probes), AccessDeniedPolicy::Omit),
        Ok(vec![info(4, "ntoskrnl.exe", "146 KB")])
    );
}

#[test]
fn denied_process_is_omitted_under_omit() {
    let probes = vec![opened(4, "C:\\a.exe", MemoryProbe::WorkingSet(2048)), denied(4200)];
    assert_eq!(
        get_process_list(Some(&probes), AccessDeniedPolicy::Omit),
        Ok(vec![info(4, "a.exe", "2 KB")])
    );
}

#[test]
fn denied_process_is_reported_with_placeholders() {
    let probes = vec![opened(4, "C:\\a.exe", MemoryProbe::WorkingSet(2048)), denied(4200)];
    assert_eq!(
        get_process_list(Some(&probes), AccessDeniedPolicy::ReportWithSentinel),
        Ok(vec![
            info(4, "a.exe", "2 KB"),
            info(4200, "[Access Denied or Process Closed]", "[No Permission]"),
        ])
    );
}

#[test]
fn identifier_zero_is_never_listed() {
    let probes = vec![
        opened(0, "C:\\idle.exe", MemoryProbe::WorkingSet(8192)),
        denied(0),
        opened(8, "C:\\b.exe", MemoryProbe::WorkingSet(1024)),
    ];
    for policy in [AccessDeniedPolicy::Omit, AccessDeniedPolicy::ReportWithSentinel] {
        assert_eq!(get_process_list(Some(&probes), policy), Ok(vec![info(8, "b.exe", "1 KB")]));
    }
    assert_eq!(snapshot_entry(&denied(0), AccessDeniedPolicy::ReportWithSentinel), None);
}

#[test]
fn process_that_ended_before_the_path_query() {
    let probes = vec![opened(77, "", MemoryProbe::QueryFailed)];
    assert_eq!(
        get_process_list(Some(&probes), AccessDeniedPolicy::Omit),
        Ok(vec![info(
            77,
            "[Access Denied or Process Closed]",
            "[Failed to Retrieve Memory Usage]"
        )])
    );
}

#[test]
fn memory_handle_refused_after_the_name_was_read() {
    let probes = vec![opened(77, "C:\\x\\y.exe", MemoryProbe::NoAccess)];
    assert_eq!(
        get_process_list(Some(&probes), AccessDeniedPolicy::Omit),
        Ok(vec![info(77, "y.exe", "[No Permission]")])
    );
}

#[test]
fn invalid_path_gives_invalid_name() {
    let probes = vec![ProcessProbe {
        pid: 5,
        outcome: ProbeOutcome::Opened { path: vec![0xD800], memory: MemoryProbe::WorkingSet(0) },
    }];
    assert_eq!(
        get_process_list(Some(&probes), AccessDeniedPolicy::Omit),
        Ok(vec![info(5, "[Invalid Name]", "0 KB")])
    );
}

#[test]
fn entries_keep_the_order_of_the_probes() {
    let probes = vec![
        opened(900, "C:\\c.exe", MemoryProbe::WorkingSet(3072)),
        opened(12, "C:\\a.exe", MemoryProbe::WorkingSet(1024)),
        opened(500, "C:\\b.exe", MemoryProbe::WorkingSet(2048)),
        opened(12, "C:\\a.exe", MemoryProbe::WorkingSet(1024)),
    ];
    let pids: Vec<u32> = get_process_list(Some(&probes), AccessDeniedPolicy::Omit)
        .unwrap()
        .iter()
        .map(|entry| entry.pid)
        .collect();
    assert_eq!(pids, vec![900, 12, 500, 12]);
}

#[test]
fn probes_beyond_the_cap_are_left_out() {
    let count = MAX_PROCESS_IDS as u32 + 10;
    let probes: Vec<ProcessProbe> =
        (1..=count).map(|pid| opened(pid, "C:\\p.exe", MemoryProbe::WorkingSet(0))).collect();
    let entries = get_process_list(Some(&probes), AccessDeniedPolicy::Omit).unwrap();
    assert_eq!(MAX_PROCESS_IDS, 1024);
    assert_eq!(entries.len(), 1024);
    assert_eq!(entries[0].pid, 1);
    assert_eq!(entries[1023].pid, 1024);
}

#[test]
fn exactly_the_cap_is_kept_whole() {
    let probes: Vec<ProcessProbe> = (1..=1024u32).map(denied).collect();
    let entries =
        get_process_list(Some(&probes), AccessDeniedPolicy::ReportWithSentinel).unwrap();
    assert_eq!(entries.len(), 1024);
    assert!(get_process_list(Some(&probes), AccessDeniedPolicy::Omit).unwrap().is_empty());
}

#[test]
fn same_processes_give_the_same_identifiers() {
    let first = vec![
        opened(4, "C:\\a.exe", MemoryProbe::WorkingSet(10_000)),
        denied(8),
        opened(12, "C:\\b.exe", MemoryProbe::WorkingSet(20_000)),
    ];
    let second = vec![
        opened(4, "C:\\a.exe", MemoryProbe::WorkingSet(10_240)),
        denied(8),
        opened(12, "", MemoryProbe::QueryFailed),
    ];
    for policy in [AccessDeniedPolicy::Omit, AccessDeniedPolicy::ReportWithSentinel] {
        let a: Vec<u32> =
            get_process_list(Some(&first), policy).unwrap().iter().map(|e| e.pid).collect();
        let b: Vec<u32> =
            get_process_list(Some(&second), policy).unwrap().iter().map(|e| e.pid).collect();
        assert_eq!(a, b);
    }
    assert_eq!(
        get_process_list(Some(&first), AccessDeniedPolicy::Omit),
        get_process_list(Some(&first), AccessDeniedPolicy::Omit)
    );
}

#[test]
fn single_entry_of_a_probe() {
    assert_eq!(
        snapshot_entry(
            &opened(31, "D:\\games\\play.exe", MemoryProbe::WorkingSet(1_048_576)),
            AccessDeniedPolicy::Omit
        ),
        Some(info(31, "play.exe", "1024 KB"))
    );
    assert_eq!(snapshot_entry(&denied(31), AccessDeniedPolicy::Omit), None);
    assert_eq!(
        snapshot_entry(&denied(31), AccessDeniedPolicy::ReportWithSentinel),
        Some(info(31, "[Access Denied or Process Closed]", "[No Permission]"))
    );
}
