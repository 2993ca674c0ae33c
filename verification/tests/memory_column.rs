use process_inspector::memory::{working_set_size, MemoryProbe, MemoryQuery, MemoryQueryStep};
use process_inspector::system::{Access, Handle, Reply, Request};

#[test]
fn working_set_is_shown_in_whole_kilobytes() {
    assert_eq!(working_set_size(MemoryProbe::WorkingSet(4096)), "4 KB");
    assert_eq!(working_set_size(MemoryProbe::WorkingSet(12_345_678)), "12056 KB");
}

#[test]
fn working_set_rounds_down() {
    assert_eq!(working_set_size(MemoryProbe::WorkingSet(0)), "0 KB");
    assert_eq!(working_set_size(MemoryProbe::WorkingSet(1023)), "0 KB");
    assert_eq!(working_set_size(MemoryProbe::WorkingSet(1024)), "1 KB");
    assert_eq!(working_set_size(MemoryProbe::WorkingSet(2047)), "1 KB");
}

#[test]
fn largest_working_set() {
    assert_eq!(working_set_size(MemoryProbe::WorkingSet(u64::MAX)), "18014398509481983 KB");
}

#[test]
fn no_handle_gives_permission_placeholder() {
    assert_eq!(working_set_size(MemoryProbe::NoAccess), "[No Permission]");
}

#[test]
fn failed_query_gives_its_own_placeholder() {
    assert_eq!(
        working_set_size(MemoryProbe::QueryFailed),
        "[Failed to Retrieve Memory Usage]"
    );
}

fn resolve_memory(pid: u32, replies: Vec<Reply>) -> (String, Vec<Request>) {
    let mut query = MemoryQuery::start(pid);
    let mut log = vec![];
    let mut replies = replies.into_iter();
    loop {
        log.push(query.request());
        let reply = replies.next().expect("the query asked for more than was expected");
        match query.advance(reply) {
            MemoryQueryStep::Pending(next) => query = next,
            MemoryQueryStep::Finished(probe) => {
                assert!(replies.next().is_none());
                return (working_set_size(probe), log);
            }
        }
    }
}

#[test]
fn memory_query_without_access() {
    let (text, log) = resolve_memory(4200, vec![Reply::Failed]);
    assert_eq!(text, "[No Permission]");
    assert_eq!(log, vec![Request::OpenProcess { pid: 4200, access: Access::Query }]);
}

#[test]
fn memory_query_reads_the_working_set_and_closes_its_handle() {
    let handle = Handle { raw: 44 };
    let (text, log) = resolve_memory(
        4,
        vec![
            Reply::Granted(handle),
            Reply::MemoryCounters { working_set: 10 * 1024 * 1024 + 1 },
            Reply::Completed,
        ],
    );
    assert_eq!(text, "10240 KB");
    assert_eq!(
        log,
        vec![
            Request::OpenProcess { pid: 4, access: Access::Query },
            Request::QueryMemoryCounters { handle },
            Request::CloseHandle { handle },
        ]
    );
}

#[test]
fn memory_query_that_fails_still_closes_its_handle() {
    let handle = Handle { raw: 48 };
    let (text, log) =
        resolve_memory(4, vec![Reply::Granted(handle), Reply::Failed, Reply::Completed]);
    assert_eq!(text, "[Failed to Retrieve Memory Usage]");
    assert_eq!(log.len(), 3);
    assert_eq!(log[2], Request::CloseHandle { handle });
}

#[test]
fn memory_query_takes_a_reply_of_another_form_as_failure() {
    let (text, _) = resolve_memory(4, vec![Reply::MemoryCounters { working_set: 4096 }]);
    assert_eq!(text, "[No Permission]");
    let handle = Handle { raw: 52 };
    let (text, _) = resolve_memory(
        4,
        vec![Reply::Granted(handle), Reply::Granted(handle), Reply::Failed],
    );
    assert_eq!(text, "[Failed to Retrieve Memory Usage]");
}
