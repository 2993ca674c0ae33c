use process_inspector::system::{Access, Handle, Reply, Request};
use process_inspector::terminate::{Termination, TerminationStep};

fn terminate(pid: u32, replies: Vec<Reply>) -> (bool, Vec<Request>) {
    let mut termination = Termination::start(pid);
    let mut log = vec![];
    let mut replies = replies.into_iter();
    loop {
        log.push(termination.request());
        let reply = replies.next().expect("the termination asked for more than was expected");
        match termination.advance(reply) {
            TerminationStep::Pending(next) => termination = next,
            TerminationStep::Finished(accepted) => {
                assert!(replies.next().is_none());
                return (accepted, log);
            }
        }
    }
}

#[test]
fn termination_of_a_missing_process_is_refused() {
    let (accepted, log) = terminate(99_999_999, vec![Reply::Failed]);
    assert!(!accepted);
    assert_eq!(log, vec![Request::OpenProcess { pid: 99_999_999, access: Access::Terminate }]);
}

#[test]
fn accepted_termination() {
    let handle = Handle { raw: 0x1f4 };
    let (accepted, log) =
        terminate(4200, vec![Reply::Granted(handle), Reply::Completed, Reply::Completed]);
    assert!(accepted);
    assert_eq!(
        log,
        vec![
            Request::OpenProcess { pid: 4200, access: Access::Terminate },
            Request::TerminateProcess { handle, exit_code: 1 },
            Request::CloseHandle { handle },
        ]
    );
}

#[test]
fn refused_termination_still_closes_the_handle() {
    let handle = Handle { raw: 12 };
    let (accepted, log) =
        terminate(4, vec![Reply::Granted(handle), Reply::Failed, Reply::Completed]);
    assert!(!accepted);
    assert_eq!(log.len(), 3);
    assert_eq!(log[2], Request::CloseHandle { handle });
}

#[test]
fn failure_to_close_does_not_change_the_result() {
    let handle = Handle { raw: -8 };
    let (accepted, _) = terminate(4, vec![Reply::Granted(handle), Reply::Completed, Reply::Failed]);
    assert!(accepted);
    let (accepted, _) = terminate(4, vec![Reply::Granted(handle), Reply::Failed, Reply::Failed]);
    assert!(!accepted);
}

#[test]
fn reply_of_another_form_counts_as_failure() {
    let (accepted, log) = terminate(4, vec![Reply::Completed]);
    assert!(!accepted);
    assert_eq!(log.len(), 1);
    let handle = Handle { raw: 3 };
    let (accepted, _) = terminate(
        4,
        vec![Reply::Granted(handle), Reply::MemoryCounters { working_set: 1 }, Reply::Completed],
    );
    assert!(!accepted);
}

#[test]
fn process_zero_is_asked_for_like_any_other() {
    let (accepted, log) = terminate(0, vec![Reply::Failed]);
    assert!(!accepted);
    assert_eq!(log, vec![Request::OpenProcess { pid: 0, access: Access::Terminate }]);
}
