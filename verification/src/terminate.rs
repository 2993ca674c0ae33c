//! Terminating one process: open it with the right to terminate, ask for its
//! end, give the handle back.

use crate::system::{handles_after, Access, Handle, Reply, Request, TERMINATION_EXIT_CODE};
use vstd::multiset::Multiset;
use vstd::prelude::*;

verus! {

/// How far a termination has come.
#[derive(Clone, Copy, Debug, PartialEq, Eq)]
pub enum TerminationPhase {
    /// Waiting for the process to be opened.
    Opening,
    /// Waiting for the answer to the termination request.
    Terminating { handle: Handle },
    /// Waiting for the handle to be given back; `accepted` tells whether the
    /// system accepted the termination request.
    Releasing { handle: Handle, accepted: bool },
}

/// The termination of one process, from the first request to the result.
#[derive(Clone, Copy, Debug, PartialEq, Eq)]
pub struct Termination {
    /// The identifier of the process.
    pub pid: u32,
    /// How far the termination has come.
    pub phase: TerminationPhase,
}

/// A termination as it goes on, or its result.
#[derive(Clone, Copy, Debug, PartialEq, Eq)]
pub enum TerminationStep {
    /// The termination waits on another request.
    Pending(Termination),
    /// The termination is over: `true` where the system accepted the
    /// request to end the process.
    Finished(bool),
}

impl Termination {
    /// The state in which the termination of process `pid` begins.
    pub open spec fn initial(pid: u32) -> Termination {
        Termination { pid, phase: TerminationPhase::Opening }
    }

    /// The request that the termination waits on.
    pub open spec fn pending(self) -> Request {
        match self.phase {
            TerminationPhase::Opening => Request::OpenProcess {
                pid: self.pid,
                access: Access::Terminate,
            },
            TerminationPhase::Terminating { handle } => Request::TerminateProcess {
                handle,
                exit_code: TERMINATION_EXIT_CODE,
            },
            TerminationPhase::Releasing { handle, .. } => Request::CloseHandle { handle },
        }
    }

    /// The handles that the termination has open.
    pub open spec fn held(self) -> Multiset<Handle> {
        match self.phase {
            TerminationPhase::Opening => Multiset::empty(),
            TerminationPhase::Terminating { handle } => Multiset::singleton(handle),
            TerminationPhase::Releasing { handle, .. } => Multiset::singleton(handle),
        }
    }

    /// The termination after `reply` has answered its request. Where the
    /// process cannot be opened the result is `false` at once. Else the
    /// termination is asked for, the handle is given back whatever the
    /// answer, and the result tells whether the system accepted the request.
    pub open spec fn advanced(self, reply: Reply) -> TerminationStep {
        match self.phase {
            TerminationPhase::Opening => match reply.granted() {
                Some(handle) => TerminationStep::Pending(
                    Termination { phase: TerminationPhase::Terminating { handle }, ..self },
                ),
                None => TerminationStep::Finished(false),
            },
            TerminationPhase::Terminating { handle } => TerminationStep::Pending(
                Termination {
                    phase: TerminationPhase::Releasing { handle, accepted: reply.completed() },
                    ..self
                },
            ),
            TerminationPhase::Releasing { accepted, .. } => TerminationStep::Finished(accepted),
        }
    }

    /// Begins the termination of process `pid`.
    pub fn start(pid: u32) -> (termination: Termination)
        ensures
            termination == Termination::initial(pid),
    {
        Termination { pid, phase: TerminationPhase::Opening }
    }

    /// The request that the termination waits on.
    pub fn request(&self) -> (request: Request)
        ensures
            request == self.pending(),
    {
        match self.phase {
            TerminationPhase::Opening => Request::OpenProcess {
                pid: self.pid,
                access: Access::Terminate,
            },
            TerminationPhase::Terminating { handle } => Request::TerminateProcess {
                handle,
                exit_code: TERMINATION_EXIT_CODE,
            },
            TerminationPhase::Releasing { handle, .. } => Request::CloseHandle { handle },
        }
    }

    /// Takes the reply to the request that the termination waited on.
    pub fn advance(self, reply: Reply) -> (step: TerminationStep)
        ensures
            step == self.advanced(reply),
    {
        match self.phase {
            TerminationPhase::Opening => match reply {
                Reply::Granted(handle) => TerminationStep::Pending(
                    Termination { pid: self.pid, phase: TerminationPhase::Terminating { handle } },
                ),
                _ => TerminationStep::Finished(false),
            },
            TerminationPhase::Terminating { handle } => {
                let accepted = match reply {
                    Reply::Completed => true,
                    _ => false,
                };
                TerminationStep::Pending(
                    Termination {
                        pid: self.pid,
                        phase: TerminationPhase::Releasing { handle, accepted },
                    },
                )
            },
            TerminationPhase::Releasing { accepted, .. } => TerminationStep::Finished(accepted),
        }
    }
}

/// The whole course of a termination. It asks first to open the process,
/// with the right to terminate only. Where that is refused, the result is
/// `false` and nothing else was asked of the system. Where a handle is issued,
/// the termination asks for the end of the process behind that handle, with
/// the fixed exit code; then, whatever the answer, it asks for that handle to be
/// closed; and its result tells whether the system accepted the request to
/// end the process.
pub proof fn lemma_termination_course(pid: u32, opened: Reply, answered: Reply, released: Reply)
    ensures
        ({
            let begun = Termination::initial(pid);
            &&& begun.pending() == (Request::OpenProcess { pid, access: Access::Terminate })
            &&& match opened.granted() {
                None => begun.advanced(opened) == TerminationStep::Finished(false),
                Some(handle) => {
                    &&& begun.advanced(opened) matches TerminationStep::Pending(asking)
                    &&& asking.pending() == (Request::TerminateProcess {
                        handle,
                        exit_code: TERMINATION_EXIT_CODE,
                    })
                    &&& asking.advanced(answered) matches TerminationStep::Pending(closing)
                    &&& closing.pending() == (Request::CloseHandle { handle })
                    &&& closing.advanced(released) == TerminationStep::Finished(
                        answered.completed(),
                    )
                },
            }
        }),
{
}

/// A termination gives back the handle that it was issued: what it holds
/// after a step is what the system has open for it, and it ends holding none.
pub proof fn lemma_termination_accounts_for_handles(state: Termination, reply: Reply)
    ensures
        match state.advanced(reply) {
            TerminationStep::Pending(next) => next.held() == handles_after(
                state.held(),
                state.pending(),
                reply,
            ),
            TerminationStep::Finished(_) => handles_after(
                state.held(),
                state.pending(),
                reply,
            ) == Multiset::<Handle>::empty(),
        },
{
    let after = handles_after(state.held(), state.pending(), reply);
    match state.phase {
        TerminationPhase::Opening => {
            if let Some(handle) = reply.granted() {
                assert(after =~= Multiset::singleton(handle));
            }
        },
        TerminationPhase::Terminating { .. } => {},
        TerminationPhase::Releasing { .. } => {
            assert(after =~= Multiset::empty());
        },
    }
}

} // verus!
