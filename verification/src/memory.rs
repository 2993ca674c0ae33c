//! The memory column of a snapshot entry: a working-set size in kilobytes,
//! or a placeholder that tells why there is none.

use crate::system::{handles_after, Access, Handle, Reply, Request};
use crate::text::{decimal_text, decimal_value, is_decimal_digit, lemma_decimal_text, push_decimal};
use vstd::multiset::Multiset;
use vstd::prelude::*;
use vstd::string::StringExecFns;

verus! {

/// What came of asking the system for the memory counters of one process.
#[derive(Clone, Copy, Debug, PartialEq, Eq)]
pub enum MemoryProbe {
    /// No query handle could be had for the process.
    NoAccess,
    /// A handle was had, but the counters query failed.
    QueryFailed,
    /// The counters were read; the working set holds this many bytes.
    WorkingSet(u64),
}

/// The placeholder shown where no query handle could be had.
pub open spec fn no_permission_text() -> Seq<char> {
    "[No Permission]"@
}

/// The placeholder shown where the counters query failed.
pub open spec fn memory_query_failed_text() -> Seq<char> {
    "[Failed to Retrieve Memory Usage]"@
}

/// The text of a working set of `bytes` bytes: whole kilobytes, rounded
/// down, then a space and `KB`.
pub open spec fn kilobytes_text(bytes: u64) -> Seq<char> {
    decimal_text(bytes as nat / 1024) + " KB"@
}

/// The memory column for a probe.
pub open spec fn memory_text(probe: MemoryProbe) -> Seq<char> {
    match probe {
        MemoryProbe::NoAccess => no_permission_text(),
        MemoryProbe::QueryFailed => memory_query_failed_text(),
        MemoryProbe::WorkingSet(bytes) => kilobytes_text(bytes),
    }
}

/// The memory column for a probe: the working set in kilobytes where the
/// counters were read, else the placeholder of the step that failed.
pub fn working_set_size(probe: MemoryProbe) -> (text: String)
    ensures
        text@ == memory_text(probe),
{
    match probe {
        MemoryProbe::NoAccess => String::from_str("[No Permission]"),
        MemoryProbe::QueryFailed => String::from_str("[Failed to Retrieve Memory Usage]"),
        MemoryProbe::WorkingSet(bytes) => {
            let mut text = String::new();
            push_decimal(&mut text, bytes / 1024);
            text.append(" KB");
            text
        },
    }
}

/// A kilobyte text is a decimal numeral followed by ` KB`; the numeral
/// denotes the byte count divided by 1024, rounded down. It is neither of the
/// two placeholders.
pub proof fn lemma_kilobytes_text(bytes: u64)
    ensures
        kilobytes_text(bytes).len() >= 4,
        kilobytes_text(bytes).skip(kilobytes_text(bytes).len() - 3) == seq![' ', 'K', 'B'],
        forall|i: int|
            0 <= i < kilobytes_text(bytes).len() - 3 ==> is_decimal_digit(
                #[trigger] kilobytes_text(bytes)[i],
            ),
        decimal_value(kilobytes_text(bytes).take(kilobytes_text(bytes).len() - 3))
            == bytes as nat / 1024,
        kilobytes_text(bytes) != no_permission_text(),
        kilobytes_text(bytes) != memory_query_failed_text(),
{
    let numeral = decimal_text(bytes as nat / 1024);
    let text = kilobytes_text(bytes);
    lemma_decimal_text(bytes as nat / 1024);
    reveal_strlit(" KB");
    reveal_strlit("[No Permission]");
    reveal_strlit("[Failed to Retrieve Memory Usage]");
    assert(" KB"@ == seq![' ', 'K', 'B']);
    assert(text.skip(text.len() - 3) == seq![' ', 'K', 'B']);
    assert(text.take(text.len() - 3) == numeral);
    assert(text[0] == numeral[0]);
    assert(is_decimal_digit(numeral[0]));
    assert(no_permission_text()[0] == '[');
    assert(memory_query_failed_text()[0] == '[');
}

/// How far a memory query has come.
#[derive(Clone, Copy, Debug, PartialEq, Eq)]
pub enum MemoryQueryPhase {
    /// Waiting for the process to be opened.
    Opening,
    /// Waiting for the memory counters.
    Reading { handle: Handle },
    /// Waiting for the handle to be given back; `outcome` is what the
    /// counters query gave.
    Releasing { handle: Handle, outcome: MemoryProbe },
}

/// The memory query on one process, from the first request to the probe. It
/// opens the process for itself and gives its handle back before it ends.
#[derive(Clone, Copy, Debug, PartialEq, Eq)]
pub struct MemoryQuery {
    /// The identifier of the process.
    pub pid: u32,
    /// How far the query has come.
    pub phase: MemoryQueryPhase,
}

/// A memory query as it goes on, or its result.
#[derive(Clone, Copy, Debug, PartialEq, Eq)]
pub enum MemoryQueryStep {
    /// The query waits on another request.
    Pending(MemoryQuery),
    /// The query is over.
    Finished(MemoryProbe),
}

impl MemoryQuery {
    /// The state in which the memory query on process `pid` begins.
    pub open spec fn initial(pid: u32) -> MemoryQuery {
        MemoryQuery { pid, phase: MemoryQueryPhase::Opening }
    }

    /// The request that the query waits on.
    pub open spec fn pending(self) -> Request {
        match self.phase {
            MemoryQueryPhase::Opening => Request::OpenProcess {
                pid: self.pid,
                access: Access::Query,
            },
            MemoryQueryPhase::Reading { handle } => Request::QueryMemoryCounters { handle },
            MemoryQueryPhase::Releasing { handle, .. } => Request::CloseHandle { handle },
        }
    }

    /// The handles that the query has open.
    pub open spec fn held(self) -> Multiset<Handle> {
        match self.phase {
            MemoryQueryPhase::Opening => Multiset::empty(),
            MemoryQueryPhase::Reading { handle } => Multiset::singleton(handle),
            MemoryQueryPhase::Releasing { handle, .. } => Multiset::singleton(handle),
        }
    }

    /// An upper bound on the requests that the query has still to make.
    pub open spec fn requests_left(self) -> int {
        match self.phase {
            MemoryQueryPhase::Opening => 3,
            MemoryQueryPhase::Reading { .. } => 2,
            MemoryQueryPhase::Releasing { .. } => 1,
        }
    }

    /// The query after `reply` has answered its request. Where the process
    /// cannot be opened the query ends at once, without access. Else the
    /// counters are asked for, the handle is given back whatever the answer,
    /// and the query ends with the working set read, or as failed.
    pub open spec fn advanced(self, reply: Reply) -> MemoryQueryStep {
        match self.phase {
            MemoryQueryPhase::Opening => match reply.granted() {
                Some(handle) => MemoryQueryStep::Pending(
                    MemoryQuery { phase: MemoryQueryPhase::Reading { handle }, ..self },
                ),
                None => MemoryQueryStep::Finished(MemoryProbe::NoAccess),
            },
            MemoryQueryPhase::Reading { handle } => MemoryQueryStep::Pending(
                MemoryQuery {
                    phase: MemoryQueryPhase::Releasing {
                        handle,
                        outcome: match reply.working_set() {
                            Some(bytes) => MemoryProbe::WorkingSet(bytes),
                            None => MemoryProbe::QueryFailed,
                        },
                    },
                    ..self
                },
            ),
            MemoryQueryPhase::Releasing { outcome, .. } => MemoryQueryStep::Finished(outcome),
        }
    }

    /// Begins the memory query on process `pid`.
    pub fn start(pid: u32) -> (query: MemoryQuery)
        ensures
            query == MemoryQuery::initial(pid),
    {
        MemoryQuery { pid, phase: MemoryQueryPhase::Opening }
    }

    /// The request that the query waits on.
    pub fn request(&self) -> (request: Request)
        ensures
            request == self.pending(),
    {
        match self.phase {
            MemoryQueryPhase::Opening => Request::OpenProcess {
                pid: self.pid,
                access: Access::Query,
            },
            MemoryQueryPhase::Reading { handle } => Request::QueryMemoryCounters { handle },
            MemoryQueryPhase::Releasing { handle, .. } => Request::CloseHandle { handle },
        }
    }

    /// Takes the reply to the request that the query waited on.
    pub fn advance(self, reply: Reply) -> (step: MemoryQueryStep)
        ensures
            step == self.advanced(reply),
    {
        match self.phase {
            MemoryQueryPhase::Opening => match reply {
                Reply::Granted(handle) => MemoryQueryStep::Pending(
                    MemoryQuery { pid: self.pid, phase: MemoryQueryPhase::Reading { handle } },
                ),
                _ => MemoryQueryStep::Finished(MemoryProbe::NoAccess),
            },
            MemoryQueryPhase::Reading { handle } => {
                let outcome = match reply {
                    Reply::MemoryCounters { working_set } => MemoryProbe::WorkingSet(working_set),
                    _ => MemoryProbe::QueryFailed,
                };
                MemoryQueryStep::Pending(
                    MemoryQuery {
                        pid: self.pid,
                        phase: MemoryQueryPhase::Releasing { handle, outcome },
                    },
                )
            },
            MemoryQueryPhase::Releasing { outcome, .. } => MemoryQueryStep::Finished(outcome),
        }
    }
}

/// The whole course of a memory query. It asks first to open the process,
/// with the rights to query. Where that is refused, the probe tells so and
/// nothing else was asked of the system. Where a handle is issued, the query
/// asks for the counters of the process behind that handle; then, whatever the
/// answer, it asks for that handle to be closed; and the probe holds the
/// working set where the counters were read, else tells that they were not.
pub proof fn lemma_memory_query_course(pid: u32, opened: Reply, read: Reply, released: Reply)
    ensures
        ({
            let begun = MemoryQuery::initial(pid);
            &&& begun.pending() == (Request::OpenProcess { pid, access: Access::Query })
            &&& match opened.granted() {
                None => begun.advanced(opened) == MemoryQueryStep::Finished(
                    MemoryProbe::NoAccess,
                ),
                Some(handle) => {
                    &&& begun.advanced(opened) matches MemoryQueryStep::Pending(reading)
                    &&& reading.pending() == (Request::QueryMemoryCounters { handle })
                    &&& reading.advanced(read) matches MemoryQueryStep::Pending(closing)
                    &&& closing.pending() == (Request::CloseHandle { handle })
                    &&& closing.advanced(released) == MemoryQueryStep::Finished(
                        match read.working_set() {
                            Some(bytes) => MemoryProbe::WorkingSet(bytes),
                            None => MemoryProbe::QueryFailed,
                        },
                    )
                },
            }
        }),
{
}

/// A memory query gives back the handle that it was issued: what it holds
/// after a step is what the system has open for it, and it ends holding none.
/// Every step brings it nearer to its end.
pub proof fn lemma_memory_query_step(state: MemoryQuery, reply: Reply)
    ensures
        match state.advanced(reply) {
            MemoryQueryStep::Pending(next) => {
                &&& next.held() == handles_after(state.held(), state.pending(), reply)
                &&& next.pid == state.pid
                &&& 0 < next.requests_left() < state.requests_left()
            },
            MemoryQueryStep::Finished(_) => handles_after(
                state.held(),
                state.pending(),
                reply,
            ) == Multiset::<Handle>::empty(),
        },
        0 < state.requests_left() <= 3,
{
    let after = handles_after(state.held(), state.pending(), reply);
    match state.phase {
        MemoryQueryPhase::Opening => {
            if let Some(handle) = reply.granted() {
                assert(after =~= Multiset::singleton(handle));
            }
        },
        MemoryQueryPhase::Reading { .. } => {},
        MemoryQueryPhase::Releasing { .. } => {
            assert(after =~= Multiset::empty());
        },
    }
}

} // verus!
