//! The requests that the inspector makes of the operating system, and the
//! replies that it takes back. The inspector performs no system call itself:
//! it names the next one, and its caller performs it and hands in the reply.

use vstd::multiset::Multiset;
use vstd::prelude::*;

verus! {

/// The most UTF-16 code units that are taken of the path of a process image.
pub const MAX_PATH_UNITS: usize = 260;

/// The exit code given to a process that is terminated.
pub const TERMINATION_EXIT_CODE: u32 = 1;

/// The first `limit` elements of `s`, or all of it where it has fewer.
pub open spec fn at_most<T>(s: Seq<T>, limit: int) -> Seq<T> {
    if s.len() <= limit {
        s
    } else {
        s.take(limit)
    }
}

/// A reference to a process, issued by the system for one set of rights. It
/// must be given back with `Request::CloseHandle`.
#[derive(Clone, Copy, Debug, PartialEq, Eq)]
pub struct Handle {
    /// The value that the system issued.
    pub raw: isize,
}

/// The rights asked for when a process is opened.
#[derive(Clone, Copy, Debug, PartialEq, Eq)]
pub enum Access {
    /// To read basic information and virtual-memory statistics.
    Query,
    /// To terminate the process.
    Terminate,
}

/// One request to the system.
#[derive(Clone, Copy, Debug, PartialEq, Eq)]
pub enum Request {
    /// List the identifiers of the live processes, at most `capacity` of
    /// them.
    ListProcessIds { capacity: usize },
    /// Open the process `pid` with the rights of `access`.
    OpenProcess { pid: u32, access: Access },
    /// Write the path of the image of the process behind `handle`, at most
    /// `capacity` UTF-16 code units of it.
    QueryImagePath { handle: Handle, capacity: usize },
    /// Read the memory counters of the process behind `handle`.
    QueryMemoryCounters { handle: Handle },
    /// End the process behind `handle` with `exit_code`.
    TerminateProcess { handle: Handle, exit_code: u32 },
    /// Give `handle` back.
    CloseHandle { handle: Handle },
}

/// The system's reply to one request. A reply of another form than the one
/// that answers the request counts as `Failed`.
#[derive(Clone, Debug, PartialEq, Eq)]
pub enum Reply {
    /// The request failed.
    Failed,
    /// Answers `ListProcessIds`: the identifiers, in the system's order.
    ProcessIds(Vec<u32>),
    /// Answers `OpenProcess`: the handle issued.
    Granted(Handle),
    /// Answers `QueryImagePath`: the code units written.
    ImagePath(Vec<u16>),
    /// Answers `QueryMemoryCounters`: the size of the working set, in bytes.
    MemoryCounters { working_set: u64 },
    /// Answers `TerminateProcess` and `CloseHandle`: the request was carried
    /// out.
    Completed,
}

impl Reply {
    /// The identifiers listed, where the reply lists any.
    pub open spec fn listed_ids(self) -> Option<Seq<u32>> {
        match self {
            Reply::ProcessIds(ids) => Some(ids@),
            _ => None,
        }
    }

    /// The handle issued, where the reply issues one.
    pub open spec fn granted(self) -> Option<Handle> {
        match self {
            Reply::Granted(handle) => Some(handle),
            _ => None,
        }
    }

    /// The code units written for an image path; none where the query
    /// failed.
    pub open spec fn image_path(self) -> Seq<u16> {
        match self {
            Reply::ImagePath(units) => units@,
            _ => Seq::empty(),
        }
    }

    /// The size of the working set, where the reply holds memory counters.
    pub open spec fn working_set(self) -> Option<u64> {
        match self {
            Reply::MemoryCounters { working_set } => Some(working_set),
            _ => None,
        }
    }

    /// Whether the reply says that the request was carried out.
    pub open spec fn completed(self) -> bool {
        self is Completed
    }
}

/// The handles that are open after `request` was answered with `reply`,
/// where those of `held` were open before: a process that was opened adds
/// its handle, a handle that was closed leaves, and no other request changes
/// what is open.
pub open spec fn handles_after(held: Multiset<Handle>, request: Request, reply: Reply) -> Multiset<
    Handle,
> {
    match request {
        Request::OpenProcess { .. } => match reply.granted() {
            Some(handle) => held.insert(handle),
            None => held,
        },
        Request::CloseHandle { handle } => held.remove(handle),
        _ => held,
    }
}

} // verus!
