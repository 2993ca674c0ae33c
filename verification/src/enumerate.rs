//! One enumeration pass: list the process identifiers, then probe each
//! process in turn, giving back every handle before the next is probed.

use crate::memory::{lemma_memory_query_step, MemoryProbe, MemoryQuery, MemoryQueryStep};
use crate::snapshot::{
    entries_of, entry_of, get_process_list, identifiers, lemma_entries_follow_probes,
    lemma_report_lists_every_probe, lemma_snapshot_is_bounded, probe_views, probed_identifiers,
    process_list, snapshot_view, AccessDeniedPolicy, EnumerationError, ProbeOutcome,
    ProbeOutcomeView, ProcessInfo, ProcessInfoView, ProcessProbe, ProcessProbeView,
    MAX_PROCESS_IDS,
};
use crate::system::{
    at_most, handles_after, Access, Handle, Reply, Request, MAX_PATH_UNITS,
};
use vstd::multiset::Multiset;
use vstd::prelude::*;

verus! {

/// How far the probing of the current process has come.
#[derive(Clone, Copy, Debug, PartialEq, Eq)]
pub enum EnumerationPhase {
    /// Waiting for the list of process identifiers.
    Listing,
    /// Waiting for the current process to be opened.
    Opening,
    /// Waiting for the path of the process image.
    Naming { handle: Handle },
    /// Waiting on the memory query, which runs while `handle` is open.
    Measuring { handle: Handle, query: MemoryQuery },
    /// Waiting for the handle to be given back.
    Releasing { handle: Handle },
}

/// An enumeration pass in progress, as a mathematical value.
pub ghost struct EnumerationView {
    /// What to do with a process that cannot be opened.
    pub policy: AccessDeniedPolicy,
    /// The identifiers taken from the system's list.
    pub ids: Seq<u32>,
    /// The index in `ids` of the process that is being probed.
    pub cursor: int,
    /// What was observed of the processes before `cursor`, identifier zero
    /// left out.
    pub probes: Seq<ProcessProbeView>,
    /// How far the probing of the process at `cursor` has come.
    pub phase: EnumerationPhase,
    /// The image path read for the process at `cursor`.
    pub path: Seq<u16>,
    /// What the memory query on the process at `cursor` gave.
    pub memory: MemoryProbe,
}

/// An enumeration pass as it goes on, or its result.
pub ghost enum EnumerationStepView {
    Pending(EnumerationView),
    Finished(Result<Seq<ProcessInfoView>, EnumerationError>),
}

/// The least index from `from` on at which `ids` holds an identifier other
/// than zero; the length of `ids` where there is none.
pub open spec fn next_live(ids: Seq<u32>, from: int) -> int
    decreases ids.len() - from,
{
    if from >= ids.len() {
        ids.len() as int
    } else if ids[from] != 0 {
        from
    } else {
        next_live(ids, from + 1)
    }
}

/// Whether none of the probes is of identifier zero.
pub open spec fn all_live(probes: Seq<ProcessProbeView>) -> bool {
    forall|i: int| 0 <= i < probes.len() ==> (#[trigger] probes[i]).pid != 0
}

/// The identifiers other than zero, in order.
pub open spec fn live_identifiers(ids: Seq<u32>) -> Seq<u32> {
    ids.filter(|id: u32| id != 0)
}

impl EnumerationView {
    /// The state in which an enumeration pass begins.
    pub open spec fn initial(policy: AccessDeniedPolicy) -> EnumerationView {
        EnumerationView {
            policy,
            ids: Seq::empty(),
            cursor: 0,
            probes: Seq::empty(),
            phase: EnumerationPhase::Listing,
            path: Seq::empty(),
            memory: MemoryProbe::NoAccess,
        }
    }

    /// What holds of every state that an enumeration pass reaches.
    pub open spec fn wf(self) -> bool {
        &&& self.ids.len() <= MAX_PROCESS_IDS
        &&& 0 <= self.cursor <= self.ids.len()
        &&& self.probes.len() <= self.cursor
        &&& self.path.len() <= MAX_PATH_UNITS
        &&& all_live(self.probes)
        &&& probed_identifiers(self.probes) == live_identifiers(self.ids.take(self.cursor))
        &&& if self.phase is Listing {
            self.ids.len() == 0
        } else {
            self.cursor < self.ids.len() && self.ids[self.cursor] != 0
        }
        &&& self.phase matches EnumerationPhase::Measuring { query, .. } ==> query.pid == self.pid()
    }

    /// The identifier of the process that is being probed.
    pub open spec fn pid(self) -> u32 {
        self.ids[self.cursor]
    }

    /// The request that the pass waits on.
    pub open spec fn pending(self) -> Request {
        match self.phase {
            EnumerationPhase::Listing => Request::ListProcessIds { capacity: MAX_PROCESS_IDS },
            EnumerationPhase::Opening => Request::OpenProcess {
                pid: self.pid(),
                access: Access::Query,
            },
            EnumerationPhase::Naming { handle } => Request::QueryImagePath {
                handle,
                capacity: MAX_PATH_UNITS,
            },
            EnumerationPhase::Measuring { query, .. } => query.pending(),
            EnumerationPhase::Releasing { handle } => Request::CloseHandle { handle },
        }
    }

    /// The handles that the pass has open.
    pub open spec fn held(self) -> Multiset<Handle> {
        match self.phase {
            EnumerationPhase::Listing => Multiset::empty(),
            EnumerationPhase::Opening => Multiset::empty(),
            EnumerationPhase::Naming { handle } => Multiset::singleton(handle),
            EnumerationPhase::Measuring { handle, query } => query.held().insert(handle),
            EnumerationPhase::Releasing { handle } => Multiset::singleton(handle),
        }
    }

    /// An upper bound on the requests that the pass has still to make.
    pub open spec fn requests_left(self) -> int {
        match self.phase {
            EnumerationPhase::Listing => 1 + 6 * MAX_PROCESS_IDS,
            EnumerationPhase::Opening => 6 * (self.ids.len() - self.cursor),
            EnumerationPhase::Naming { .. } => 6 * (self.ids.len() - self.cursor) - 1,
            EnumerationPhase::Measuring { query, .. } => 6 * (self.ids.len() - self.cursor) - 5
                + query.requests_left(),
            EnumerationPhase::Releasing { .. } => 6 * (self.ids.len() - self.cursor) - 5,
        }
    }

    /// The pass once the process at `cursor` is done with and `outcome` was
    /// observed of it: the probe is recorded, and the pass goes on to the
    /// next identifier that is not zero, or ends with the snapshot of all
    /// probes where there is none.
    pub open spec fn recorded(self, outcome: ProbeOutcomeView) -> EnumerationStepView {
        EnumerationView {
            probes: self.probes.push(ProcessProbeView { pid: self.pid(), outcome }),
            ..self
        }.resumed(self.cursor + 1)
    }

    /// The pass as it goes on from index `from` of the identifiers.
    pub open spec fn resumed(self, from: int) -> EnumerationStepView {
        let next = next_live(self.ids, from);
        if next < self.ids.len() {
            EnumerationStepView::Pending(
                EnumerationView {
                    cursor: next,
                    phase: EnumerationPhase::Opening,
                    path: Seq::empty(),
                    memory: MemoryProbe::NoAccess,
                    ..self
                },
            )
        } else {
            EnumerationStepView::Finished(process_list(Some(self.probes), self.policy))
        }
    }

    /// The pass after `reply` has answered its request.
    ///
    /// Where the system cannot list its processes the pass ends with the
    /// error. Else the first `MAX_PROCESS_IDS` identifiers are taken, and
    /// each that is not zero is probed: the process is opened; where that
    /// fails, this is recorded and nothing more is asked of the process;
    /// else its image path is read, of which at most `MAX_PATH_UNITS` code
    /// units are taken, the memory query runs its course, and the handle is
    /// given back.
    pub open spec fn advanced(self, reply: Reply) -> EnumerationStepView {
        match self.phase {
            EnumerationPhase::Listing => match reply.listed_ids() {
                Some(ids) => EnumerationView {
                    ids: at_most(ids, MAX_PROCESS_IDS as int),
                    ..self
                }.resumed(0),
                None => EnumerationStepView::Finished(process_list(None, self.policy)),
            },
            EnumerationPhase::Opening => match reply.granted() {
                Some(handle) => EnumerationStepView::Pending(
                    EnumerationView { phase: EnumerationPhase::Naming { handle }, ..self },
                ),
                None => self.recorded(ProbeOutcomeView::Denied),
            },
            EnumerationPhase::Naming { handle } => EnumerationStepView::Pending(
                EnumerationView {
                    path: at_most(reply.image_path(), MAX_PATH_UNITS as int),
                    phase: EnumerationPhase::Measuring {
                        handle,
                        query: MemoryQuery::initial(self.pid()),
                    },
                    ..self
                },
            ),
            EnumerationPhase::Measuring { handle, query } => match query.advanced(reply) {
                MemoryQueryStep::Pending(next) => EnumerationStepView::Pending(
                    EnumerationView {
                        phase: EnumerationPhase::Measuring { handle, query: next },
                        ..self
                    },
                ),
                MemoryQueryStep::Finished(memory) => EnumerationStepView::Pending(
                    EnumerationView {
                        memory,
                        phase: EnumerationPhase::Releasing { handle },
                        ..self
                    },
                ),
            },
            EnumerationPhase::Releasing { .. } => self.recorded(
                ProbeOutcomeView::Opened { path: self.path, memory: self.memory },
            ),
        }
    }
}

/// One enumeration pass, from the first request to the snapshot.
#[derive(Debug)]
pub struct Enumeration {
    policy: AccessDeniedPolicy,
    ids: Vec<u32>,
    cursor: usize,
    probes: Vec<ProcessProbe>,
    phase: EnumerationPhase,
    path: Vec<u16>,
    memory: MemoryProbe,
}

/// An enumeration pass as it goes on, or its result.
#[derive(Debug)]
pub enum EnumerationStep {
    /// The pass waits on another request.
    Pending(Enumeration),
    /// The pass is over.
    Finished(Result<Vec<ProcessInfo>, EnumerationError>),
}

impl View for Enumeration {
    type V = EnumerationView;

    closed spec fn view(&self) -> EnumerationView {
        EnumerationView {
            policy: self.policy,
            ids: self.ids@,
            cursor: self.cursor as int,
            probes: probe_views(self.probes@),
            phase: self.phase,
            path: self.path@,
            memory: self.memory,
        }
    }
}

impl View for EnumerationStep {
    type V = EnumerationStepView;

    open spec fn view(&self) -> EnumerationStepView {
        match *self {
            EnumerationStep::Pending(enumeration) => EnumerationStepView::Pending(enumeration@),
            EnumerationStep::Finished(snapshot) => EnumerationStepView::Finished(
                snapshot_view(snapshot),
            ),
        }
    }
}

fn next_live_index(ids: &Vec<u32>, from: usize) -> (next: usize)
    requires
        from <= ids.len(),
    ensures
        next == next_live(ids@, from as int),
        from <= next <= ids.len(),
        next < ids.len() ==> ids[next as int] != 0,
{
    let mut next = from;
    while next < ids.len() && ids[next] == 0
        invariant
            from <= next <= ids.len(),
            next_live(ids@, from as int) == next_live(ids@, next as int),
        decreases ids.len() - next,
    {
        next += 1;
    }
    next
}

impl Enumeration {
    #[verifier::type_invariant]
    spec fn inv(self) -> bool {
        self@.wf()
    }

    /// Begins an enumeration pass.
    pub fn start(policy: AccessDeniedPolicy) -> (enumeration: Enumeration)
        ensures
            enumeration@ == EnumerationView::initial(policy),
            enumeration@.wf(),
    {
        let probes: Vec<ProcessProbe> = Vec::new();
        proof {
            assert(probe_views(probes@) == Seq::<ProcessProbeView>::empty());
            lemma_initial(policy);
        }
        Enumeration {
            policy,
            ids: Vec::new(),
            cursor: 0,
            probes,
            phase: EnumerationPhase::Listing,
            path: Vec::new(),
            memory: MemoryProbe::NoAccess,
        }
    }

    /// The request that the pass waits on.
    pub fn request(&self) -> (request: Request)
        ensures
            self@.wf(),
            request == self@.pending(),
    {
        proof {
            use_type_invariant(self);
        }
        match self.phase {
            EnumerationPhase::Listing => Request::ListProcessIds { capacity: MAX_PROCESS_IDS },
            EnumerationPhase::Opening => Request::OpenProcess {
                pid: self.ids[self.cursor],
                access: Access::Query,
            },
            EnumerationPhase::Naming { handle } => Request::QueryImagePath {
                handle,
                capacity: MAX_PATH_UNITS,
            },
            EnumerationPhase::Measuring { query, .. } => query.request(),
            EnumerationPhase::Releasing { handle } => Request::CloseHandle { handle },
        }
    }

    fn resume(
        policy: AccessDeniedPolicy,
        ids: Vec<u32>,
        probes: Vec<ProcessProbe>,
        from: usize,
    ) -> (step: EnumerationStep)
        requires
            ids.len() <= MAX_PROCESS_IDS,
            from <= ids.len(),
            probes.len() <= from,
            all_live(probe_views(probes@)),
            probed_identifiers(probe_views(probes@)) == live_identifiers(ids@.take(from as int)),
        ensures
            step@ == (EnumerationView {
                policy,
                ids: ids@,
                cursor: from as int,
                probes: probe_views(probes@),
                phase: EnumerationPhase::Opening,
                path: Seq::empty(),
                memory: MemoryProbe::NoAccess,
            }).resumed(from as int),
    {
        let next = next_live_index(&ids, from);
        proof {
            lemma_next_live(ids@, from as int);
        }
        if next < ids.len() {
            EnumerationStep::Pending(
                Enumeration {
                    policy,
                    ids,
                    cursor: next,
                    probes,
                    phase: EnumerationPhase::Opening,
                    path: Vec::new(),
                    memory: MemoryProbe::NoAccess,
                },
            )
        } else {
            EnumerationStep::Finished(get_process_list(Some(&probes), policy))
        }
    }

    /// Takes the reply to the request that the pass waited on.
    pub fn advance(self, reply: Reply) -> (step: EnumerationStep)
        ensures
            self@.wf(),
            step@ == self@.advanced(reply),
            step matches EnumerationStep::Pending(next) ==> next@.wf(),
    {
        proof {
            use_type_invariant(&self);
            lemma_advanced_keeps_wf(self@, reply);
        }
        let Enumeration { policy, ids, cursor, mut probes, phase, path, memory } = self;
        match phase {
            EnumerationPhase::Listing => match reply {
                Reply::ProcessIds(mut listed) => {
                    let ghost all = listed@;
                    listed.truncate(MAX_PROCESS_IDS);
                    assert(listed@ == at_most(all, MAX_PROCESS_IDS as int));
                    assert(probe_views(probes@) == Seq::<ProcessProbeView>::empty());
                    proof {
                        lemma_live_identifiers_none(listed@.take(0));
                        assert(probed_identifiers(probe_views(probes@)) == Seq::<u32>::empty());
                    }
                    Self::resume(policy, listed, probes, 0)
                },
                _ => EnumerationStep::Finished(get_process_list(None, policy)),
            },
            EnumerationPhase::Opening => match reply {
                Reply::Granted(handle) => EnumerationStep::Pending(
                    Enumeration {
                        policy,
                        ids,
                        cursor,
                        probes,
                        phase: EnumerationPhase::Naming { handle },
                        path,
                        memory,
                    },
                ),
                _ => {
                    let ghost before = probe_views(probes@);
                    let probe = ProcessProbe { pid: ids[cursor], outcome: ProbeOutcome::Denied };
                    probes.push(probe);
                    proof {
                        assert(probe_views(probes@) == before.push(probe@));
                        lemma_probe_recorded(ids@, cursor as int, before, probe@);
                    }
                    Self::resume(policy, ids, probes, cursor + 1)
                },
            },
            EnumerationPhase::Naming { handle } => {
                let path = match reply {
                    Reply::ImagePath(mut units) => {
                        let ghost all = units@;
                        units.truncate(MAX_PATH_UNITS);
                        assert(units@ == at_most(all, MAX_PATH_UNITS as int));
                        units
                    },
                    _ => Vec::new(),
                };
                let query = MemoryQuery::start(ids[cursor]);
                EnumerationStep::Pending(
                    Enumeration {
                        policy,
                        ids,
                        cursor,
                        probes,
                        phase: EnumerationPhase::Measuring { handle, query },
                        path,
                        memory,
                    },
                )
            },
            EnumerationPhase::Measuring { handle, query } => {
                proof {
                    lemma_memory_query_step(query, reply);
                }
                match query.advance(reply) {
                    MemoryQueryStep::Pending(next) => EnumerationStep::Pending(
                        Enumeration {
                            policy,
                            ids,
                            cursor,
                            probes,
                            phase: EnumerationPhase::Measuring { handle, query: next },
                            path,
                            memory,
                        },
                    ),
                    MemoryQueryStep::Finished(memory) => EnumerationStep::Pending(
                        Enumeration {
                            policy,
                            ids,
                            cursor,
                            probes,
                            phase: EnumerationPhase::Releasing { handle },
                            path,
                            memory,
                        },
                    ),
                }
            },
            EnumerationPhase::Releasing { .. } => {
                let ghost before = probe_views(probes@);
                let probe = ProcessProbe {
                    pid: ids[cursor],
                    outcome: ProbeOutcome::Opened { path, memory },
                };
                probes.push(probe);
                proof {
                    assert(probe_views(probes@) == before.push(probe@));
                    lemma_probe_recorded(ids@, cursor as int, before, probe@);
                }
                Self::resume(policy, ids, probes, cursor + 1)
            },
        }
    }
}

/// The index that `next_live` yields lies between `from` and the length of
/// the identifiers, and the identifier at it is not zero.
pub proof fn lemma_next_live(ids: Seq<u32>, from: int)
    requires
        0 <= from <= ids.len(),
    ensures
        from <= next_live(ids, from) <= ids.len(),
        next_live(ids, from) < ids.len() ==> ids[next_live(ids, from)] != 0,
        forall|i: int| from <= i < next_live(ids, from) ==> ids[i] == 0,
        live_identifiers(ids.take(next_live(ids, from))) == live_identifiers(ids.take(from)),
    decreases ids.len() - from,
{
    if from < ids.len() && ids[from] == 0 {
        lemma_next_live(ids, from + 1);
        lemma_live_identifiers_step(ids, from);
    }
}

/// The identifiers other than zero among the first `n + 1` are those among
/// the first `n`, and the one at `n` where it is not zero.
pub proof fn lemma_live_identifiers_step(ids: Seq<u32>, n: int)
    requires
        0 <= n < ids.len(),
    ensures
        live_identifiers(ids.take(n + 1)) == if ids[n] != 0 {
            live_identifiers(ids.take(n)).push(ids[n])
        } else {
            live_identifiers(ids.take(n))
        },
{
    reveal(Seq::filter);
    assert(ids.take(n + 1).drop_last() == ids.take(n));
    assert(ids.take(n + 1).last() == ids[n]);
}

/// A sequence without elements holds no identifier other than zero.
pub proof fn lemma_live_identifiers_none(ids: Seq<u32>)
    requires
        ids.len() == 0,
    ensures
        live_identifiers(ids) == Seq::<u32>::empty(),
{
    reveal(Seq::filter);
}

/// Where the probes so far are those of the identifiers other than zero
/// before index `at`, and the identifier at `at` is not zero, the probes with
/// one of that identifier added are those of the identifiers up to `at`.
pub proof fn lemma_probe_recorded(
    ids: Seq<u32>,
    at: int,
    probes: Seq<ProcessProbeView>,
    probe: ProcessProbeView,
)
    requires
        0 <= at < ids.len(),
        ids[at] != 0,
        probe.pid == ids[at],
        all_live(probes),
        probed_identifiers(probes) == live_identifiers(ids.take(at)),
    ensures
        all_live(probes.push(probe)),
        probed_identifiers(probes.push(probe)) == live_identifiers(ids.take(at + 1)),
{
    lemma_live_identifiers_step(ids, at);
    assert(probed_identifiers(probes.push(probe)) == probed_identifiers(probes).push(probe.pid));
}

/// A pass that goes on from index `from`, with the probes of the identifiers
/// before it, reaches a well-formed state, or ends with the probes of all
/// identifiers other than zero.
pub proof fn lemma_resumed(state: EnumerationView, from: int)
    requires
        state.ids.len() <= MAX_PROCESS_IDS,
        0 <= from <= state.ids.len(),
        state.probes.len() <= from,
        all_live(state.probes),
        probed_identifiers(state.probes) == live_identifiers(state.ids.take(from)),
    ensures
        match state.resumed(from) {
            EnumerationStepView::Pending(next) => {
                &&& next.wf()
                &&& next.phase is Opening
                &&& next.cursor >= from
                &&& next.ids == state.ids
                &&& next.policy == state.policy
                &&& next.probes == state.probes
            },
            EnumerationStepView::Finished(snapshot) => {
                &&& snapshot == process_list(Some(state.probes), state.policy)
                &&& probed_identifiers(state.probes) == live_identifiers(state.ids)
            },
        },
{
    lemma_next_live(state.ids, from);
    assert(state.ids.take(state.ids.len() as int) == state.ids);
}

/// A pass begins in a well-formed state that holds no handle.
pub proof fn lemma_initial(policy: AccessDeniedPolicy)
    ensures
        EnumerationView::initial(policy).wf(),
        EnumerationView::initial(policy).held() == Multiset::<Handle>::empty(),
        EnumerationView::initial(policy).pending() == (Request::ListProcessIds {
            capacity: MAX_PROCESS_IDS,
        }),
{
    let state = EnumerationView::initial(policy);
    lemma_live_identifiers_none(state.ids.take(0));
    assert(probed_identifiers(state.probes) == Seq::<u32>::empty());
}

/// Every step of a pass leads to a well-formed state again. It keeps the
/// policy; once the identifiers are listed it keeps them too, and never goes
/// back in them.
pub proof fn lemma_advanced_keeps_wf(state: EnumerationView, reply: Reply)
    requires
        state.wf(),
    ensures
        state.advanced(reply) matches EnumerationStepView::Pending(next) ==> {
            &&& next.wf()
            &&& next.policy == state.policy
            &&& next.cursor >= state.cursor
            &&& !(next.phase is Listing)
            &&& !(state.phase is Listing) ==> next.ids == state.ids
        },
{
    match state.phase {
        EnumerationPhase::Listing => {
            if let Some(ids) = reply.listed_ids() {
                let listed = EnumerationView {
                    ids: at_most(ids, MAX_PROCESS_IDS as int),
                    ..state
                };
                lemma_live_identifiers_none(listed.ids.take(0));
                assert(probed_identifiers(listed.probes) == Seq::<u32>::empty());
                lemma_resumed(listed, 0);
            }
        },
        EnumerationPhase::Opening => {
            if reply.granted() is None {
                lemma_recorded(state, ProbeOutcomeView::Denied);
            }
        },
        EnumerationPhase::Releasing { .. } => {
            lemma_recorded(
                state,
                ProbeOutcomeView::Opened { path: state.path, memory: state.memory },
            );
        },
        EnumerationPhase::Measuring { query, .. } => {
            lemma_memory_query_step(query, reply);
        },
        _ => {},
    }
}

/// A pass that records the probe of the process it is at reaches a
/// well-formed state, or ends with the probes of all identifiers other than
/// zero.
pub proof fn lemma_recorded(state: EnumerationView, outcome: ProbeOutcomeView)
    requires
        state.wf(),
        !(state.phase is Listing),
    ensures
        match state.recorded(outcome) {
            EnumerationStepView::Pending(next) => {
                &&& next.wf()
                &&& next.phase is Opening
                &&& next.cursor > state.cursor
                &&& next.ids == state.ids
                &&& next.policy == state.policy
            },
            EnumerationStepView::Finished(snapshot) => {
                let probes = state.probes.push(ProcessProbeView { pid: state.pid(), outcome });
                &&& snapshot == process_list(Some(probes), state.policy)
                &&& all_live(probes)
                &&& probes.len() <= state.ids.len()
                &&& probed_identifiers(probes) == live_identifiers(state.ids)
            },
        },
{
    let probe = ProcessProbeView { pid: state.pid(), outcome };
    lemma_probe_recorded(state.ids, state.cursor, state.probes, probe);
    lemma_resumed(EnumerationView { probes: state.probes.push(probe), ..state }, state.cursor + 1);
}

/// A pass gives back every handle that it was issued: what it holds after a
/// step is what the system has open for it, and it ends holding none.
pub proof fn lemma_advanced_accounts_for_handles(state: EnumerationView, reply: Reply)
    requires
        state.wf(),
    ensures
        match state.advanced(reply) {
            EnumerationStepView::Pending(next) => next.held() == handles_after(
                state.held(),
                state.pending(),
                reply,
            ),
            EnumerationStepView::Finished(_) => handles_after(
                state.held(),
                state.pending(),
                reply,
            ) == Multiset::<Handle>::empty(),
        },
{
    let after = handles_after(state.held(), state.pending(), reply);
    match state.phase {
        EnumerationPhase::Measuring { handle, query } => {
            lemma_memory_query_step(query, reply);
            let inner = handles_after(query.held(), query.pending(), reply);
            assert(after =~= inner.insert(handle));
            if query.advanced(reply) is Finished {
                assert(inner.insert(handle) =~= Multiset::singleton(handle));
            }
        },
        EnumerationPhase::Releasing { handle } => {
            assert(after =~= Multiset::empty());
        },
        EnumerationPhase::Opening => {
            if let Some(handle) = reply.granted() {
                assert(after =~= Multiset::singleton(handle));
            }
        },
        _ => {},
    }
}

/// Every step of a pass brings it nearer to its end: a pass makes no more
/// than `1 + 6 * MAX_PROCESS_IDS` requests.
pub proof fn lemma_advanced_makes_progress(state: EnumerationView, reply: Reply)
    requires
        state.wf(),
    ensures
        0 < state.requests_left() <= 1 + 6 * MAX_PROCESS_IDS,
        state.advanced(reply) matches EnumerationStepView::Pending(next)
            ==> next.requests_left() < state.requests_left(),
{
    match state.phase {
        EnumerationPhase::Listing => {
            if let Some(ids) = reply.listed_ids() {
                lemma_next_live(at_most(ids, MAX_PROCESS_IDS as int), 0);
            }
        },
        EnumerationPhase::Opening => {
            lemma_next_live(state.ids, state.cursor + 1);
        },
        EnumerationPhase::Releasing { .. } => {
            lemma_next_live(state.ids, state.cursor + 1);
        },
        EnumerationPhase::Measuring { query, .. } => {
            lemma_memory_query_step(query, reply);
        },
        _ => {},
    }
}

/// Whether `entries` is a snapshot of the processes of `ids`, the
/// identifiers taken from the system's list: it has no more entries than
/// there are identifiers, each entry is of an identifier of the list that is
/// not zero, and under the policy that reports what it cannot open the
/// entries are of all such identifiers, in the order of the list.
pub open spec fn is_snapshot_of(
    entries: Seq<ProcessInfoView>,
    ids: Seq<u32>,
    policy: AccessDeniedPolicy,
) -> bool {
    &&& entries.len() <= ids.len() <= MAX_PROCESS_IDS
    &&& forall|i: int| 0 <= i < entries.len() ==> (#[trigger] entries[i]).pid != 0
    &&& forall|i: int| 0 <= i < entries.len() ==> ids.contains((#[trigger] entries[i]).pid)
    &&& policy is ReportWithSentinel ==> identifiers(entries) == live_identifiers(ids)
}

/// The identifiers other than zero are identifiers of the sequence.
pub proof fn lemma_live_identifiers(ids: Seq<u32>)
    ensures
        live_identifiers(ids).len() <= ids.len(),
        forall|i: int|
            0 <= i < live_identifiers(ids).len() ==> (#[trigger] live_identifiers(ids)[i]) != 0
                && ids.contains(live_identifiers(ids)[i]),
    decreases ids.len(),
{
    reveal(Seq::filter);
    if ids.len() > 0 {
        let before = ids.drop_last();
        lemma_live_identifiers(before);
        assert forall|i: int| 0 <= i < live_identifiers(ids).len() implies (
        #[trigger] live_identifiers(ids)[i]) != 0 && ids.contains(live_identifiers(ids)[i]) by {
            if i < live_identifiers(before).len() {
                let id = live_identifiers(before)[i];
                assert(before.contains(id));
                let at = choose|at: int| 0 <= at < before.len() && before[at] == id;
                assert(ids[at] == id);
            } else {
                assert(ids[ids.len() - 1] == ids.last());
            }
        }
    }
}

/// The entries of the probes of all identifiers of a list that are not zero
/// are a snapshot of the processes of that list.
pub proof fn lemma_snapshot_of_probes(
    probes: Seq<ProcessProbeView>,
    ids: Seq<u32>,
    policy: AccessDeniedPolicy,
)
    requires
        ids.len() <= MAX_PROCESS_IDS,
        probed_identifiers(probes) == live_identifiers(ids),
    ensures
        process_list(Some(probes), policy) matches Ok(entries) && is_snapshot_of(
            entries,
            ids,
            policy,
        ),
{
    lemma_live_identifiers(ids);
    assert(probes.len() == probed_identifiers(probes).len());
    assert(at_most(probes, MAX_PROCESS_IDS as int) == probes);
    let entries = entries_of(probes, policy);
    assert forall|j: int| 0 <= j < probes.len() implies (#[trigger] probes[j]).pid != 0
        && ids.contains(probes[j].pid) by {
        assert(probes[j].pid == probed_identifiers(probes)[j]);
    }
    lemma_snapshot_is_bounded(probes, policy);
    lemma_entries_follow_probes(probes, policy);
    assert forall|i: int| 0 <= i < entries.len() implies ids.contains(
        (#[trigger] entries[i]).pid,
    ) by {
        let j = choose|j: int|
            i <= j < probes.len() && entry_of(#[trigger] probes[j], policy) == Some(entries[i]);
        assert(entries[i].pid == probes[j].pid);
    }
    if policy is ReportWithSentinel {
        lemma_report_lists_every_probe(probes);
    }
}

/// A pass ends in an error only where the list could not be had. Else it
/// ends with a snapshot of the processes of the identifiers that it took from
/// the system's list.
pub proof fn lemma_finished_snapshot(state: EnumerationView, reply: Reply)
    requires
        state.wf(),
    ensures
        state.advanced(reply) matches EnumerationStepView::Finished(snapshot) ==> {
            &&& snapshot is Err <==> state.phase is Listing && reply.listed_ids() is None
            &&& snapshot matches Ok(entries) ==> is_snapshot_of(
                entries,
                if state.phase is Listing {
                    at_most(reply.listed_ids().unwrap(), MAX_PROCESS_IDS as int)
                } else {
                    state.ids
                },
                state.policy,
            )
        },
{
    if let EnumerationStepView::Finished(snapshot) = state.advanced(reply) {
        match state.phase {
            EnumerationPhase::Listing => {
                if let Some(ids) = reply.listed_ids() {
                    let listed = EnumerationView {
                        ids: at_most(ids, MAX_PROCESS_IDS as int),
                        ..state
                    };
                    lemma_live_identifiers_none(listed.ids.take(0));
                    assert(probed_identifiers(listed.probes) == Seq::<u32>::empty());
                    lemma_resumed(listed, 0);
                    lemma_snapshot_of_probes(listed.probes, listed.ids, state.policy);
                }
            },
            EnumerationPhase::Opening => {
                let outcome = ProbeOutcomeView::Denied;
                lemma_recorded(state, outcome);
                lemma_snapshot_of_probes(
                    state.probes.push(ProcessProbeView { pid: state.pid(), outcome }),
                    state.ids,
                    state.policy,
                );
            },
            EnumerationPhase::Releasing { .. } => {
                let outcome = ProbeOutcomeView::Opened { path: state.path, memory: state.memory };
                lemma_recorded(state, outcome);
                lemma_snapshot_of_probes(
                    state.probes.push(ProcessProbeView { pid: state.pid(), outcome }),
                    state.ids,
                    state.policy,
                );
            },
            EnumerationPhase::Measuring { query, .. } => {
                lemma_memory_query_step(query, reply);
            },
            _ => {},
        }
    }
}

/// Where a pass stands once it has taken `replies` in order, each as the
/// answer to the request it then waited on. Replies behind the one that ends
/// the pass are not taken.
pub open spec fn pass_after(state: EnumerationView, replies: Seq<Reply>) -> EnumerationStepView
    decreases replies.len(),
{
    if replies.len() == 0 {
        EnumerationStepView::Pending(state)
    } else {
        match state.advanced(replies[0]) {
            EnumerationStepView::Pending(next) => pass_after(next, replies.skip(1)),
            EnumerationStepView::Finished(snapshot) => EnumerationStepView::Finished(snapshot),
        }
    }
}

/// The handles that the system has open for a pass once the pass has taken
/// `replies`, where those of `held` were open before.
pub open spec fn open_after(
    state: EnumerationView,
    held: Multiset<Handle>,
    replies: Seq<Reply>,
) -> Multiset<Handle>
    decreases replies.len(),
{
    if replies.len() == 0 {
        held
    } else {
        let open = handles_after(held, state.pending(), replies[0]);
        match state.advanced(replies[0]) {
            EnumerationStepView::Pending(next) => open_after(next, open, replies.skip(1)),
            EnumerationStepView::Finished(_) => open,
        }
    }
}

/// Whatever the system replies, a pass stays well-formed, and the handles
/// that the system has open for it are those that it holds. Once it has
/// ended, none is open.
pub proof fn lemma_pass_leaks_no_handle(state: EnumerationView, replies: Seq<Reply>)
    requires
        state.wf(),
    ensures
        match pass_after(state, replies) {
            EnumerationStepView::Pending(last) => last.wf() && open_after(
                state,
                state.held(),
                replies,
            ) == last.held(),
            EnumerationStepView::Finished(_) => open_after(state, state.held(), replies)
                == Multiset::<Handle>::empty(),
        },
    decreases replies.len(),
{
    if replies.len() > 0 {
        lemma_advanced_keeps_wf(state, replies[0]);
        lemma_advanced_accounts_for_handles(state, replies[0]);
        if let EnumerationStepView::Pending(next) = state.advanced(replies[0]) {
            lemma_pass_leaks_no_handle(next, replies.skip(1));
        }
    }
}

/// Whatever the system replies, a pass has ended once it has taken as many
/// replies as `requests_left` says: a fresh pass after at most
/// `1 + 6 * MAX_PROCESS_IDS`.
pub proof fn lemma_pass_ends(state: EnumerationView, replies: Seq<Reply>)
    requires
        state.wf(),
        replies.len() >= state.requests_left(),
    ensures
        pass_after(state, replies) is Finished,
    decreases replies.len(),
{
    lemma_advanced_makes_progress(state, replies[0]);
    lemma_advanced_keeps_wf(state, replies[0]);
    if let EnumerationStepView::Pending(next) = state.advanced(replies[0]) {
        if replies.len() == 1 {
            lemma_advanced_makes_progress(next, replies[0]);
        } else {
            lemma_pass_ends(next, replies.skip(1));
        }
    }
}

/// Whatever the system replies, a fresh pass fails only where the system
/// could not list its processes, and else ends with a snapshot of the
/// processes of the first `MAX_PROCESS_IDS` identifiers listed: it holds no
/// identifier zero, none that was not listed, and no more entries than
/// identifiers were listed.
pub proof fn lemma_pass_snapshot(policy: AccessDeniedPolicy, replies: Seq<Reply>)
    ensures
        pass_after(EnumerationView::initial(policy), replies) matches EnumerationStepView::Finished(
            snapshot,
        ) ==> {
            &&& replies.len() > 0
            &&& snapshot is Err <==> replies[0].listed_ids() is None
            &&& snapshot matches Ok(entries) ==> is_snapshot_of(
                entries,
                at_most(replies[0].listed_ids().unwrap(), MAX_PROCESS_IDS as int),
                policy,
            )
        },
{
    let state = EnumerationView::initial(policy);
    lemma_initial(policy);
    if replies.len() > 0 {
        lemma_finished_snapshot(state, replies[0]);
        lemma_advanced_keeps_wf(state, replies[0]);
        if let EnumerationStepView::Pending(next) = state.advanced(replies[0]) {
            lemma_later_snapshot(next, replies.skip(1));
        }
    }
}

/// A pass that has its list of identifiers ends with a snapshot of the
/// processes of that list.
proof fn lemma_later_snapshot(state: EnumerationView, replies: Seq<Reply>)
    requires
        state.wf(),
        !(state.phase is Listing),
    ensures
        pass_after(state, replies) matches EnumerationStepView::Finished(snapshot) ==> {
            &&& snapshot matches Ok(entries)
            &&& is_snapshot_of(entries, state.ids, state.policy)
        },
    decreases replies.len(),
{
    if replies.len() > 0 {
        lemma_finished_snapshot(state, replies[0]);
        lemma_advanced_keeps_wf(state, replies[0]);
        if let EnumerationStepView::Pending(next) = state.advanced(replies[0]) {
            lemma_later_snapshot(next, replies.skip(1));
        }
    }
}

} // verus!
