//! The snapshot of one enumeration pass: what was observed of each process,
//! and the entries shown for it.

use crate::memory::{memory_text, no_permission_text, working_set_size, MemoryProbe};
use crate::name::{access_denied_text, get_process_name, process_name_text};
use crate::system::at_most;
use vstd::prelude::*;
use vstd::string::StringExecFns;

verus! {

/// The most process identifiers that one enumeration pass takes from the
/// system. Identifiers reported beyond this count are left out of the
/// snapshot.
pub const MAX_PROCESS_IDS: usize = 1024;

/// One entry of a snapshot.
#[derive(Clone, Debug, PartialEq, Eq)]
pub struct ProcessInfo {
    /// The identifier that the system gave the process; never zero.
    pub pid: u32,
    /// The base name of the process image, or a placeholder.
    pub name: String,
    /// The working set in kilobytes, or a placeholder.
    pub memory: String,
}

/// A snapshot entry as a mathematical value.
pub ghost struct ProcessInfoView {
    pub pid: u32,
    pub name: Seq<char>,
    pub memory: Seq<char>,
}

impl View for ProcessInfo {
    type V = ProcessInfoView;

    open spec fn view(&self) -> ProcessInfoView {
        ProcessInfoView { pid: self.pid, name: self.name@, memory: self.memory@ }
    }
}

/// What to do with a process for which no query handle could be had.
#[derive(Clone, Copy, Debug, PartialEq, Eq)]
pub enum AccessDeniedPolicy {
    /// Leave the process out of the snapshot.
    Omit,
    /// List the process with placeholders for its name and memory.
    ReportWithSentinel,
}

/// Why an enumeration pass yields no snapshot.
#[derive(Clone, Copy, Debug, PartialEq, Eq)]
pub enum EnumerationError {
    /// The system could not produce the list of process identifiers.
    ListFailure,
}

impl EnumerationError {
    /// The text of the error.
    pub open spec fn message_text(self) -> Seq<char> {
        "Failed to enumerate processes"@
    }

    /// The text of the error, for display.
    pub fn message(&self) -> (text: String)
        ensures
            text@ == self.message_text(),
    {
        String::from_str("Failed to enumerate processes")
    }
}

/// What came of asking for a query handle on a process.
#[derive(Clone, Debug, PartialEq, Eq)]
pub enum ProbeOutcome {
    /// No handle could be had.
    Denied,
    /// A handle was had.
    Opened {
        /// The UTF-16 code units that the system wrote for the path of the
        /// process image; none where that query failed.
        path: Vec<u16>,
        /// What came of the memory counters query.
        memory: MemoryProbe,
    },
}

/// A probe outcome as a mathematical value.
pub ghost enum ProbeOutcomeView {
    Denied,
    Opened { path: Seq<u16>, memory: MemoryProbe },
}

impl View for ProbeOutcome {
    type V = ProbeOutcomeView;

    open spec fn view(&self) -> ProbeOutcomeView {
        match *self {
            ProbeOutcome::Denied => ProbeOutcomeView::Denied,
            ProbeOutcome::Opened { path, memory } => ProbeOutcomeView::Opened {
                path: path@,
                memory,
            },
        }
    }
}

/// What one enumeration pass observed of one process.
#[derive(Clone, Debug, PartialEq, Eq)]
pub struct ProcessProbe {
    /// The identifier as the system listed it.
    pub pid: u32,
    /// What the queries on the process gave.
    pub outcome: ProbeOutcome,
}

/// A probe as a mathematical value.
pub ghost struct ProcessProbeView {
    pub pid: u32,
    pub outcome: ProbeOutcomeView,
}

impl View for ProcessProbe {
    type V = ProcessProbeView;

    open spec fn view(&self) -> ProcessProbeView {
        ProcessProbeView { pid: self.pid, outcome: self.outcome@ }
    }
}

/// The probes as mathematical values, in order.
pub open spec fn probe_views(probes: Seq<ProcessProbe>) -> Seq<ProcessProbeView> {
    Seq::new(probes.len(), |i: int| probes[i]@)
}

/// The entries as mathematical values, in order.
pub open spec fn info_views(entries: Seq<ProcessInfo>) -> Seq<ProcessInfoView> {
    Seq::new(entries.len(), |i: int| entries[i]@)
}

/// The entry shown for a probe, if any. Identifier zero is never listed. A
/// process that was opened is listed with its resolved name and memory. One
/// that was not is left out or listed with placeholders, as the policy says.
pub open spec fn entry_of(probe: ProcessProbeView, policy: AccessDeniedPolicy) -> Option<
    ProcessInfoView,
> {
    if probe.pid == 0 {
        None
    } else {
        match probe.outcome {
            ProbeOutcomeView::Opened { path, memory } => Some(
                ProcessInfoView {
                    pid: probe.pid,
                    name: process_name_text(path),
                    memory: memory_text(memory),
                },
            ),
            ProbeOutcomeView::Denied => match policy {
                AccessDeniedPolicy::Omit => None,
                AccessDeniedPolicy::ReportWithSentinel => Some(
                    ProcessInfoView {
                        pid: probe.pid,
                        name: access_denied_text(),
                        memory: no_permission_text(),
                    },
                ),
            },
        }
    }
}

/// The entries shown for a sequence of probes: the entry of each probe that
/// has one, in the order of the probes.
pub open spec fn entries_of(probes: Seq<ProcessProbeView>, policy: AccessDeniedPolicy) -> Seq<
    ProcessInfoView,
>
    decreases probes.len(),
{
    if probes.len() == 0 {
        Seq::empty()
    } else {
        let before = entries_of(probes.drop_last(), policy);
        match entry_of(probes.last(), policy) {
            Some(entry) => before.push(entry),
            None => before,
        }
    }
}

/// The outcome of an enumeration pass: an error where the system produced
/// no list, else the entries of the first `MAX_PROCESS_IDS` probes.
pub open spec fn process_list(
    listing: Option<Seq<ProcessProbeView>>,
    policy: AccessDeniedPolicy,
) -> Result<Seq<ProcessInfoView>, EnumerationError> {
    match listing {
        None => Err(EnumerationError::ListFailure),
        Some(probes) => Ok(entries_of(at_most(probes, MAX_PROCESS_IDS as int), policy)),
    }
}

/// The probes handed to `get_process_list`, as mathematical values.
pub open spec fn listing_view(listing: Option<&Vec<ProcessProbe>>) -> Option<
    Seq<ProcessProbeView>,
> {
    match listing {
        None => None,
        Some(probes) => Some(probe_views(probes@)),
    }
}

/// The result of `get_process_list`, as a mathematical value.
pub open spec fn snapshot_view(snapshot: Result<Vec<ProcessInfo>, EnumerationError>) -> Result<
    Seq<ProcessInfoView>,
    EnumerationError,
> {
    match snapshot {
        Ok(entries) => Ok(info_views(entries@)),
        Err(error) => Err(error),
    }
}

/// The entry shown for one probe, if any.
pub fn snapshot_entry(probe: &ProcessProbe, policy: AccessDeniedPolicy) -> (entry: Option<
    ProcessInfo,
>)
    ensures
        entry.is_some() == entry_of(probe@, policy).is_some(),
        entry matches Some(info) ==> entry_of(probe@, policy) == Some(info@),
{
    if probe.pid == 0 {
        return None;
    }
    match &probe.outcome {
        ProbeOutcome::Opened { path, memory } => {
            let name = get_process_name(path.as_slice());
            let memory = working_set_size(*memory);
            Some(ProcessInfo { pid: probe.pid, name, memory })
        },
        ProbeOutcome::Denied => match policy {
            AccessDeniedPolicy::Omit => None,
            AccessDeniedPolicy::ReportWithSentinel => Some(
                ProcessInfo {
                    pid: probe.pid,
                    name: String::from_str("[Access Denied or Process Closed]"),
                    memory: String::from_str("[No Permission]"),
                },
            ),
        },
    }
}

/// The snapshot for what one enumeration pass observed. `listing` is `None`
/// where the system could not list its processes, which is the one error;
/// else it holds one probe for each identifier listed, in the system's order.
/// The snapshot holds the entries of the first `MAX_PROCESS_IDS` probes, in
/// that order: none for identifier zero, and for a process that could not be
/// opened none or placeholders, as `policy` says.
pub fn get_process_list(
    listing: Option<&Vec<ProcessProbe>>,
    policy: AccessDeniedPolicy,
) -> (snapshot: Result<Vec<ProcessInfo>, EnumerationError>)
    ensures
        snapshot_view(snapshot) == process_list(listing_view(listing), policy),
        snapshot matches Ok(entries) ==> {
            &&& entries.len() <= MAX_PROCESS_IDS
            &&& entries.len() <= listing.unwrap().len()
            &&& forall|i: int| 0 <= i < entries.len() ==> (#[trigger] entries[i]).pid != 0
        },
{
    let probes = match listing {
        None => {
            return Err(EnumerationError::ListFailure);
        },
        Some(probes) => probes,
    };
    let count: usize = if probes.len() <= MAX_PROCESS_IDS {
        probes.len()
    } else {
        MAX_PROCESS_IDS
    };
    let ghost all = probe_views(probes@);
    assert(at_most(all, MAX_PROCESS_IDS as int) == all.take(count as int));
    let mut entries: Vec<ProcessInfo> = Vec::new();
    let mut i: usize = 0;
    assert(info_views(entries@) == Seq::<ProcessInfoView>::empty());
    while i < count
        invariant
            i <= count <= probes.len(),
            count <= MAX_PROCESS_IDS,
            all == probe_views(probes@),
            entries.len() <= i,
            info_views(entries@) == entries_of(all.take(i as int), policy),
            forall|k: int| 0 <= k < entries.len() ==> (#[trigger] entries[k]).pid != 0,
        decreases count - i,
    {
        let ghost before = info_views(entries@);
        assert(all.take(i + 1).drop_last() == all.take(i as int));
        assert(all.take(i + 1).last() == probes@[i as int]@);
        match snapshot_entry(&probes[i], policy) {
            Some(info) => {
                entries.push(info);
                assert(info_views(entries@) == before.push(info@));
            },
            None => {},
        }
        i += 1;
    }
    Ok(entries)
}

/// The identifiers of the entries, in order.
pub open spec fn identifiers(entries: Seq<ProcessInfoView>) -> Seq<u32> {
    Seq::new(entries.len(), |i: int| entries[i].pid)
}

/// Whether a probe was of a process that could be opened.
pub open spec fn was_opened(probe: ProcessProbeView) -> bool {
    probe.outcome is Opened
}

/// No entry of a snapshot has identifier zero, and a snapshot has no more
/// entries than there were probes.
pub proof fn lemma_entries_are_live(probes: Seq<ProcessProbeView>, policy: AccessDeniedPolicy)
    ensures
        entries_of(probes, policy).len() <= probes.len(),
        forall|i: int|
            0 <= i < entries_of(probes, policy).len() ==> (#[trigger] entries_of(
                probes,
                policy,
            )[i]).pid != 0,
    decreases probes.len(),
{
    if probes.len() > 0 {
        lemma_entries_are_live(probes.drop_last(), policy);
    }
}

/// A snapshot never holds more than `MAX_PROCESS_IDS` entries, nor more than
/// the system listed, and none of identifier zero.
pub proof fn lemma_snapshot_is_bounded(probes: Seq<ProcessProbeView>, policy: AccessDeniedPolicy)
    ensures
        process_list(Some(probes), policy) is Ok,
        process_list(Some(probes), policy)->Ok_0.len() <= MAX_PROCESS_IDS,
        process_list(Some(probes), policy)->Ok_0.len() <= probes.len(),
        forall|i: int|
            0 <= i < process_list(Some(probes), policy)->Ok_0.len() ==> (
            #[trigger] process_list(Some(probes), policy)->Ok_0[i]).pid != 0,
{
    lemma_entries_are_live(at_most(probes, MAX_PROCESS_IDS as int), policy);
}

/// Every entry of a snapshot is the entry of one of the probes, and entries
/// stand in the order of their probes.
pub proof fn lemma_entries_follow_probes(probes: Seq<ProcessProbeView>, policy: AccessDeniedPolicy)
    ensures
        forall|i: int|
            0 <= i < entries_of(probes, policy).len() ==> exists|j: int|
                i <= j < probes.len() && entry_of(#[trigger] probes[j], policy) == Some(
                    #[trigger] entries_of(probes, policy)[i],
                ),
    decreases probes.len(),
{
    if probes.len() > 0 {
        let before = probes.drop_last();
        lemma_entries_follow_probes(before, policy);
        lemma_entries_are_live(before, policy);
        let entries = entries_of(probes, policy);
        assert forall|i: int| 0 <= i < entries.len() implies exists|j: int|
            i <= j < probes.len() && entry_of(#[trigger] probes[j], policy) == Some(
                #[trigger] entries[i],
            ) by {
            if i < entries_of(before, policy).len() {
                let j = choose|j: int|
                    i <= j < before.len() && entry_of(#[trigger] before[j], policy) == Some(
                        #[trigger] entries_of(before, policy)[i],
                    );
                assert(probes[j] == before[j]);
            } else {
                let j = probes.len() - 1;
                assert(entry_of(probes[j], policy) == Some(entries[i]));
            }
        }
    }
}

/// Two passes that observe the same identifiers in the same order, and find
/// the same processes open to them, list the same identifiers, whatever the
/// names and the memory figures that they read.
pub proof fn lemma_same_processes_same_identifiers(
    first: Seq<ProcessProbeView>,
    second: Seq<ProcessProbeView>,
    policy: AccessDeniedPolicy,
)
    requires
        first.len() == second.len(),
        forall|i: int| 0 <= i < first.len() ==> (#[trigger] first[i]).pid == second[i].pid,
        forall|i: int|
            0 <= i < first.len() ==> was_opened(#[trigger] first[i]) == was_opened(second[i]),
    ensures
        identifiers(entries_of(first, policy)) == identifiers(entries_of(second, policy)),
    decreases first.len(),
{
    if first.len() > 0 {
        lemma_same_processes_same_identifiers(first.drop_last(), second.drop_last(), policy);
        let a = entries_of(first.drop_last(), policy);
        let b = entries_of(second.drop_last(), policy);
        assert(a.len() == identifiers(a).len());
        assert(b.len() == identifiers(b).len());
        assert(first.last().pid == second.last().pid);
        assert(was_opened(first.last()) == was_opened(second.last()));
        assert(entry_of(first.last(), policy) is Some == entry_of(second.last(), policy) is Some);
        if let Some(entry) = entry_of(first.last(), policy) {
            let other = entry_of(second.last(), policy).unwrap();
            assert(identifiers(a.push(entry)) == identifiers(a).push(entry.pid));
            assert(identifiers(b.push(other)) == identifiers(b).push(other.pid));
        }
    }
}

/// Whether a probe is given an entry: its identifier is not zero, and the
/// process was opened or the policy reports those that were not.
pub open spec fn is_listed(probe: ProcessProbeView, policy: AccessDeniedPolicy) -> bool {
    probe.pid != 0 && (was_opened(probe) || policy is ReportWithSentinel)
}

/// The identifiers of the probes, in order.
pub open spec fn probed_identifiers(probes: Seq<ProcessProbeView>) -> Seq<u32> {
    Seq::new(probes.len(), |i: int| probes[i].pid)
}

/// The identifiers of a snapshot are those of the probes that are listed, in
/// the order of the probes.
pub proof fn lemma_listed_identifiers(probes: Seq<ProcessProbeView>, policy: AccessDeniedPolicy)
    ensures
        forall|i: int|
            0 <= i < probes.len() ==> (entry_of(#[trigger] probes[i], policy) is Some
                <==> is_listed(probes[i], policy)),
        identifiers(entries_of(probes, policy)) == probed_identifiers(
            probes.filter(|probe: ProcessProbeView| is_listed(probe, policy)),
        ),
    decreases probes.len(),
{
    let listed = |probe: ProcessProbeView| is_listed(probe, policy);
    reveal(Seq::filter);
    if probes.len() > 0 {
        let before = probes.drop_last();
        lemma_listed_identifiers(before, policy);
        let a = entries_of(before, policy);
        let kept = before.filter(listed);
        if let Some(entry) = entry_of(probes.last(), policy) {
            assert(identifiers(a.push(entry)) == identifiers(a).push(entry.pid));
            assert(probed_identifiers(kept.push(probes.last())) == probed_identifiers(kept).push(
                entry.pid,
            ));
        }
    } else {
        assert(identifiers(entries_of(probes, policy)) == Seq::<u32>::empty());
        assert(probed_identifiers(probes.filter(listed)) == Seq::<u32>::empty());
    }
}

/// Under the policy that reports them, every probe of an identifier other
/// than zero is listed: the identifiers of the snapshot are those of the
/// probes.
pub proof fn lemma_report_lists_every_probe(probes: Seq<ProcessProbeView>)
    requires
        forall|i: int| 0 <= i < probes.len() ==> (#[trigger] probes[i]).pid != 0,
    ensures
        identifiers(entries_of(probes, AccessDeniedPolicy::ReportWithSentinel))
            == probed_identifiers(probes),
    decreases probes.len(),
{
    let policy = AccessDeniedPolicy::ReportWithSentinel;
    if probes.len() > 0 {
        let before = probes.drop_last();
        lemma_report_lists_every_probe(before);
        let entry = entry_of(probes.last(), policy).unwrap();
        assert(identifiers(entries_of(before, policy).push(entry)) == identifiers(
            entries_of(before, policy),
        ).push(entry.pid));
        assert(probed_identifiers(probes) == probed_identifiers(before).push(probes.last().pid));
    } else {
        assert(identifiers(entries_of(probes, policy)) == probed_identifiers(probes));
    }
}

} // verus!
