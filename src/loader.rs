//! The protocol for loading one extension library.
//!
//! The host maps the library, resolves its entry point, invokes it, and takes
//! ownership of the task that the entry point hands back. Each step is an
//! outside effect: the caller performs the action that [`LoadSession::step`]
//! returns and reports what happened as the next event. A library that was
//! mapped is never released: the task's code lives in it.
use vstd::prelude::*;

verus! {

/// Why loading one extension library failed.
#[derive(Debug, Clone, Copy, PartialEq, Eq, Structural)]
pub enum LoadError {
    /// The file could not be mapped into the process.
    LibraryLoadFailure,
    /// The entry point symbol is missing from the library.
    SymbolResolutionFailure,
    /// The entry point handed back no task.
    InvocationFault,
}

/// How a load ended.
#[derive(Debug, Clone, Copy, PartialEq, Eq, Structural)]
pub enum LoadOutcome {
    /// The task was handed back and reclaimed.
    Loaded,
    /// The load failed.
    Failed(LoadError),
}

/// Where a load stands.
#[derive(Debug, Clone, Copy, PartialEq, Eq, Structural)]
pub enum LoadPhase {
    /// Nothing has been done yet.
    Start,
    /// Waiting for the library to be mapped.
    Mapping,
    /// The library is mapped; waiting for the entry point to be resolved.
    Resolving,
    /// The entry point is being invoked.
    Invoking,
    /// The task handle is being reclaimed into an owned task.
    Reclaiming,
    /// The load has ended, with this outcome.
    Finished(LoadOutcome),
}

/// What happened when the caller performed the last action.
#[derive(Debug, Clone, Copy, PartialEq, Eq, Structural)]
pub enum LoadEvent {
    /// The caller asks for the load to begin.
    Begin,
    /// Mapping the library succeeded or not.
    LibraryMapped(bool),
    /// Resolving the entry point succeeded or not.
    SymbolResolved(bool),
    /// The entry point returned; whether the handle it gave is non-null.
    EntrypointReturned(bool),
    /// The handle has been reclaimed into an owned task.
    TaskReclaimed,
}

/// What the caller must do next.
#[derive(Debug, Clone, Copy, PartialEq, Eq, Structural)]
pub enum LoadAction {
    /// Map the library file into the process.
    MapLibrary,
    /// Resolve the entry point symbol in the mapped library.
    ResolveSymbol,
    /// Invoke the entry point with the extension's context.
    InvokeEntrypoint,
    /// Take ownership of the returned handle, turning it into an owned task.
    ReclaimTask,
    /// The load is over. When `keep_resident` holds, the mapped library
    /// must stay in the process until it exits.
    Finish { outcome: LoadOutcome, keep_resident: bool },
    /// The event does not fit the current phase; nothing is to be done.
    Ignore,
}

/// The state of one load.
pub struct LoadSession {
    pub phase: LoadPhase,
}

/// Whether the library has been mapped in this phase.
pub open spec fn library_mapped(phase: LoadPhase) -> bool {
    match phase {
        LoadPhase::Start | LoadPhase::Mapping => false,
        LoadPhase::Finished(LoadOutcome::Failed(LoadError::LibraryLoadFailure)) => false,
        _ => true,
    }
}

/// Whether the task handle has been reclaimed by the time this phase is reached.
pub open spec fn task_reclaimed(phase: LoadPhase) -> bool {
    match phase {
        LoadPhase::Reclaiming | LoadPhase::Finished(LoadOutcome::Loaded) => true,
        _ => false,
    }
}

/// One step of the protocol: the next phase and the action to perform.
pub open spec fn spec_step(phase: LoadPhase, event: LoadEvent) -> (LoadPhase, LoadAction) {
    match (phase, event) {
        (LoadPhase::Start, LoadEvent::Begin) => (LoadPhase::Mapping, LoadAction::MapLibrary),
        (LoadPhase::Mapping, LoadEvent::LibraryMapped(ok)) => if ok {
            (LoadPhase::Resolving, LoadAction::ResolveSymbol)
        } else {
            (
                LoadPhase::Finished(LoadOutcome::Failed(LoadError::LibraryLoadFailure)),
                LoadAction::Finish {
                    outcome: LoadOutcome::Failed(LoadError::LibraryLoadFailure),
                    keep_resident: false,
                },
            )
        },
        (LoadPhase::Resolving, LoadEvent::SymbolResolved(ok)) => if ok {
            (LoadPhase::Invoking, LoadAction::InvokeEntrypoint)
        } else {
            (
                LoadPhase::Finished(LoadOutcome::Failed(LoadError::SymbolResolutionFailure)),
                LoadAction::Finish {
                    outcome: LoadOutcome::Failed(LoadError::SymbolResolutionFailure),
                    keep_resident: true,
                },
            )
        },
        (LoadPhase::Invoking, LoadEvent::EntrypointReturned(non_null)) => if non_null {
            (LoadPhase::Reclaiming, LoadAction::ReclaimTask)
        } else {
            (
                LoadPhase::Finished(LoadOutcome::Failed(LoadError::InvocationFault)),
                LoadAction::Finish { outcome: LoadOutcome::Failed(LoadError::InvocationFault), keep_resident: true },
            )
        },
        (LoadPhase::Reclaiming, LoadEvent::TaskReclaimed) => (
            LoadPhase::Finished(LoadOutcome::Loaded),
            LoadAction::Finish { outcome: LoadOutcome::Loaded, keep_resident: true },
        ),
        _ => (phase, LoadAction::Ignore),
    }
}

impl LoadSession {
    /// A load that has not begun.
    pub fn new() -> (r: LoadSession)
        ensures
            r.phase == LoadPhase::Start,
    {
        LoadSession { phase: LoadPhase::Start }
    }

    /// Advances the load by one event and returns the action to perform.
    pub fn step(&mut self, event: LoadEvent) -> (a: LoadAction)
        ensures
            (final(self).phase, a) == spec_step(old(self).phase, event),
    {
        let (phase, action) = match (self.phase, event) {
            (LoadPhase::Start, LoadEvent::Begin) => (LoadPhase::Mapping, LoadAction::MapLibrary),
            (LoadPhase::Mapping, LoadEvent::LibraryMapped(ok)) => if ok {
                (LoadPhase::Resolving, LoadAction::ResolveSymbol)
            } else {
                (
                    LoadPhase::Finished(LoadOutcome::Failed(LoadError::LibraryLoadFailure)),
                    LoadAction::Finish {
                        outcome: LoadOutcome::Failed(LoadError::LibraryLoadFailure),
                        keep_resident: false,
                    },
                )
            },
            (LoadPhase::Resolving, LoadEvent::SymbolResolved(ok)) => if ok {
                (LoadPhase::Invoking, LoadAction::InvokeEntrypoint)
            } else {
                (
                    LoadPhase::Finished(LoadOutcome::Failed(LoadError::SymbolResolutionFailure)),
                    LoadAction::Finish {
                        outcome: LoadOutcome::Failed(LoadError::SymbolResolutionFailure),
                        keep_resident: true,
                    },
                )
            },
            (LoadPhase::Invoking, LoadEvent::EntrypointReturned(non_null)) => if non_null {
                (LoadPhase::Reclaiming, LoadAction::ReclaimTask)
            } else {
                (
                    LoadPhase::Finished(LoadOutcome::Failed(LoadError::InvocationFault)),
                    LoadAction::Finish {
                        outcome: LoadOutcome::Failed(LoadError::InvocationFault),
                        keep_resident: true,
                    },
                )
            },
            (LoadPhase::Reclaiming, LoadEvent::TaskReclaimed) => (
                LoadPhase::Finished(LoadOutcome::Loaded),
                LoadAction::Finish { outcome: LoadOutcome::Loaded, keep_resident: true },
            ),
            (phase, _) => (phase, LoadAction::Ignore),
        };
        self.phase = phase;
        action
    }
}

/// The phases and actions of a load fed with `events`, one per event.
pub open spec fn run(phase: LoadPhase, events: Seq<LoadEvent>) -> Seq<(LoadPhase, LoadAction)>
    decreases events.len(),
{
    if events.len() == 0 {
        Seq::empty()
    } else {
        let first = spec_step(phase, events[0]);
        seq![first] + run(first.0, events.drop_first())
    }
}

/// How many of `steps` ask to reclaim the task handle.
pub open spec fn reclaim_count(steps: Seq<(LoadPhase, LoadAction)>) -> nat
    decreases steps.len(),
{
    if steps.len() == 0 {
        0
    } else {
        reclaim_count(steps.drop_first()) + if steps[0].1 == LoadAction::ReclaimTask {
            1nat
        } else {
            0nat
        }
    }
}

/// The task handle is reclaimed at most once over a whole load, whatever
/// events come, and never again once it has been reclaimed.
pub proof fn lemma_reclaim_at_most_once(phase: LoadPhase, events: Seq<LoadEvent>)
    ensures
        reclaim_count(run(phase, events)) + if task_reclaimed(phase) {
            1nat
        } else {
            0nat
        } <= 1,
    decreases events.len(),
{
    if events.len() > 0 {
        let first = spec_step(phase, events[0]);
        lemma_reclaim_at_most_once(first.0, events.drop_first());
        let steps = run(phase, events);
        assert(steps[0] == first);
        assert(steps.drop_first() =~= run(first.0, events.drop_first()));
    } else {
        assert(run(phase, events) =~= Seq::<(LoadPhase, LoadAction)>::empty());
    }
}

/// A non-null handle is always reclaimed: the step that reports it asks for
/// the reclaim, and the load ends successfully exactly when the reclaim is
/// reported done.
pub proof fn lemma_non_null_handle_reclaimed()
    ensures
        spec_step(LoadPhase::Invoking, LoadEvent::EntrypointReturned(true)) == (
            LoadPhase::Reclaiming,
            LoadAction::ReclaimTask,
        ),
        forall|phase: LoadPhase, event: LoadEvent|
            (#[trigger] spec_step(phase, event)).0 == LoadPhase::Finished(LoadOutcome::Loaded)
                && phase != LoadPhase::Finished(LoadOutcome::Loaded) ==> phase == LoadPhase::Reclaiming
                && event == LoadEvent::TaskReclaimed,
{
}

/// A mapped library is never released: once mapped it stays mapped, and every
/// finish after a mapping keeps it resident.
pub proof fn lemma_mapped_library_kept(phase: LoadPhase, event: LoadEvent)
    ensures
        library_mapped(phase) ==> library_mapped(spec_step(phase, event).0),
        spec_step(phase, event).1 matches LoadAction::Finish { keep_resident, .. }
            ==> keep_resident == library_mapped(spec_step(phase, event).0),
{
}

} // verus!
