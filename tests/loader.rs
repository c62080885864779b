use exex_loader::loader::{LoadAction, LoadError, LoadEvent, LoadOutcome, LoadPhase, LoadSession};

fn run(events: &[LoadEvent]) -> (LoadSession, Vec<LoadAction>) {
    let mut session = LoadSession::new();
    let actions = events.iter().map(|e| session.step(*e)).collect();
    (session, actions)
}

#[test]
fn successful_load_reclaims_once_and_keeps_library() {
    let (session, actions) = run(&[
        LoadEvent::Begin,
        LoadEvent::LibraryMapped(true),
        LoadEvent::SymbolResolved(true),
        LoadEvent::EntrypointReturned(true),
        LoadEvent::TaskReclaimed,
    ]);
    assert_eq!(
        actions,
        vec![
            LoadAction::MapLibrary,
            LoadAction::ResolveSymbol,
            LoadAction::InvokeEntrypoint,
            LoadAction::ReclaimTask,
            LoadAction::Finish { outcome: LoadOutcome::Loaded, keep_resident: true },
        ]
    );
    assert_eq!(session.phase, LoadPhase::Finished(LoadOutcome::Loaded));
}

#[test]
fn repeated_events_never_reclaim_twice() {
    let (_, actions) = run(&[
        LoadEvent::Begin,
        LoadEvent::LibraryMapped(true),
        LoadEvent::SymbolResolved(true),
        LoadEvent::EntrypointReturned(true),
        LoadEvent::EntrypointReturned(true),
        LoadEvent::TaskReclaimed,
        LoadEvent::EntrypointReturned(true),
        LoadEvent::TaskReclaimed,
        LoadEvent::Begin,
    ]);
    let reclaims = actions.iter().filter(|a| **a == LoadAction::ReclaimTask).count();
    assert_eq!(reclaims, 1);
}

#[test]
fn unmappable_library_fails_without_residency() {
    let (session, actions) = run(&[LoadEvent::Begin, LoadEvent::LibraryMapped(false)]);
    assert_eq!(
        actions[1],
        LoadAction::Finish {
            outcome: LoadOutcome::Failed(LoadError::LibraryLoadFailure),
            keep_resident: false
        }
    );
    assert_eq!(session.phase, LoadPhase::Finished(LoadOutcome::Failed(LoadError::LibraryLoadFailure)));
}

#[test]
fn missing_symbol_fails_and_keeps_library() {
    let (_, actions) =
        run(&[LoadEvent::Begin, LoadEvent::LibraryMapped(true), LoadEvent::SymbolResolved(false)]);
    assert_eq!(
        actions[2],
        LoadAction::Finish {
            outcome: LoadOutcome::Failed(LoadError::SymbolResolutionFailure),
            keep_resident: true
        }
    );
}

#[test]
fn null_handle_is_an_invocation_fault() {
    let (_, actions) = run(&[
        LoadEvent::Begin,
        LoadEvent::LibraryMapped(true),
        LoadEvent::SymbolResolved(true),
        LoadEvent::EntrypointReturned(false),
    ]);
    assert_eq!(
        actions[3],
        LoadAction::Finish { outcome: LoadOutcome::Failed(LoadError::InvocationFault), keep_resident: true }
    );
}

#[test]
fn out_of_order_event_is_ignored() {
    let (session, actions) = run(&[LoadEvent::TaskReclaimed, LoadEvent::SymbolResolved(true)]);
    assert_eq!(actions, vec![LoadAction::Ignore, LoadAction::Ignore]);
    assert_eq!(session.phase, LoadPhase::Start);
}
