use backend_supervisor::resolver::{resolve_candidates, BaseKind, CandidateSpec, HostBases, Platform};
use backend_supervisor::supervisor::{
    AttemptFailure, AttemptOutcome, ProcessHandle, SpawnSession, SupervisorState,
};

fn candidate(location: &str) -> CandidateSpec {
    CandidateSpec { base: BaseKind::AppDataDir, location: location.to_string() }
}

/// Drives a session the way the shell does: for each offered candidate,
/// ask the probe for its outcome, and count the attempts made.
fn drive(
    session: &mut SpawnSession<&'static str>,
    probe: impl Fn(&str) -> AttemptOutcome<&'static str>,
) -> usize {
    let mut attempts = 0;
    loop {
        let location = match session.next_candidate() {
            Some(c) => c.location.clone(),
            None => break,
        };
        let outcome = probe(location.as_str());
        attempts += 1;
        session.record_attempt(outcome);
    }
    attempts
}

#[test]
fn first_existing_candidate_wins_and_short_circuits() {
    let list = vec![
        candidate("/a/backend"),
        candidate("/b/backend"),
        candidate("/c/backend"),
        candidate("/d/backend"),
    ];
    let mut session = SpawnSession::new(list);
    let attempts = drive(&mut session, |loc| {
        if loc == "/c/backend" {
            AttemptOutcome::Spawned(ProcessHandle { pid: 4242, terminator: "kill" })
        } else {
            AttemptOutcome::Failed(AttemptFailure::MissingBinary)
        }
    });
    // the two missing candidates were tried, the third spawned, none after
    assert_eq!(attempts, 3);
    assert_eq!(session.spawned_pid(), Some(4242));
    assert!(session.next_candidate().is_none());
    assert_eq!(
        session.failures().as_slice(),
        &[AttemptFailure::MissingBinary, AttemptFailure::MissingBinary]
    );
    let handle = session.into_handle().expect("first success kept");
    assert_eq!(handle.pid, 4242);
    assert_eq!(handle.terminator, "kill");
}

#[test]
fn empty_candidate_list_spawns_nothing() {
    let mut session = SpawnSession::<&'static str>::new(Vec::new());
    let attempts = drive(&mut session, |_| AttemptOutcome::Failed(AttemptFailure::MissingBinary));
    assert_eq!(attempts, 0);
    assert_eq!(session.spawned_pid(), None);
    let mut state = SupervisorState::new();
    state.adopt(session.into_handle());
    assert_eq!(state.current_pid(), None);
}

#[test]
fn exhausted_candidates_leave_state_empty() {
    let list = vec![candidate("/a/backend"), candidate("/b/backend")];
    let mut session = SpawnSession::<&'static str>::new(list);
    let attempts = drive(&mut session, |loc| {
        if loc == "/a/backend" {
            AttemptOutcome::Failed(AttemptFailure::MissingBinary)
        } else {
            AttemptOutcome::Failed(AttemptFailure::SpawnFailure)
        }
    });
    assert_eq!(attempts, 2);
    assert_eq!(session.spawned_pid(), None);
    assert_eq!(
        session.failures().as_slice(),
        &[AttemptFailure::MissingBinary, AttemptFailure::SpawnFailure]
    );
    let mut state = SupervisorState::new();
    state.adopt(session.into_handle());
    assert_eq!(state.current_pid(), None);
    // shutdown on a never-filled slot requests nothing and does not fail
    assert!(state.take_for_shutdown().is_none());
}

#[test]
fn resolution_failures_are_recorded_and_skipped() {
    let list = vec![candidate("/unknown-base/backend"), candidate("/b/backend")];
    let mut session = SpawnSession::<&'static str>::new(list);
    drive(&mut session, |loc| {
        if loc == "/unknown-base/backend" {
            AttemptOutcome::Failed(AttemptFailure::ResolutionFailure)
        } else {
            AttemptOutcome::Spawned(ProcessHandle { pid: 7, terminator: "kill" })
        }
    });
    assert_eq!(session.failures().as_slice(), &[AttemptFailure::ResolutionFailure]);
    assert_eq!(session.spawned_pid(), Some(7));
}

#[test]
fn shutdown_clears_state_and_requests_exactly_once() {
    let mut state = SupervisorState::new();
    state.adopt(Some(ProcessHandle { pid: 99, terminator: "kill" }));
    assert_eq!(state.current_pid(), Some(99));
    let mut termination_requests = 0;
    if let Some(handle) = state.take_for_shutdown() {
        assert_eq!(handle.pid, 99);
        termination_requests += 1;
    }
    assert_eq!(state.current_pid(), None);
    assert_eq!(termination_requests, 1);
}

#[test]
fn second_shutdown_is_a_no_op() {
    let mut state = SupervisorState::new();
    state.adopt(Some(ProcessHandle { pid: 5, terminator: "kill" }));
    let mut termination_requests = 0;
    for _ in 0..2 {
        if state.take_for_shutdown().is_some() {
            termination_requests += 1;
        }
    }
    assert_eq!(termination_requests, 1);
    assert_eq!(state.current_pid(), None);
}

#[test]
fn shutdown_without_any_spawn_requests_nothing() {
    let mut state = SupervisorState::<&'static str>::new();
    assert!(state.take_for_shutdown().is_none());
    assert!(state.take_for_shutdown().is_none());
    assert_eq!(state.current_pid(), None);
}

#[test]
fn race_store_then_shutdown_kills_exactly_the_stored_handle() {
    // the lock serialises the two entry points; store wins the race
    let mut state = SupervisorState::new();
    state.adopt(Some(ProcessHandle { pid: 11, terminator: "kill" }));
    let taken = state.take_for_shutdown();
    assert_eq!(taken.map(|h| h.pid), Some(11));
    assert_eq!(state.current_pid(), None);
    assert!(state.take_for_shutdown().is_none());
}

#[test]
fn race_shutdown_then_store_keeps_the_handle_tracked() {
    // shutdown wins the race: it requests nothing, and the handle stored
    // afterwards stays tracked until the next shutdown takes it once
    let mut state = SupervisorState::new();
    assert!(state.take_for_shutdown().is_none());
    state.adopt(Some(ProcessHandle { pid: 12, terminator: "kill" }));
    assert_eq!(state.current_pid(), Some(12));
    let taken = state.take_for_shutdown();
    assert_eq!(taken.map(|h| h.pid), Some(12));
    assert!(state.take_for_shutdown().is_none());
}

#[test]
fn backend_lifecycle_scenario() {
    // logical name `backend` on the Linux target: the resource base is
    // unresolved, the application-data base resolves to /tmp/app
    let bases = HostBases { resource_dir: None, app_data_dir: Some("/tmp/app".to_string()) };
    let candidates = resolve_candidates("backend", Platform::Linux, "x86_64-unknown-linux-gnu", &bases);
    assert_eq!(candidates[0].location, "/tmp/app/binaries/backend");

    // the application-data candidate exists and spawns with pid 31337
    let mut session = SpawnSession::new(candidates);
    let attempts = drive(&mut session, |loc| {
        if loc == "/tmp/app/binaries/backend" {
            AttemptOutcome::Spawned(ProcessHandle { pid: 31337, terminator: "kill" })
        } else {
            AttemptOutcome::Failed(AttemptFailure::MissingBinary)
        }
    });
    assert_eq!(attempts, 1);

    let mut state = SupervisorState::new();
    state.adopt(session.into_handle());
    assert_eq!(state.current_pid(), Some(31337));

    // window close: the state empties and process 31337 is terminated
    let mut terminated = Vec::new();
    if let Some(handle) = state.take_for_shutdown() {
        terminated.push(handle.pid);
    }
    assert_eq!(terminated, vec![31337]);
    assert_eq!(state.current_pid(), None);
}
