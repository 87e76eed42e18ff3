use realm_session::backend::{BackendReady, BackendTicket};
use realm_session::persistence::PersistCompletion;
use realm_session::runtime::{
    backend_enabled, backend_quantum_due, backend_readiness, backend_ready,
    backend_service_allowed, loop_immediate, next_deadline, plan_effects, poll_timeout,
    quit_starts_shutdown, route_worker_result, snapshot_submission_allowed, PollEvents,
    RuntimeError, ShutdownGates, WorkerFollowUp,
};
use realm_session::session::{QuitAfter, RecoveryPhase, SessionEffect};
use realm_session::worker::{FenceStatus, ProcessJob, WorkerResult};

#[test]
fn quit_masks_retained_backend_immediate_interest_until_exit_is_authorized() {
    assert!(!backend_quantum_due(false, true, true));
    assert!(!backend_quantum_due(false, false, true));
    assert!(backend_quantum_due(true, true, false));
}

#[test]
fn sealed_worker_masks_later_dirty_persistence_deadlines() {
    assert!(!snapshot_submission_allowed(true));
    assert!(snapshot_submission_allowed(false));
}

fn events(readable: bool, writable: bool, error: bool, hangup: bool, invalid: bool) -> PollEvents {
    PollEvents {
        readable,
        writable,
        error,
        hangup,
        invalid,
    }
}

#[test]
fn poll_events_map_to_backend_readiness() {
    assert_eq!(
        backend_ready(events(true, false, false, true, false)),
        Ok(BackendReady {
            readable: true,
            terminal: true,
            writable: false
        })
    );
    assert_eq!(
        backend_ready(events(false, true, false, false, false)),
        Ok(BackendReady {
            readable: false,
            terminal: false,
            writable: true
        })
    );
    assert_eq!(
        backend_ready(events(true, true, false, false, true)),
        Err(RuntimeError::InvalidDescriptor)
    );
    let idle = BackendReady {
        readable: false,
        terminal: false,
        writable: false,
    };
    assert_eq!(
        backend_readiness(true, Some(events(true, false, true, false, false))),
        Ok(idle)
    );
    assert_eq!(backend_readiness(false, None), Ok(idle));
}

#[test]
fn only_live_and_exiting_sessions_drive_the_backend() {
    assert!(backend_enabled(RecoveryPhase::Live));
    assert!(backend_enabled(RecoveryPhase::Exiting));
    assert!(!backend_enabled(RecoveryPhase::QuitPending));
    assert!(!backend_enabled(RecoveryPhase::ShuttingDown));
    assert!(!backend_enabled(RecoveryPhase::InitialReplay));
    assert!(loop_immediate(false, false, true));
    assert!(!loop_immediate(false, true, false));
    assert!(loop_immediate(true, true, false));
}

#[test]
fn poll_timeout_saturates_at_the_deadline() {
    assert_eq!(poll_timeout(true, Some(500), 100), Some(0));
    assert_eq!(poll_timeout(false, None, 100), None);
    assert_eq!(poll_timeout(false, Some(500), 100), Some(400));
    assert_eq!(poll_timeout(false, Some(50), 100), Some(0));
}

#[test]
fn effects_become_ordered_jobs_and_one_quit_barrier() {
    let plan = plan_effects(vec![
        SessionEffect::Spawn(vec!["foot".to_owned(), "-e".to_owned()]),
        SessionEffect::ReloadTheme,
        SessionEffect::Launcher,
        SessionEffect::Grimoire,
        SessionEffect::QuitPending {
            after: QuitAfter::NoRequester,
        },
    ])
    .unwrap();
    assert_eq!(
        plan.jobs,
        vec![
            ProcessJob::Spawn(vec!["foot".to_owned(), "-e".to_owned()]),
            ProcessJob::Spawn(vec!["fuzzel".to_owned()]),
        ]
    );
    assert_eq!(plan.quit_after, Some(QuitAfter::NoRequester));

    let empty = plan_effects(Vec::new()).unwrap();
    assert!(empty.jobs.is_empty());
    assert_eq!(empty.quit_after, None);

    let ticket = BackendTicket::new(4).unwrap();
    let twice = plan_effects(vec![
        SessionEffect::QuitPending {
            after: QuitAfter::OriginalAction(ticket),
        },
        SessionEffect::Launcher,
        SessionEffect::QuitPending {
            after: QuitAfter::CurrentControlRequest,
        },
    ]);
    assert!(matches!(
        twice,
        Err(RuntimeError::Invariant(
            "one update contained more than one Quit barrier"
        ))
    ));
}

#[test]
fn quit_barrier_waits_for_its_pending_response() {
    assert!(quit_starts_shutdown(QuitAfter::NoRequester, Some(true)));
    assert!(!quit_starts_shutdown(QuitAfter::CurrentControlRequest, Some(true)));
    assert!(quit_starts_shutdown(QuitAfter::CurrentControlRequest, Some(false)));
    assert!(quit_starts_shutdown(QuitAfter::CurrentControlRequest, None));
}

#[test]
fn shutdown_steps_run_once_and_exit_waits_for_the_fence() {
    let mut gates = ShutdownGates::new();
    assert!(gates.snapshot_submission_allowed());
    assert!(!gates.exit_due(true, FenceStatus::Acknowledged));
    assert!(gates.begin_terminal_worker());
    assert!(!gates.begin_terminal_worker());
    assert!(!gates.snapshot_submission_allowed());
    assert!(gates.begin_shutdown());
    assert!(!gates.begin_shutdown());
    assert!(!gates.exit_due(true, FenceStatus::Pending));
    assert!(!gates.exit_due(false, FenceStatus::TimedOut));
    assert!(gates.exit_due(true, FenceStatus::TimedOut));
    assert!(!gates.exit_due(true, FenceStatus::Acknowledged));
}

#[test]
fn the_loop_waits_for_the_nearest_deadline() {
    assert_eq!(next_deadline(None, None, None), None);
    assert_eq!(next_deadline(Some(30), None, None), Some(30));
    assert_eq!(next_deadline(Some(30), Some(20), None), Some(20));
    assert_eq!(next_deadline(Some(30), Some(20), Some(25)), Some(20));
    assert_eq!(next_deadline(None, None, Some(5)), Some(5));
}

#[test]
fn quit_and_shutdown_suspend_backend_service() {
    assert!(backend_service_allowed(RecoveryPhase::Live));
    assert!(backend_service_allowed(RecoveryPhase::Exiting));
    assert!(!backend_service_allowed(RecoveryPhase::QuitPending));
    assert!(!backend_service_allowed(RecoveryPhase::ShuttingDown));
}

#[test]
fn worker_results_route_to_persistence_and_snapshot_answers() {
    assert_eq!(
        route_worker_result(&WorkerResult::SnapshotWritten {
            sequence: 3,
            result: Ok(())
        }),
        Ok(WorkerFollowUp::CompletePersistence {
            sequence: 3,
            completion: PersistCompletion::Succeeded
        })
    );
    assert_eq!(
        route_worker_result(&WorkerResult::SnapshotWritten {
            sequence: 4,
            result: Err(std::io::Error::other("disk full"))
        }),
        Ok(WorkerFollowUp::CompletePersistence {
            sequence: 4,
            completion: PersistCompletion::Failed
        })
    );
    assert_eq!(
        route_worker_result(&WorkerResult::SnapshotRequested),
        Ok(WorkerFollowUp::AnswerSnapshotRequest)
    );
    assert_eq!(route_worker_result(&WorkerResult::Fence), Ok(WorkerFollowUp::Nothing));
    assert_eq!(
        route_worker_result(&WorkerResult::SnapshotRead(Ok(Vec::new()))),
        Err(RuntimeError::Invariant(
            "startup snapshot result reached the live loop"
        ))
    );
}
