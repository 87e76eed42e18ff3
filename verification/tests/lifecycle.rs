use realm_session::backend::{BackendError, BackendReady, BackendTicket};
use realm_session::lifecycle::{LifecycleUpdate, SessionLifecycle};
use realm_session::policy::{SessionEventError, TransactionSubstate};
use realm_session::session::{QuitAfter, RecoveryPhase, RepeatTimerDirective, SessionEffect};

fn live() -> SessionLifecycle {
    SessionLifecycle {
        phase: RecoveryPhase::Live,
        last_backend_ticket: 4,
        ..SessionLifecycle::new()
    }
}

#[test]
fn shutdown_and_exit_lifecycle_is_minimal_idempotent_and_exactly_once() {
    let ticket = BackendTicket::new(4).unwrap();
    let mut session = SessionLifecycle {
        transaction: TransactionSubstate::InFlight { ticket },
        active: true,
        ..live()
    };
    assert_eq!(session.begin_shutdown(), RepeatTimerDirective::Disarm);
    assert_eq!(session.phase, RecoveryPhase::ShuttingDown);
    assert_eq!(session.last_backend_ticket, 4);
    assert!(!session.has_active_backend_transaction());
    assert!(!session.active);
    assert_eq!(session.begin_shutdown(), RepeatTimerDirective::Preserve);

    session.authorize_exit().unwrap();
    session.exit_requested(Ok(())).unwrap();
    assert_eq!(session.phase, RecoveryPhase::Exiting);
    assert!(matches!(
        session.authorize_exit().unwrap_err(),
        SessionEventError::InvalidLifecycleOperation { .. }
    ));
    assert_eq!(session.begin_shutdown(), RepeatTimerDirective::Preserve);

    let mut failed = live();
    failed.begin_shutdown();
    failed.authorize_exit().unwrap();
    assert!(matches!(
        failed
            .exit_requested(Err(BackendError::Io {
                message: "exit".to_owned()
            }))
            .unwrap_err(),
        SessionEventError::Backend(BackendError::Io { .. })
    ));
    assert_eq!(failed.phase, RecoveryPhase::ShuttingDown);
    assert!(matches!(
        failed.authorize_exit().unwrap_err(),
        SessionEventError::InvalidLifecycleOperation { .. }
    ));

    let mut wrong_phase = live();
    assert_eq!(
        wrong_phase.authorize_exit(),
        Err(SessionEventError::InvalidLifecycleOperation {
            operation: "begin_exit_session",
            phase: RecoveryPhase::Live
        })
    );
}

#[test]
fn direct_quit_enters_quit_pending_idempotently_without_backend_ticket() {
    let mut session = live();
    let quit = session.begin_direct_quit().unwrap();
    assert_eq!(session.phase, RecoveryPhase::QuitPending);
    assert_eq!(
        quit,
        LifecycleUpdate {
            repeat_timer: RepeatTimerDirective::Disarm,
            effects: vec![SessionEffect::QuitPending {
                after: QuitAfter::CurrentControlRequest,
            }],
        }
    );
    assert_eq!(session.last_backend_ticket, 4);
    assert!(!session.has_active_backend_transaction());
    assert_eq!(
        session.begin_direct_quit().unwrap(),
        LifecycleUpdate {
            repeat_timer: RepeatTimerDirective::Preserve,
            effects: Vec::new(),
        }
    );
    assert_eq!(session.last_backend_ticket, 4);

    let mut initial = SessionLifecycle::new();
    assert!(matches!(
        initial.begin_direct_quit().unwrap_err(),
        SessionEventError::InvalidLifecycleOperation { .. }
    ));
    assert_eq!(initial.phase, RecoveryPhase::InitialReplay);

    let mut finalizing = SessionLifecycle {
        phase: RecoveryPhase::FinalizingReplay,
        ..SessionLifecycle::new()
    };
    assert!(finalizing.begin_direct_quit().is_err());
    assert_eq!(finalizing.phase, RecoveryPhase::FinalizingReplay);

    let mut shutting_down = live();
    shutting_down.begin_shutdown();
    assert!(shutting_down.begin_direct_quit().is_err());
    assert_eq!(shutting_down.phase, RecoveryPhase::ShuttingDown);
}

#[test]
fn tickets_run_out_without_wrapping() {
    let mut session = SessionLifecycle {
        last_backend_ticket: u64::MAX - 1,
        ..live()
    };
    assert_eq!(session.allocate_ticket().unwrap().get(), u64::MAX);
    assert!(session.allocate_ticket().is_none());
    assert_eq!(session.last_backend_ticket, u64::MAX);
    let mut fresh = SessionLifecycle::new();
    assert_eq!(fresh.allocate_ticket().unwrap().get(), 1);
}

#[test]
fn completions_must_match_the_operation_in_flight() {
    let ticket = BackendTicket::new(3).unwrap();
    let other = BackendTicket::new(4).unwrap();
    let in_flight = SessionLifecycle {
        transaction: TransactionSubstate::InFlight { ticket },
        active: true,
        ..live()
    };

    let mut ok = in_flight;
    ok.handle_operation_completed(ticket, Ok(())).unwrap();
    assert_eq!(ok.transaction, TransactionSubstate::AwaitingDrain { ticket });

    let mut wrong = in_flight;
    assert!(matches!(
        wrong.handle_operation_completed(other, Ok(())),
        Err(SessionEventError::BackendContract(_))
    ));
    assert_eq!(wrong.transaction, TransactionSubstate::Idle);
    assert!(!wrong.active);

    let mut failed = in_flight;
    assert!(matches!(
        failed.handle_operation_completed(ticket, Err(BackendError::Disconnected)),
        Err(SessionEventError::Backend(BackendError::Disconnected))
    ));
    assert_eq!(failed.transaction, TransactionSubstate::Idle);
}

#[test]
fn the_expected_disconnect_completes_the_exit() {
    let mut exiting = SessionLifecycle {
        phase: RecoveryPhase::Exiting,
        ..live()
    };
    let idle = BackendReady {
        readable: false,
        terminal: false,
        writable: false,
    };
    assert_eq!(exiting.backend_turn_due(false, idle), Ok(false));
    assert_eq!(exiting.backend_turn_due(true, idle), Ok(true));
    assert!(exiting.disconnect_completes_exit());
    exiting.complete_expected_exit().unwrap();
    assert_eq!(exiting.phase, RecoveryPhase::ExitComplete);
    assert!(exiting.backend_turn_due(true, idle).is_err());
    assert!(exiting.complete_expected_exit().is_err());
    let mut live_session = live();
    assert!(!live_session.disconnect_completes_exit());
    assert!(matches!(
        live_session.backend_failed(BackendError::Disconnected),
        SessionEventError::Backend(BackendError::Disconnected)
    ));
}
