use realm_session::backend::{
    BackendBindingId, BackendCapacityResource, BackendContractError, BackendError,
    BackendModifier, BackendPolicyTurnId, BackendTicket, BackendWindowId,
};
use realm_session::policy::{
    event_text_bytes, validate_policy_capacity, validate_policy_turn, BindingPress, PolicyContext,
    PolicyFact, PolicyTurn, PolicyWindow, SessionEventError, TransactionSubstate,
};
use realm_session::runtime::{exit_status, RuntimeError};
use realm_session::session::RecoveryPhase;

fn id(text: &str) -> BackendWindowId {
    BackendWindowId::new(text.to_owned()).unwrap()
}

fn binding(raw: u32) -> BackendBindingId {
    BackendBindingId::new(raw).unwrap()
}

fn opened(text: &str) -> PolicyFact {
    PolicyFact::WindowOpened {
        backend_id: id(text),
        app_id: "foot".to_owned(),
        title: "shell".to_owned(),
    }
}

fn live_context() -> PolicyContext {
    PolicyContext {
        last_turn: Some(BackendPolicyTurnId::new(1).unwrap()),
        transaction: TransactionSubstate::Idle,
        phase: RecoveryPhase::Live,
        windows: vec![
            PolicyWindow {
                backend_id: id("bound-1"),
                bound: true,
            },
            PolicyWindow {
                backend_id: id("stale-2"),
                bound: false,
            },
        ],
        next_win_id: 3,
        staged_effects: 0,
        quit_staged: false,
        bindings: vec![
            (binding(1), BindingPress::Effect),
            (binding(2), BindingPress::NoEffect),
            (binding(3), BindingPress::Quit),
        ],
    }
}

fn replay_context() -> PolicyContext {
    PolicyContext {
        last_turn: None,
        phase: RecoveryPhase::InitialReplay,
        windows: Vec::new(),
        ..live_context()
    }
}

fn turn(raw: u64, events: Vec<PolicyFact>) -> PolicyTurn {
    PolicyTurn {
        id: BackendPolicyTurnId::new(raw).unwrap(),
        drains: None,
        events,
    }
}

fn contract(error: BackendContractError) -> Result<(), SessionEventError> {
    Err(SessionEventError::BackendContract(error))
}

fn capacity(resource: BackendCapacityResource, limit: u64) -> Result<(), SessionEventError> {
    Err(SessionEventError::Backend(BackendError::Capacity { resource, limit }))
}

#[test]
fn turns_must_advance_and_match_the_open_transaction() {
    let ctx = live_context();
    assert_eq!(
        validate_policy_turn(&ctx, &turn(1, Vec::new())),
        contract(BackendContractError::InvalidPolicySequence)
    );
    assert_eq!(validate_policy_turn(&ctx, &turn(2, Vec::new())), Ok(()));

    let ticket = BackendTicket::new(9).unwrap();
    let draining = PolicyContext {
        transaction: TransactionSubstate::AwaitingDrain { ticket },
        ..live_context()
    };
    assert_eq!(
        validate_policy_turn(&draining, &turn(2, Vec::new())),
        contract(BackendContractError::InvalidPolicySequence)
    );
    let drained = PolicyTurn {
        drains: Some(ticket),
        ..turn(2, Vec::new())
    };
    assert_eq!(validate_policy_turn(&draining, &drained), Ok(()));
    assert_eq!(
        validate_policy_turn(&ctx, &drained),
        contract(BackendContractError::InvalidPolicySequence)
    );
    let in_flight = PolicyContext {
        transaction: TransactionSubstate::InFlight { ticket },
        ..live_context()
    };
    assert_eq!(
        validate_policy_turn(&in_flight, &turn(2, Vec::new())),
        contract(BackendContractError::InvalidPolicySequence)
    );
}

#[test]
fn initial_replay_is_one_batch_ending_in_its_barrier() {
    let ctx = replay_context();
    assert_eq!(
        validate_policy_turn(
            &ctx,
            &turn(
                1,
                vec![
                    opened("window-1"),
                    PolicyFact::FocusChanged(Some(id("window-1"))),
                    PolicyFact::ExclusiveFocusChanged(false),
                    PolicyFact::InitialReplayComplete,
                ]
            )
        ),
        Ok(())
    );
    assert_eq!(
        validate_policy_turn(&ctx, &turn(1, vec![opened("window-1")])),
        contract(BackendContractError::InvalidPolicySequence)
    );
    assert_eq!(
        validate_policy_turn(
            &ctx,
            &turn(1, vec![PolicyFact::InitialReplayComplete, opened("window-1")])
        ),
        contract(BackendContractError::InvalidPolicySequence)
    );
    assert_eq!(
        validate_policy_turn(
            &ctx,
            &turn(
                1,
                vec![
                    PolicyFact::FocusChanged(None),
                    PolicyFact::FocusChanged(None),
                    PolicyFact::InitialReplayComplete,
                ]
            )
        ),
        contract(BackendContractError::InvalidPolicySequence)
    );
    assert_eq!(
        validate_policy_turn(
            &ctx,
            &turn(
                1,
                vec![
                    opened("window-1"),
                    PolicyFact::WindowClosed(id("window-1")),
                    PolicyFact::InitialReplayComplete,
                ]
            )
        ),
        Err(SessionEventError::UnexpectedInitialReplayEvent(
            PolicyFact::WindowClosed(id("window-1"))
        ))
    );
    assert_eq!(
        validate_policy_turn(
            &ctx,
            &turn(
                1,
                vec![
                    PolicyFact::FocusChanged(Some(id("window-9"))),
                    PolicyFact::InitialReplayComplete,
                ]
            )
        ),
        contract(BackendContractError::UnknownWindowReference)
    );
}

#[test]
fn live_turns_reference_only_known_windows_and_bindings() {
    let ctx = live_context();
    assert_eq!(
        validate_policy_turn(&ctx, &turn(2, vec![PolicyFact::InitialReplayComplete])),
        Err(SessionEventError::RepeatedInitialReplayComplete)
    );
    assert_eq!(
        validate_policy_turn(
            &ctx,
            &turn(
                2,
                vec![PolicyFact::TitleChanged {
                    backend_id: id("bound-1"),
                    title: "renamed".to_owned()
                }]
            )
        ),
        Ok(())
    );
    assert_eq!(
        validate_policy_turn(&ctx, &turn(2, vec![PolicyFact::WindowClosed(id("stale-2"))])),
        contract(BackendContractError::UnknownWindowReference)
    );
    assert_eq!(
        validate_policy_turn(
            &ctx,
            &turn(
                2,
                vec![
                    opened("new-3"),
                    PolicyFact::GeometryDrifted {
                        backend_id: id("new-3")
                    },
                    PolicyFact::WindowClosed(id("new-3")),
                ]
            )
        ),
        Ok(())
    );
    assert_eq!(
        validate_policy_turn(
            &ctx,
            &turn(
                2,
                vec![
                    PolicyFact::WindowClosed(id("bound-1")),
                    PolicyFact::FocusChanged(Some(id("bound-1"))),
                ]
            )
        ),
        contract(BackendContractError::UnknownWindowReference)
    );
    assert_eq!(
        validate_policy_turn(&ctx, &turn(2, vec![PolicyFact::BindingPressed(binding(7))])),
        contract(BackendContractError::UnknownBinding { id: binding(7) })
    );
    let quitting = PolicyContext {
        phase: RecoveryPhase::QuitPending,
        ..live_context()
    };
    assert_eq!(
        validate_policy_turn(&quitting, &turn(2, vec![PolicyFact::BindingReleased(binding(1))])),
        contract(BackendContractError::InvalidPolicySequence)
    );
    assert_eq!(
        validate_policy_turn(&quitting, &turn(2, vec![PolicyFact::UnboundKeyEaten])),
        contract(BackendContractError::InvalidPolicySequence)
    );
    assert_eq!(
        validate_policy_turn(
            &ctx,
            &turn(
                2,
                vec![PolicyFact::ModifiersChanged {
                    old: vec![BackendModifier::Control, BackendModifier::Shift],
                    new: Vec::new(),
                }]
            )
        ),
        contract(BackendContractError::NonCanonicalModifiers)
    );
}

#[test]
fn live_turns_respect_every_capacity() {
    let ctx = live_context();
    let many = (0..257).map(|_| PolicyFact::UnboundKeyEaten).collect::<Vec<_>>();
    assert_eq!(
        validate_policy_turn(&ctx, &turn(2, many)),
        capacity(BackendCapacityResource::PolicyFacts, 256)
    );

    let windows = (0..256)
        .map(|n| opened(&format!("w-{n}")))
        .collect::<Vec<_>>();
    assert_eq!(
        validate_policy_turn(&ctx, &turn(2, windows)),
        capacity(BackendCapacityResource::ManagedWindows, 256)
    );

    let exhausted = PolicyContext {
        next_win_id: u64::MAX,
        ..live_context()
    };
    assert_eq!(
        validate_policy_turn(&exhausted, &turn(2, vec![opened("new-3")])),
        Err(SessionEventError::WindowIdExhausted)
    );
    assert_eq!(
        validate_policy_turn(
            &exhausted,
            &turn(2, vec![PolicyFact::FocusChanged(Some(id("bound-1")))])
        ),
        Ok(())
    );

    let long_title = "t".repeat(65_535);
    assert_eq!(
        validate_policy_turn(
            &ctx,
            &turn(
                2,
                vec![PolicyFact::TitleChanged {
                    backend_id: id("bound-1"),
                    title: long_title
                }]
            )
        ),
        capacity(BackendCapacityResource::PolicyTextBytes, 65_535)
    );

    let crowded = PolicyContext {
        staged_effects: 256,
        ..live_context()
    };
    assert_eq!(
        validate_policy_turn(&crowded, &turn(2, vec![PolicyFact::BindingPressed(binding(2))])),
        Ok(())
    );
    assert_eq!(
        validate_policy_turn(&crowded, &turn(2, vec![PolicyFact::BindingPressed(binding(1))])),
        capacity(BackendCapacityResource::PolicyEffects, 256)
    );
    let nearly = PolicyContext {
        staged_effects: 255,
        ..live_context()
    };
    assert_eq!(
        validate_policy_turn(
            &nearly,
            &turn(
                2,
                vec![
                    PolicyFact::BindingPressed(binding(3)),
                    PolicyFact::BindingPressed(binding(1)),
                    PolicyFact::BindingPressed(binding(1)),
                ]
            )
        ),
        Ok(())
    );
}

#[test]
fn backend_capacity_counts_facts_then_text() {
    assert_eq!(validate_policy_capacity(false, &vec![opened("a")]), Ok(()));
    assert_eq!(event_text_bytes(&opened("a")), 1 + 4 + 5);
    assert_eq!(
        event_text_bytes(&PolicyFact::TitleChanged {
            backend_id: id("ab"),
            title: "é".to_owned()
        }),
        4
    );
    assert_eq!(event_text_bytes(&PolicyFact::UnboundKeyEaten), 0);
    let many = (0..257).map(|_| PolicyFact::WorkareaChanged {
            output: (0, 0, 800, 600),
            tiles: (0, 20, 800, 580),
        }).collect::<Vec<_>>();
    assert_eq!(
        validate_policy_capacity(false, &many),
        Err(BackendError::Capacity {
            resource: BackendCapacityResource::PolicyFacts,
            limit: 256
        })
    );
    let replay = (0..259).map(|_| PolicyFact::WorkareaChanged {
            output: (0, 0, 800, 600),
            tiles: (0, 20, 800, 580),
        }).collect::<Vec<_>>();
    assert_eq!(validate_policy_capacity(true, &replay), Ok(()));
    let wordy = vec![
        PolicyFact::TitleChanged {
            backend_id: id("x"),
            title: "t".repeat(40_000)
        },
        PolicyFact::TitleChanged {
            backend_id: id("y"),
            title: "t".repeat(30_000)
        },
    ];
    assert_eq!(
        validate_policy_capacity(false, &wordy),
        Err(BackendError::Capacity {
            resource: BackendCapacityResource::PolicyTextBytes,
            limit: 65_535
        })
    );
}

#[test]
fn permanent_river_refusals_have_the_service_contract_exit_codes() {
    assert_eq!(
        exit_status(&RuntimeError::Backend(BackendError::Unavailable {
            message: "another River window manager is active".to_owned(),
        })),
        69
    );
    assert_eq!(
        exit_status(&RuntimeError::Backend(BackendError::Unavailable {
            message: "required global river_window_manager_v1 advertised version 3, required 4"
                .to_owned(),
        })),
        78
    );
    assert_eq!(
        exit_status(&RuntimeError::Backend(BackendError::Unavailable {
            message: "selected River seat was removed".to_owned(),
        })),
        1
    );
    assert_eq!(
        exit_status(&RuntimeError::Session(SessionEventError::Backend(
            BackendError::Unavailable {
                message: "required global river_seat_v1 is missing".to_owned(),
            }
        ))),
        78
    );
    assert_eq!(exit_status(&RuntimeError::InvalidDescriptor), 1);
}
