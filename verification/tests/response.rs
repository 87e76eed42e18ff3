use realm_session::backend::objects::{ObjectRequest, RiverObjects, RuntimeEvent, RuntimeOutcome};
use realm_session::backend::{
    BackendBindingId, BackendBindingSpec, BackendBindingState, BackendError, BackendModifier,
    BackendNextKeyEdge, BackendPolicyResponse, BackendProtocolErrorKind, BackendWindowId,
    Placement,
};

fn binding(raw: u32) -> BackendBindingId {
    BackendBindingId::new(raw).unwrap()
}

fn id(text: &str) -> BackendWindowId {
    BackendWindowId::new(text.to_owned()).unwrap()
}

fn quiet_bindings() -> BackendBindingState {
    BackendBindingState {
        enabled: vec![],
        watched_modifiers: vec![],
        next_key_edge: BackendNextKeyEdge::Preserve,
    }
}

fn response(projection: Option<Vec<Placement>>) -> BackendPolicyResponse {
    BackendPolicyResponse {
        projection,
        closes: vec![],
        bindings: quiet_bindings(),
    }
}

fn place(win: u64, rect: (i32, i32, i32, i32), focused: bool) -> Placement {
    Placement {
        win,
        rect,
        focused,
        occluded: false,
    }
}

fn accepted(requests: Vec<ObjectRequest>) -> RuntimeOutcome {
    RuntimeOutcome {
        requests,
        result: Ok(()),
    }
}

fn protocol(requests: Vec<ObjectRequest>) -> RuntimeOutcome {
    RuntimeOutcome {
        requests,
        result: Err(BackendError::Protocol {
            kind: BackendProtocolErrorKind::InvalidFraming,
        }),
    }
}

/// One 1920x1080 output selected, seat 40 with two bindings, and windows 1
/// and 2 assigned to Realm windows 7 and 8.
fn managed() -> RiverObjects {
    let bindings = vec![
        BackendBindingSpec {
            id: binding(1),
            keysym: "Return".to_owned(),
            modifiers: vec![BackendModifier::Super],
        },
        BackendBindingSpec {
            id: binding(2),
            keysym: "q".to_owned(),
            modifiers: vec![BackendModifier::Super],
        },
    ];
    let mut objects = RiverObjects::new(true, true, bindings);
    objects.apply(RuntimeEvent::OutputCreated(30));
    objects.apply(RuntimeEvent::OutputPosition {
        output: 30,
        x: 0,
        y: 0,
    });
    objects.apply(RuntimeEvent::OutputDimensions {
        output: 30,
        width: 1920,
        height: 1080,
    });
    objects.apply(RuntimeEvent::SeatCreated(40));
    for (window, name, win) in [(1, "one", 7), (2, "two", 8)] {
        objects.apply(RuntimeEvent::WindowCreated(window));
        objects.apply(RuntimeEvent::WindowIdentifier {
            window,
            identifier: name.to_owned(),
        });
        objects.assign_window(&id(name), win).unwrap();
    }
    objects.selected_output = Some(30);
    objects
}

#[test]
fn without_a_selected_output_only_a_quiet_response_is_accepted() {
    let mut objects = RiverObjects::new(true, true, vec![]);
    assert_eq!(objects.apply_manage_response(&response(None)), accepted(vec![]));
    assert_eq!(
        objects.apply_manage_response(&response(Some(vec![]))),
        protocol(vec![])
    );
}

#[test]
fn tiled_projection_initializes_sizes_and_focuses() {
    let mut objects = managed();
    let tiles = Some(vec![
        place(7, (0, 0, 960, 1080), true),
        place(8, (960, 0, 960, 1080), false),
    ]);
    assert_eq!(
        objects.apply_manage_response(&response(tiles.clone())),
        accepted(vec![
            ObjectRequest::SetDefaultOutput(30),
            ObjectRequest::SetTiled(1),
            ObjectRequest::SetCapabilities(1),
            ObjectRequest::ProposeDimensions {
                window: 1,
                width: 960,
                height: 1080
            },
            ObjectRequest::SetTiled(2),
            ObjectRequest::SetCapabilities(2),
            ObjectRequest::ProposeDimensions {
                window: 2,
                width: 960,
                height: 1080
            },
            ObjectRequest::FocusWindow { seat: 40, window: 1 },
        ])
    );
    assert_eq!(objects.default_output, Some(30));
    assert_eq!(objects.focused_window, Some(7));
    assert!(objects.windows.iter().all(|w| w.initialized && w.awaiting_dimensions));
    assert_eq!(objects.windows[1].proposed_size, Some((960, 1080)));
    assert_eq!(
        objects.apply_manage_response(&response(tiles)),
        accepted(vec![])
    );
}

#[test]
fn single_placement_covering_the_output_is_fullscreen() {
    let mut objects = managed();
    objects.default_output = Some(30);
    assert_eq!(
        objects.apply_manage_response(&response(Some(vec![place(
            7,
            (0, 0, 1920, 1080),
            false
        )]))),
        accepted(vec![
            ObjectRequest::SetTiled(1),
            ObjectRequest::SetCapabilities(1),
            ObjectRequest::Fullscreen {
                window: 1,
                output: 30
            },
            ObjectRequest::InformFullscreen(1),
        ])
    );
    assert!(objects.windows[0].fullscreen);
    objects.windows[0].position = Some((0, 0));
    assert_eq!(
        objects.apply_manage_response(&response(Some(vec![
            place(7, (0, 0, 960, 1080), false),
            place(8, (960, 0, 960, 1080), false),
        ]))),
        accepted(vec![
            ObjectRequest::ExitFullscreen(1),
            ObjectRequest::InformNotFullscreen(1),
            ObjectRequest::ProposeDimensions {
                window: 1,
                width: 960,
                height: 1080
            },
            ObjectRequest::SetTiled(2),
            ObjectRequest::SetCapabilities(2),
            ObjectRequest::ProposeDimensions {
                window: 2,
                width: 960,
                height: 1080
            },
        ])
    );
    assert!(!objects.windows[0].fullscreen);
    assert_eq!(objects.windows[0].position, None);
}

#[test]
fn placement_of_an_unknown_window_is_a_protocol_error() {
    let mut objects = managed();
    objects.default_output = Some(30);
    assert_eq!(
        objects.apply_manage_response(&response(Some(vec![
            place(7, (0, 0, 10, 10), false),
            place(99, (0, 0, 10, 10), false),
        ]))),
        protocol(vec![
            ObjectRequest::SetTiled(1),
            ObjectRequest::SetCapabilities(1),
            ObjectRequest::ProposeDimensions {
                window: 1,
                width: 10,
                height: 10
            },
        ])
    );
    assert!(objects.windows[0].initialized);
}

#[test]
fn empty_projection_clears_focus_unless_a_layer_holds_it() {
    let mut objects = managed();
    objects.default_output = Some(30);
    objects.focused_window = Some(7);
    assert_eq!(
        objects.apply_manage_response(&response(Some(vec![]))),
        accepted(vec![ObjectRequest::ClearFocus(40)])
    );
    assert_eq!(objects.focused_window, None);
    objects.focused_window = Some(7);
    objects.exclusive_focus = true;
    assert_eq!(
        objects.apply_manage_response(&response(Some(vec![]))),
        accepted(vec![])
    );
    assert_eq!(objects.focused_window, Some(7));
}

#[test]
fn binding_policy_is_brought_to_the_response() {
    let mut objects = managed();
    objects.default_output = Some(30);
    let wanted = BackendPolicyResponse {
        projection: None,
        closes: vec![],
        bindings: BackendBindingState {
            enabled: vec![binding(2)],
            watched_modifiers: vec![BackendModifier::Super],
            next_key_edge: BackendNextKeyEdge::Ensure,
        },
    };
    assert_eq!(
        objects.apply_manage_response(&wanted),
        accepted(vec![
            ObjectRequest::EnableBinding(binding(2)),
            ObjectRequest::ModifiersWatch(64),
            ObjectRequest::EnsureNextKeyEaten,
        ])
    );
    assert_eq!(
        objects.binding_objects,
        vec![(binding(1), false), (binding(2), true)]
    );
    assert_eq!(objects.watched_modifiers, vec![BackendModifier::Super]);
    let cancel = BackendPolicyResponse {
        projection: None,
        closes: vec![],
        bindings: BackendBindingState {
            enabled: vec![],
            watched_modifiers: vec![BackendModifier::Super],
            next_key_edge: BackendNextKeyEdge::Cancel,
        },
    };
    assert_eq!(
        objects.apply_manage_response(&cancel),
        accepted(vec![
            ObjectRequest::DisableBinding(binding(2)),
            ObjectRequest::CancelEnsureNextKeyEaten,
        ])
    );
}

#[test]
fn modifier_policy_needs_the_seat_key_bindings() {
    let mut objects = managed();
    objects.default_output = Some(30);
    objects.xkb_seat = false;
    let wanted = BackendPolicyResponse {
        projection: None,
        closes: vec![],
        bindings: BackendBindingState {
            enabled: vec![],
            watched_modifiers: vec![BackendModifier::Alt],
            next_key_edge: BackendNextKeyEdge::Preserve,
        },
    };
    assert_eq!(objects.apply_manage_response(&wanted), protocol(vec![]));
    assert!(objects.watched_modifiers.is_empty());
}

use realm_session::backend::objects::ResponseStage;
use realm_session::backend::response::SubmitOutcome;
use realm_session::backend::{BackendCapacityResource, BackendSubmission, BackendTicket};

fn ticket(raw: u64) -> BackendTicket {
    BackendTicket::new(raw).unwrap()
}

/// A managed backend whose first turn is open.
fn open_turn() -> (RiverObjects, realm_session::backend::BackendPolicyTurnId) {
    let mut objects = managed();
    let turn = objects.finish_policy_turn().unwrap();
    (objects, turn.id)
}

fn refused(error: BackendError) -> SubmitOutcome {
    SubmitOutcome {
        requests: vec![],
        result: Err(error),
    }
}

fn invalid() -> BackendError {
    BackendError::Protocol {
        kind: BackendProtocolErrorKind::InvalidFraming,
    }
}

#[test]
fn response_closes_places_and_finishes_the_manage_phase() {
    let (mut objects, turn) = open_turn();
    let answer = BackendPolicyResponse {
        projection: Some(vec![place(7, (0, 0, 1920, 1080), true)]),
        closes: vec![8],
        bindings: quiet_bindings(),
    };
    let outcome = objects.respond_policy_turn(turn, ticket(5), answer.clone());
    assert_eq!(
        outcome,
        SubmitOutcome {
            requests: vec![
                ObjectRequest::Close(2),
                ObjectRequest::SetDefaultOutput(30),
                ObjectRequest::SetTiled(1),
                ObjectRequest::SetCapabilities(1),
                ObjectRequest::Fullscreen {
                    window: 1,
                    output: 30
                },
                ObjectRequest::InformFullscreen(1),
                ObjectRequest::FocusWindow { seat: 40, window: 1 },
                ObjectRequest::ManageFinish,
            ],
            result: Ok(BackendSubmission::Pending),
        }
    );
    assert_eq!(objects.open_turn, None);
    let pending = objects.pending_response.as_ref().unwrap();
    assert_eq!(pending.ticket, ticket(5));
    assert_eq!(pending.response, answer);
    assert_eq!(pending.stage, ResponseStage::AwaitRender);
    assert!(!pending.correction_round);
    assert_eq!(
        objects.respond_policy_turn(turn, ticket(6), response(None)),
        refused(invalid())
    );
}

#[test]
fn response_to_a_closed_turn_is_refused() {
    let mut objects = managed();
    let turn = realm_session::backend::BackendPolicyTurnId::new(1).unwrap();
    assert_eq!(
        objects.respond_policy_turn(turn, ticket(1), response(None)),
        refused(invalid())
    );
}

#[test]
fn pending_failure_skips_the_response_effects() {
    let (mut objects, turn) = open_turn();
    objects.terminal_after_response = Some(BackendError::Disconnected);
    let answer = BackendPolicyResponse {
        projection: Some(vec![place(7, (0, 0, 10, 10), false)]),
        closes: vec![],
        bindings: BackendBindingState {
            enabled: vec![binding(9)],
            watched_modifiers: vec![],
            next_key_edge: BackendNextKeyEdge::Preserve,
        },
    };
    assert_eq!(
        objects.respond_policy_turn(turn, ticket(2), answer),
        SubmitOutcome {
            requests: vec![ObjectRequest::ManageFinish],
            result: Ok(BackendSubmission::Pending),
        }
    );
    assert_eq!(objects.terminal_after_response, None);
    assert_eq!(
        objects.pending_response.as_ref().unwrap().terminal_error,
        Some(BackendError::Disconnected)
    );
    assert!(!objects.windows[0].initialized);
}

#[test]
fn malformed_responses_are_refused() {
    let (mut objects, turn) = open_turn();
    let many = BackendPolicyResponse {
        projection: None,
        closes: (0..257).collect(),
        bindings: quiet_bindings(),
    };
    assert_eq!(
        objects.respond_policy_turn(turn, ticket(1), many),
        refused(BackendError::Capacity {
            resource: BackendCapacityResource::PolicyEffects,
            limit: 256
        })
    );
    let bad = [
        BackendPolicyResponse {
            projection: None,
            closes: vec![7, 7],
            bindings: quiet_bindings(),
        },
        BackendPolicyResponse {
            projection: None,
            closes: vec![99],
            bindings: quiet_bindings(),
        },
        response(Some(vec![place(7, (0, 0, 0, 10), false)])),
        response(Some(vec![
            place(7, (0, 0, 10, 10), false),
            place(7, (0, 0, 10, 10), false),
        ])),
        BackendPolicyResponse {
            projection: None,
            closes: vec![],
            bindings: BackendBindingState {
                enabled: vec![binding(2), binding(1)],
                watched_modifiers: vec![],
                next_key_edge: BackendNextKeyEdge::Preserve,
            },
        },
        BackendPolicyResponse {
            projection: None,
            closes: vec![],
            bindings: BackendBindingState {
                enabled: vec![binding(9)],
                watched_modifiers: vec![],
                next_key_edge: BackendNextKeyEdge::Preserve,
            },
        },
        BackendPolicyResponse {
            projection: None,
            closes: vec![],
            bindings: BackendBindingState {
                enabled: vec![],
                watched_modifiers: vec![BackendModifier::Super, BackendModifier::Shift],
                next_key_edge: BackendNextKeyEdge::Preserve,
            },
        },
    ];
    for answer in bad {
        assert_eq!(
            objects.respond_policy_turn(turn, ticket(1), answer),
            refused(invalid())
        );
    }
    assert_eq!(objects.open_turn, Some(turn));
}

#[test]
fn deferred_correction_is_proposed_while_the_size_is_still_asked() {
    let (mut objects, turn) = open_turn();
    objects.default_output = Some(30);
    objects.deferred_corrections = vec![(1, ((960, 1080), (950, 1070))), (2, ((5, 5), (6, 6)))];
    let answer = response(Some(vec![
        place(7, (0, 0, 960, 1080), false),
        place(8, (960, 0, 960, 1080), false),
    ]));
    let outcome = objects.respond_policy_turn(turn, ticket(3), answer);
    assert_eq!(outcome.result, Ok(BackendSubmission::Pending));
    assert_eq!(
        &outcome.requests[outcome.requests.len() - 2..],
        &[
            ObjectRequest::ProposeDimensions {
                window: 1,
                width: 950,
                height: 1070
            },
            ObjectRequest::ManageFinish
        ]
    );
    assert_eq!(objects.windows[0].proposed_size, Some((950, 1070)));
    assert_eq!(objects.windows[1].proposed_size, Some((960, 1080)));
    assert!(objects.deferred_corrections.is_empty());
    assert!(objects.pending_response.as_ref().unwrap().correction_round);
}
