use realm_session::backend::objects::{
    ObjectRequest, OutputRecord, RiverObjects, RuntimeEvent, RuntimeOutcome,
};
use realm_session::backend::{
    BackendBindingId, BackendBindingSpec, BackendCapacityResource, BackendError, BackendModifier,
    BackendProtocolErrorKind, BackendWindowId, MAX_BACKEND_OUTPUTS, MAX_MANAGED_WINDOWS,
};
use realm_session::policy::PolicyFact;

fn accepted(requests: Vec<ObjectRequest>) -> RuntimeOutcome {
    RuntimeOutcome {
        requests,
        result: Ok(()),
    }
}

fn protocol(requests: Vec<ObjectRequest>) -> RuntimeOutcome {
    RuntimeOutcome {
        requests,
        result: Err(BackendError::Protocol {
            kind: BackendProtocolErrorKind::InvalidFraming,
        }),
    }
}

fn id(text: &str) -> BackendWindowId {
    BackendWindowId::new(text.to_owned()).unwrap()
}

fn binding(raw: u32) -> BackendBindingId {
    BackendBindingId::new(raw).unwrap()
}

fn objects() -> RiverObjects {
    RiverObjects::new(true, true, Vec::new())
}

/// A window announced, identified and opened by a completed turn.
fn opened_window(objects: &mut RiverObjects, window: u32, identity: &str) {
    objects.apply(RuntimeEvent::WindowCreated(window));
    objects.apply(RuntimeEvent::WindowIdentifier {
        window,
        identifier: identity.to_owned(),
    });
    let record = objects
        .windows
        .iter_mut()
        .find(|w| w.object == window)
        .unwrap();
    record.pending_open = false;
}

#[test]
fn new_window_gets_a_node_and_a_fresh_record() {
    let mut objects = objects();
    assert_eq!(
        objects.apply(RuntimeEvent::WindowCreated(10)),
        accepted(vec![ObjectRequest::GetNode(10)])
    );
    assert_eq!(objects.windows.len(), 1);
    let w = &objects.windows[0];
    assert_eq!((w.object, w.ordinal), (10, 1));
    assert!(w.pending_open && w.backend_id.is_none() && w.title.is_empty());
    assert_eq!(objects.next_window_ordinal, 1);
    assert!(objects.flush_pending);
}

#[test]
fn windows_beyond_capacity_are_destroyed_and_refused() {
    let mut objects = objects();
    for window in 0..MAX_MANAGED_WINDOWS as u32 {
        assert_eq!(
            objects.apply(RuntimeEvent::WindowCreated(window)).result,
            Ok(())
        );
    }
    assert_eq!(
        objects.apply(RuntimeEvent::WindowCreated(9999)),
        RuntimeOutcome {
            requests: vec![ObjectRequest::Destroy(9999)],
            result: Err(BackendError::Capacity {
                resource: BackendCapacityResource::ManagedWindows,
                limit: 256
            }),
        }
    );
    assert_eq!(objects.windows.len(), MAX_MANAGED_WINDOWS);
}

#[test]
fn window_identity_must_be_valid_unique_and_for_a_known_window() {
    let mut objects = objects();
    objects.apply(RuntimeEvent::WindowCreated(1));
    objects.apply(RuntimeEvent::WindowCreated(2));
    assert_eq!(
        objects.apply(RuntimeEvent::WindowIdentifier {
            window: 1,
            identifier: "alpha".to_owned()
        }),
        accepted(vec![])
    );
    assert_eq!(objects.windows[0].backend_id, Some(id("alpha")));
    assert_eq!(objects.window_ids, vec![(id("alpha"), 1)]);
    assert_eq!(
        objects.apply(RuntimeEvent::WindowIdentifier {
            window: 2,
            identifier: "alpha".to_owned()
        }),
        protocol(vec![])
    );
    assert_eq!(
        objects.apply(RuntimeEvent::WindowIdentifier {
            window: 2,
            identifier: String::new()
        }),
        protocol(vec![])
    );
    assert_eq!(
        objects.apply(RuntimeEvent::WindowIdentifier {
            window: 3,
            identifier: "beta".to_owned()
        }),
        protocol(vec![])
    );
    assert_eq!(objects.windows[1].backend_id, None);
}

#[test]
fn title_of_an_opened_window_is_reported() {
    let mut objects = objects();
    objects.apply(RuntimeEvent::WindowCreated(1));
    assert_eq!(
        objects.apply(RuntimeEvent::WindowTitle {
            window: 1,
            title: "pending".to_owned()
        }),
        accepted(vec![])
    );
    assert!(objects.policy_events.is_empty());
    opened_window(&mut objects, 2, "w2");
    assert_eq!(
        objects.apply(RuntimeEvent::WindowTitle {
            window: 2,
            title: "shell".to_owned()
        }),
        accepted(vec![])
    );
    assert_eq!(objects.windows[1].title, "shell");
    assert_eq!(
        objects.policy_events,
        vec![PolicyFact::TitleChanged {
            backend_id: id("w2"),
            title: "shell".to_owned()
        }]
    );
}

#[test]
fn title_of_an_opened_window_without_identity_is_a_protocol_error() {
    let mut objects = objects();
    objects.apply(RuntimeEvent::WindowCreated(1));
    objects.windows[0].pending_open = false;
    assert_eq!(
        objects.apply(RuntimeEvent::WindowTitle {
            window: 1,
            title: "x".to_owned()
        }),
        protocol(vec![])
    );
    assert_eq!(objects.windows[0].title, "x");
}

#[test]
fn app_id_is_recorded() {
    let mut objects = objects();
    objects.apply(RuntimeEvent::WindowCreated(4));
    assert_eq!(
        objects.apply(RuntimeEvent::WindowAppId {
            window: 4,
            app_id: "foot".to_owned()
        }),
        accepted(vec![])
    );
    assert_eq!(objects.windows[0].app_id, "foot");
    assert_eq!(
        objects.apply(RuntimeEvent::WindowAppId {
            window: 5,
            app_id: "foot".to_owned()
        }),
        protocol(vec![])
    );
}

#[test]
fn unexpected_resize_of_a_placed_window_reports_drift() {
    let mut objects = objects();
    opened_window(&mut objects, 1, "w1");
    objects.windows[0].position = Some((0, 0));
    objects.windows[0].dimensions = Some((100, 100));
    objects.windows[0].proposed_size = Some((100, 100));
    assert_eq!(
        objects.apply(RuntimeEvent::WindowDimensions {
            window: 1,
            width: 120,
            height: 80
        }),
        accepted(vec![])
    );
    assert_eq!(objects.windows[0].dimensions, Some((120, 80)));
    assert_eq!(objects.windows[0].proposed_size, None);
    assert_eq!(
        objects.policy_events,
        vec![PolicyFact::GeometryDrifted {
            backend_id: id("w1")
        }]
    );
}

#[test]
fn awaited_resize_settles_without_drift() {
    let mut objects = objects();
    opened_window(&mut objects, 1, "w1");
    objects.windows[0].position = Some((0, 0));
    objects.windows[0].awaiting_dimensions = true;
    objects.windows[0].proposed_size = Some((50, 60));
    assert_eq!(
        objects.apply(RuntimeEvent::WindowDimensions {
            window: 1,
            width: 50,
            height: 60
        }),
        accepted(vec![])
    );
    assert!(!objects.windows[0].awaiting_dimensions);
    assert_eq!(objects.windows[0].proposed_size, Some((50, 60)));
    assert!(objects.policy_events.is_empty());
}

#[test]
fn nonpositive_window_size_is_a_protocol_error() {
    let mut objects = objects();
    objects.apply(RuntimeEvent::WindowCreated(1));
    assert_eq!(
        objects.apply(RuntimeEvent::WindowDimensions {
            window: 1,
            width: 0,
            height: 10
        }),
        protocol(vec![])
    );
    assert_eq!(objects.windows[0].dimensions, None);
}

#[test]
fn closed_window_is_destroyed_and_forgotten() {
    let mut objects = objects();
    opened_window(&mut objects, 7, "seven");
    objects.windows[0].assigned = Some(3);
    objects.realm_ids.push((3, id("seven")));
    objects.focused_window = Some(3);
    objects.flush_pending = false;
    assert_eq!(
        objects.apply(RuntimeEvent::WindowClosed(7)),
        accepted(vec![ObjectRequest::DestroyNode(7), ObjectRequest::Destroy(7)])
    );
    assert!(objects.windows.is_empty());
    assert!(objects.window_ids.is_empty());
    assert!(objects.realm_ids.is_empty());
    assert_eq!(objects.focused_window, None);
    assert!(objects.flush_pending);
    assert_eq!(
        objects.policy_events,
        vec![PolicyFact::WindowClosed(id("seven"))]
    );
    assert_eq!(objects.apply(RuntimeEvent::WindowClosed(7)), protocol(vec![]));
}

#[test]
fn pending_window_closes_silently() {
    let mut objects = objects();
    objects.apply(RuntimeEvent::WindowCreated(7));
    objects.apply(RuntimeEvent::WindowIdentifier {
        window: 7,
        identifier: "seven".to_owned(),
    });
    objects.apply(RuntimeEvent::WindowClosed(7));
    assert!(objects.policy_events.is_empty());
    assert!(objects.window_ids.is_empty());
}

#[test]
fn interaction_reports_focus_of_identified_windows_only() {
    let mut objects = objects();
    objects.apply(RuntimeEvent::WindowCreated(1));
    assert_eq!(objects.apply(RuntimeEvent::WindowInteracted(1)), protocol(vec![]));
    objects.apply(RuntimeEvent::WindowIdentifier {
        window: 1,
        identifier: "one".to_owned(),
    });
    assert_eq!(objects.apply(RuntimeEvent::WindowInteracted(1)), accepted(vec![]));
    assert_eq!(
        objects.policy_events,
        vec![PolicyFact::FocusChanged(Some(id("one")))]
    );
}

#[test]
fn outputs_need_the_layer_shell() {
    let mut objects = RiverObjects::new(false, true, Vec::new());
    assert_eq!(objects.apply(RuntimeEvent::OutputCreated(30)), protocol(vec![]));
    assert_eq!(objects.next_output_ordinal, 1);
    assert!(objects.outputs.is_empty());
}

#[test]
fn output_lifecycle_and_selected_workarea() {
    let mut objects = objects();
    assert_eq!(
        objects.apply(RuntimeEvent::OutputCreated(30)),
        accepted(vec![ObjectRequest::GetLayerOutput(30)])
    );
    objects.selected_output = Some(30);
    assert_eq!(
        objects.apply(RuntimeEvent::Workarea {
            output: 30,
            x: 0,
            y: 20,
            width: 800,
            height: 580
        }),
        protocol(vec![])
    );
    objects.apply(RuntimeEvent::OutputPosition {
        output: 30,
        x: 0,
        y: 0,
    });
    objects.apply(RuntimeEvent::OutputDimensions {
        output: 30,
        width: 800,
        height: 600,
    });
    assert_eq!(
        objects.apply(RuntimeEvent::Workarea {
            output: 30,
            x: 0,
            y: 20,
            width: 800,
            height: 580
        }),
        accepted(vec![])
    );
    assert_eq!(
        objects.outputs,
        vec![OutputRecord {
            object: 30,
            ordinal: 1,
            position: Some((0, 0)),
            dimensions: Some((800, 600)),
            workarea: Some((0, 20, 800, 580)),
        }]
    );
    assert_eq!(
        objects.policy_events,
        vec![PolicyFact::WorkareaChanged {
            output: (0, 0, 800, 600),
            tiles: (0, 20, 800, 580)
        }]
    );
}

#[test]
fn unselected_output_workarea_is_recorded_silently() {
    let mut objects = objects();
    objects.apply(RuntimeEvent::OutputCreated(31));
    assert_eq!(
        objects.apply(RuntimeEvent::Workarea {
            output: 31,
            x: 1,
            y: 2,
            width: 3,
            height: 4
        }),
        accepted(vec![])
    );
    assert_eq!(objects.outputs[0].workarea, Some((1, 2, 3, 4)));
    assert!(objects.policy_events.is_empty());
}

#[test]
fn losing_the_selected_output_drops_fullscreen_placement() {
    let mut objects = objects();
    objects.apply(RuntimeEvent::OutputCreated(30));
    objects.selected_output = Some(30);
    objects.default_output = Some(30);
    objects.apply(RuntimeEvent::WindowCreated(1));
    objects.apply(RuntimeEvent::WindowCreated(2));
    objects.windows[0].fullscreen = true;
    objects.windows[0].position = Some((0, 0));
    objects.windows[0].proposed_size = Some((800, 600));
    objects.windows[1].position = Some((5, 5));
    assert_eq!(
        objects.apply(RuntimeEvent::OutputRemoved(30)),
        accepted(vec![
            ObjectRequest::DestroyLayerOutput(30),
            ObjectRequest::Destroy(30)
        ])
    );
    assert!(objects.outputs.is_empty());
    assert_eq!(objects.selected_output, None);
    assert_eq!(objects.default_output, None);
    assert!(objects.selected_output_lost);
    assert!(!objects.windows[0].fullscreen);
    assert_eq!(objects.windows[0].position, None);
    assert_eq!(objects.windows[0].proposed_size, None);
    assert_eq!(objects.windows[1].position, Some((5, 5)));
}

#[test]
fn outputs_beyond_capacity_are_destroyed_and_refused() {
    let mut objects = objects();
    for output in 0..MAX_BACKEND_OUTPUTS as u32 {
        objects.apply(RuntimeEvent::OutputCreated(output));
    }
    assert_eq!(
        objects.apply(RuntimeEvent::OutputCreated(500)),
        RuntimeOutcome {
            requests: vec![ObjectRequest::Destroy(500)],
            result: Err(BackendError::Capacity {
                resource: BackendCapacityResource::Outputs,
                limit: 16
            }),
        }
    );
}

#[test]
fn first_seat_is_selected_and_gets_binding_objects() {
    let bindings = vec![
        BackendBindingSpec {
            id: binding(1),
            keysym: "Return".to_owned(),
            modifiers: vec![BackendModifier::Super],
        },
        BackendBindingSpec {
            id: binding(2),
            keysym: "q".to_owned(),
            modifiers: vec![BackendModifier::Shift, BackendModifier::Super],
        },
    ];
    let mut objects = RiverObjects::new(true, true, bindings);
    assert_eq!(
        objects.apply(RuntimeEvent::SeatCreated(40)),
        accepted(vec![
            ObjectRequest::GetLayerSeat(40),
            ObjectRequest::GetXkbSeat(40),
            ObjectRequest::GetXkbBinding {
                seat: 40,
                binding: binding(1),
                keysym: 0xff0d,
                modifiers: 64
            },
            ObjectRequest::GetXkbBinding {
                seat: 40,
                binding: binding(2),
                keysym: 'q' as u32,
                modifiers: 65
            },
        ])
    );
    assert_eq!(objects.selected_seat, Some(40));
    assert!(objects.layer_seat && objects.xkb_seat);
    assert_eq!(
        objects.binding_objects,
        vec![(binding(1), false), (binding(2), false)]
    );
    assert_eq!(objects.apply(RuntimeEvent::SeatCreated(41)), accepted(vec![]));
    assert_eq!(objects.seats, vec![(40, 1), (41, 2)]);
    assert_eq!(objects.selected_seat, Some(40));
}

#[test]
fn unknown_binding_keysym_refuses_the_seat() {
    let bindings = vec![
        BackendBindingSpec {
            id: binding(1),
            keysym: "a".to_owned(),
            modifiers: vec![],
        },
        BackendBindingSpec {
            id: binding(2),
            keysym: "F13".to_owned(),
            modifiers: vec![],
        },
    ];
    let mut objects = RiverObjects::new(true, true, bindings);
    assert_eq!(
        objects.apply(RuntimeEvent::SeatCreated(40)),
        protocol(vec![
            ObjectRequest::GetLayerSeat(40),
            ObjectRequest::GetXkbSeat(40),
            ObjectRequest::GetXkbBinding {
                seat: 40,
                binding: binding(1),
                keysym: 'a' as u32,
                modifiers: 0
            },
        ])
    );
    assert_eq!(objects.binding_objects, vec![(binding(1), false)]);
    assert!(objects.seats.is_empty());
}

#[test]
fn losing_the_selected_seat_tears_it_down_and_fails_later() {
    let bindings = vec![BackendBindingSpec {
        id: binding(3),
        keysym: "Escape".to_owned(),
        modifiers: vec![],
    }];
    let mut objects = RiverObjects::new(true, true, bindings);
    objects.apply(RuntimeEvent::SeatCreated(40));
    assert_eq!(
        objects.apply(RuntimeEvent::SeatRemoved(40)),
        accepted(vec![
            ObjectRequest::DestroyLayerSeat,
            ObjectRequest::DestroyXkbSeat,
            ObjectRequest::DestroyBinding(binding(3)),
            ObjectRequest::Destroy(40),
        ])
    );
    assert_eq!(objects.selected_seat, None);
    assert!(objects.binding_objects.is_empty());
    assert_eq!(
        objects.terminal_after_response,
        Some(BackendError::Unavailable {
            message: "selected River seat was removed".to_owned()
        })
    );
    assert_eq!(objects.apply(RuntimeEvent::SeatRemoved(40)), protocol(vec![]));
}

#[test]
fn binding_facts_need_a_binding_object() {
    let bindings = vec![BackendBindingSpec {
        id: binding(5),
        keysym: "x".to_owned(),
        modifiers: vec![],
    }];
    let mut objects = RiverObjects::new(true, true, bindings);
    assert_eq!(
        objects.apply(RuntimeEvent::BindingPressed(binding(5))),
        protocol(vec![])
    );
    objects.apply(RuntimeEvent::SeatCreated(40));
    objects.apply(RuntimeEvent::BindingPressed(binding(5)));
    objects.apply(RuntimeEvent::BindingRepeatStopped(binding(5)));
    objects.apply(RuntimeEvent::BindingReleased(binding(5)));
    assert_eq!(
        objects.policy_events,
        vec![
            PolicyFact::BindingPressed(binding(5)),
            PolicyFact::BindingRepeatStopped(binding(5)),
            PolicyFact::BindingReleased(binding(5)),
        ]
    );
}

#[test]
fn focus_keys_and_modifiers_become_facts() {
    let mut objects = objects();
    objects.focused_window = Some(9);
    objects.apply(RuntimeEvent::ExclusiveFocus(true));
    assert_eq!(objects.focused_window, None);
    assert!(objects.exclusive_focus);
    objects.apply(RuntimeEvent::UnboundKeyEaten);
    assert_eq!(
        objects.apply(RuntimeEvent::ModifiersChanged { old: 0, new: 4 | 64 }),
        accepted(vec![])
    );
    assert_eq!(
        objects.apply(RuntimeEvent::ModifiersChanged { old: 2, new: 0 }),
        protocol(vec![])
    );
    assert_eq!(
        objects.policy_events,
        vec![
            PolicyFact::ExclusiveFocusChanged(true),
            PolicyFact::UnboundKeyEaten,
            PolicyFact::ModifiersChanged {
                old: vec![],
                new: vec![BackendModifier::Control, BackendModifier::Super]
            },
        ]
    );
}

#[test]
fn another_window_manager_is_reported() {
    let mut objects = objects();
    assert_eq!(
        objects.apply(RuntimeEvent::ManagerUnavailable),
        RuntimeOutcome {
            requests: vec![],
            result: Err(BackendError::Unavailable {
                message: "another River window manager is active".to_owned()
            }),
        }
    );
}

#[test]
fn too_many_gathered_facts_exceed_policy_capacity() {
    let mut objects = objects();
    objects.replay = false;
    for _ in 0..256 {
        assert_eq!(objects.apply(RuntimeEvent::UnboundKeyEaten).result, Ok(()));
    }
    assert_eq!(
        objects.apply(RuntimeEvent::UnboundKeyEaten),
        RuntimeOutcome {
            requests: vec![],
            result: Err(BackendError::Capacity {
                resource: BackendCapacityResource::PolicyFacts,
                limit: 256
            }),
        }
    );
}

/// A backend with one complete output and one selected seat.
fn ready_objects() -> RiverObjects {
    let mut objects = objects();
    objects.apply(RuntimeEvent::OutputCreated(30));
    objects.apply(RuntimeEvent::OutputPosition {
        output: 30,
        x: 0,
        y: 0,
    });
    objects.apply(RuntimeEvent::OutputDimensions {
        output: 30,
        width: 1920,
        height: 1080,
    });
    objects.apply(RuntimeEvent::SeatCreated(40));
    objects
}

#[test]
fn first_turn_announces_pending_windows_and_completes_replay() {
    let mut objects = ready_objects();
    objects.apply(RuntimeEvent::WindowCreated(1));
    objects.apply(RuntimeEvent::WindowIdentifier {
        window: 1,
        identifier: "one".to_owned(),
    });
    objects.apply(RuntimeEvent::WindowAppId {
        window: 1,
        app_id: "foot".to_owned(),
    });
    objects.apply(RuntimeEvent::WindowTitle {
        window: 1,
        title: "shell".to_owned(),
    });
    let turn = objects.finish_policy_turn().unwrap();
    assert_eq!(turn.id.get(), 1);
    assert_eq!(turn.drains, None);
    assert_eq!(
        turn.events,
        vec![
            PolicyFact::WindowOpened {
                backend_id: id("one"),
                app_id: "foot".to_owned(),
                title: "shell".to_owned()
            },
            PolicyFact::InitialReplayComplete,
        ]
    );
    assert!(!objects.windows[0].pending_open);
    assert_eq!(objects.selected_output, Some(30));
    assert_eq!(objects.open_turn, Some(turn.id));
    assert!(!objects.replay);
    assert!(objects.policy_events.is_empty());
    assert_eq!(objects.terminal_after_response, None);

    let second = objects.finish_policy_turn().unwrap();
    assert_eq!(second.id.get(), 2);
    assert!(second.events.is_empty());
}

#[test]
fn pending_window_without_identity_fails_the_turn() {
    let mut objects = ready_objects();
    objects.apply(RuntimeEvent::WindowCreated(1));
    objects.apply(RuntimeEvent::WindowIdentifier {
        window: 1,
        identifier: "one".to_owned(),
    });
    objects.apply(RuntimeEvent::WindowCreated(2));
    assert_eq!(
        objects.finish_policy_turn().unwrap_err(),
        BackendError::Protocol {
            kind: BackendProtocolErrorKind::InvalidFraming
        }
    );
    assert!(!objects.windows[0].pending_open);
    assert!(objects.windows[1].pending_open);
    assert_eq!(objects.policy_events.len(), 1);
}

#[test]
fn incomplete_selection_fails_after_the_response() {
    let mut objects = objects();
    let turn = objects.finish_policy_turn().unwrap();
    assert_eq!(turn.events, vec![PolicyFact::InitialReplayComplete]);
    assert_eq!(
        objects.terminal_after_response,
        Some(BackendError::Unavailable {
            message: "River has no complete selected output or seat".to_owned()
        })
    );
}

#[test]
fn lost_output_is_replaced_by_the_oldest_one_with_a_workarea() {
    let mut objects = ready_objects();
    objects.finish_policy_turn().unwrap();
    objects.apply(RuntimeEvent::OutputCreated(31));
    objects.apply(RuntimeEvent::OutputCreated(32));
    for output in [31, 32] {
        objects.apply(RuntimeEvent::OutputPosition { output, x: 0, y: 0 });
        objects.apply(RuntimeEvent::OutputDimensions {
            output,
            width: 800,
            height: 600,
        });
    }
    objects.apply(RuntimeEvent::Workarea {
        output: 32,
        x: 0,
        y: 0,
        width: 800,
        height: 600,
    });
    objects.apply(RuntimeEvent::OutputRemoved(30));
    assert!(objects.selected_output_lost);
    let turn = objects.finish_policy_turn().unwrap();
    assert_eq!(objects.selected_output, Some(32));
    assert!(!objects.selected_output_lost);
    assert_eq!(
        turn.events,
        vec![PolicyFact::WorkareaChanged {
            output: (0, 0, 800, 600),
            tiles: (0, 0, 800, 600)
        }]
    );
}

#[test]
fn selected_seat_announced_after_another_is_a_protocol_error() {
    let mut objects = ready_objects();
    objects.apply(RuntimeEvent::SeatCreated(41));
    objects.seats = vec![(41, 1), (40, 2)];
    assert_eq!(
        objects.finish_policy_turn().unwrap_err(),
        BackendError::Protocol {
            kind: BackendProtocolErrorKind::InvalidFraming
        }
    );
}

#[test]
fn turn_carries_and_clears_the_drain_ticket() {
    let mut objects = ready_objects();
    let ticket = realm_session::backend::BackendTicket::new(9).unwrap();
    objects.drain_ticket = Some(ticket);
    let turn = objects.finish_policy_turn().unwrap();
    assert_eq!(turn.drains, Some(ticket));
    assert_eq!(objects.drain_ticket, None);
}

#[test]
fn exhausted_turn_ids_are_a_capacity_failure() {
    let mut objects = ready_objects();
    objects.next_turn = u64::MAX;
    assert_eq!(
        objects.finish_policy_turn().unwrap_err(),
        BackendError::Capacity {
            resource: BackendCapacityResource::PolicyTurnIds,
            limit: u64::MAX
        }
    );
}

#[test]
fn assigning_a_window_binds_both_identities_once() {
    let mut objects = objects();
    objects.apply(RuntimeEvent::WindowCreated(1));
    objects.apply(RuntimeEvent::WindowIdentifier {
        window: 1,
        identifier: "one".to_owned(),
    });
    objects.apply(RuntimeEvent::WindowCreated(2));
    objects.apply(RuntimeEvent::WindowIdentifier {
        window: 2,
        identifier: "two".to_owned(),
    });
    assert_eq!(objects.assign_window(&id("one"), 7), Ok(()));
    assert_eq!(objects.windows[0].assigned, Some(7));
    assert_eq!(objects.realm_ids, vec![(7, id("one"))]);
    assert_eq!(objects.assign_window(&id("one"), 7), Ok(()));
    assert_eq!(
        objects.assign_window(&id("one"), 8),
        Err(realm_session::backend::BackendContractError::ConflictingBackendIdentity)
    );
    assert_eq!(
        objects.assign_window(&id("two"), 7),
        Err(realm_session::backend::BackendContractError::ConflictingRealmIdentity)
    );
    assert_eq!(
        objects.assign_window(&id("three"), 9),
        Err(realm_session::backend::BackendContractError::UnknownWindow {
            backend_id: id("three")
        })
    );
    assert_eq!(objects.realm_ids.len(), 1);
}

fn spec(raw: u32, keysym: &str, modifiers: Vec<BackendModifier>) -> BackendBindingSpec {
    BackendBindingSpec {
        id: binding(raw),
        keysym: keysym.to_owned(),
        modifiers,
    }
}

#[test]
fn configured_bindings_are_kept_in_identity_order() {
    let mut objects = objects();
    assert_eq!(
        objects.configure_bindings(vec![
            spec(3, "q", vec![BackendModifier::Super]),
            spec(1, "Return", vec![]),
            spec(2, "question", vec![BackendModifier::Shift, BackendModifier::Super]),
        ]),
        Ok(())
    );
    let ids: Vec<u32> = objects.bindings.iter().map(|b| b.id.get()).collect();
    assert_eq!(ids, vec![1, 2, 3]);
}

#[test]
fn invalid_bindings_are_refused_whole() {
    let mut objects = objects();
    for bad in [
        vec![spec(1, "F13", vec![])],
        vec![spec(1, "a", vec![BackendModifier::Super, BackendModifier::Shift])],
        vec![spec(1, "a", vec![]), spec(1, "b", vec![])],
    ] {
        assert_eq!(
            objects.configure_bindings(bad),
            Err(BackendError::Protocol {
                kind: BackendProtocolErrorKind::InvalidFraming
            })
        );
        assert!(objects.bindings.is_empty());
    }
    let many = (1..=65).map(|i| spec(i, "a", vec![])).collect();
    assert_eq!(
        objects.configure_bindings(many),
        Err(BackendError::Capacity {
            resource: BackendCapacityResource::ConfiguredBindings,
            limit: 64
        })
    );
}

#[test]
fn bindings_cannot_change_once_a_seat_is_bound() {
    let mut objects = objects();
    objects.apply(RuntimeEvent::SeatCreated(40));
    assert_eq!(
        objects.configure_bindings(vec![spec(1, "a", vec![])]),
        Err(BackendError::Protocol {
            kind: BackendProtocolErrorKind::InvalidFraming
        })
    );
}
