use realm_session::backend::objects::{
    ObjectRequest, ResponseStage, RiverObjects, RuntimeEvent, RuntimeOutcome,
};
use realm_session::backend::render::RenderOutcome;
use realm_session::backend::river::border_rgba;
use realm_session::backend::{
    BackendBindingState, BackendError, BackendNextKeyEdge, BackendPolicyResponse,
    BackendProtocolErrorKind, BackendSubmission, BackendTicket, BackendWindowId, Placement,
};

fn id(text: &str) -> BackendWindowId {
    BackendWindowId::new(text.to_owned()).unwrap()
}

fn place(win: u64, rect: (i32, i32, i32, i32), focused: bool, occluded: bool) -> Placement {
    Placement {
        win,
        rect,
        focused,
        occluded,
    }
}

fn response(projection: Option<Vec<Placement>>) -> BackendPolicyResponse {
    BackendPolicyResponse {
        projection,
        closes: vec![],
        bindings: BackendBindingState {
            enabled: vec![],
            watched_modifiers: vec![],
            next_key_edge: BackendNextKeyEdge::Preserve,
        },
    }
}

fn borders(window: u32, focused: bool) -> ObjectRequest {
    let (r, g, b, a) = border_rgba(focused);
    ObjectRequest::SetBorders { window, r, g, b, a }
}

/// One output and seat, windows 1 and 2 assigned to Realm windows 7 and 8.
fn managed() -> RiverObjects {
    let mut objects = RiverObjects::new(true, true, vec![]);
    objects.apply(RuntimeEvent::OutputCreated(30));
    objects.apply(RuntimeEvent::OutputPosition {
        output: 30,
        x: 0,
        y: 0,
    });
    objects.apply(RuntimeEvent::OutputDimensions {
        output: 30,
        width: 1920,
        height: 1080,
    });
    objects.apply(RuntimeEvent::SeatCreated(40));
    for (window, name, win) in [(1, "one", 7), (2, "two", 8)] {
        objects.apply(RuntimeEvent::WindowCreated(window));
        objects.apply(RuntimeEvent::WindowIdentifier {
            window,
            identifier: name.to_owned(),
        });
        objects.assign_window(&id(name), win).unwrap();
    }
    objects
}

fn tiles() -> Vec<Placement> {
    vec![
        place(7, (0, 0, 960, 1080), true, false),
        place(8, (960, 0, 960, 1080), false, false),
    ]
}

#[test]
fn nothing_to_render_without_a_projection() {
    let mut objects = managed();
    assert_eq!(
        objects.apply_render_response(&None, true),
        RenderOutcome {
            requests: vec![],
            result: Ok(vec![])
        }
    );
}

#[test]
fn placed_windows_are_moved_bordered_clipped_and_shown() {
    let mut objects = managed();
    objects.windows[0].dimensions = Some((960, 1080));
    objects.windows[1].dimensions = Some((900, 1000));
    assert_eq!(
        objects.apply_render_response(&Some(tiles()), true),
        RenderOutcome {
            requests: vec![
                ObjectRequest::SetPosition {
                    window: 1,
                    x: 0,
                    y: 0
                },
                borders(1, true),
                ObjectRequest::SetContentClipBox {
                    window: 1,
                    width: 0,
                    height: 0
                },
                ObjectRequest::Show(1),
                ObjectRequest::SetPosition {
                    window: 2,
                    x: 960,
                    y: 0
                },
                borders(2, false),
            ],
            result: Ok(vec![(2, ((960, 1080), (1020, 1160)))]),
        }
    );
    assert_eq!(objects.windows[0].hidden, Some(false));
    assert_eq!(objects.windows[1].hidden, None);
    assert_eq!(objects.windows[1].position, Some((960, 0)));
}

#[test]
fn oversized_content_is_clipped_and_small_windows_shown_without_corrections() {
    let mut objects = managed();
    objects.windows[0].dimensions = Some((1000, 1100));
    objects.windows[1].dimensions = Some((900, 1000));
    let outcome = objects.apply_render_response(&Some(tiles()), false);
    assert_eq!(outcome.result, Ok(vec![]));
    assert!(outcome.requests.contains(&ObjectRequest::SetContentClipBox {
        window: 1,
        width: 960,
        height: 1080
    }));
    assert!(outcome.requests.contains(&ObjectRequest::Show(2)));
}

#[test]
fn unplaced_assigned_windows_are_hidden() {
    let mut objects = managed();
    let outcome = objects.apply_render_response(&Some(vec![place(7, (0, 0, 10, 10), false, true)]), true);
    assert_eq!(outcome.requests[0], ObjectRequest::Hide(2));
    assert_eq!(objects.windows[1].hidden, Some(true));
    let again = objects.apply_render_response(&Some(vec![place(7, (0, 0, 10, 10), true, true)]), true);
    assert!(!again.requests.contains(&ObjectRequest::Hide(2)));
    assert_eq!(again.requests.last(), Some(&ObjectRequest::PlaceTop(1)));
}

#[test]
fn placement_of_an_unknown_window_fails_the_render() {
    let mut objects = managed();
    assert_eq!(
        objects
            .apply_render_response(&Some(vec![place(99, (0, 0, 10, 10), false, false)]), true)
            .result,
        Err(BackendError::Protocol {
            kind: BackendProtocolErrorKind::InvalidFraming
        })
    );
}

#[test]
fn fullscreen_window_is_only_shown() {
    let mut objects = managed();
    objects.windows[0].fullscreen = true;
    assert_eq!(
        objects.apply_render_response(&Some(vec![place(7, (0, 0, 1920, 1080), true, false)]), true),
        RenderOutcome {
            requests: vec![ObjectRequest::Hide(2), ObjectRequest::Show(1)],
            result: Ok(vec![]),
        }
    );
}

fn ticket(raw: u64) -> BackendTicket {
    BackendTicket::new(raw).unwrap()
}

#[test]
fn render_of_a_fitting_response_finishes_it() {
    let mut objects = managed();
    let turn = objects.manage_start().turn.unwrap();
    objects.windows[0].dimensions = Some((960, 1080));
    objects.windows[1].dimensions = Some((960, 1080));
    assert_eq!(
        objects
            .respond_policy_turn(turn.id, ticket(4), response(Some(tiles())))
            .result,
        Ok(BackendSubmission::Pending)
    );
    let outcome = objects.render_start();
    assert_eq!(outcome.result, Ok(()));
    assert_eq!(outcome.requests.last(), Some(&ObjectRequest::RenderFinish));
    assert_eq!(
        objects.pending_response.as_ref().unwrap().stage,
        ResponseStage::FlushingRender
    );
    assert_eq!(
        objects.render_start(),
        RuntimeOutcome {
            requests: vec![],
            result: Err(BackendError::Protocol {
                kind: BackendProtocolErrorKind::InvalidFraming
            }),
        }
    );
}

#[test]
fn undersized_window_takes_a_correction_round() {
    let mut objects = managed();
    let turn = objects.manage_start().turn.unwrap();
    objects.windows[0].dimensions = Some((960, 1080));
    objects.windows[1].dimensions = Some((900, 1000));
    objects.respond_policy_turn(turn.id, ticket(4), response(Some(tiles())));
    let outcome = objects.render_start();
    assert_eq!(outcome.result, Ok(()));
    assert_eq!(
        &outcome.requests[outcome.requests.len() - 2..],
        &[ObjectRequest::RenderFinish, ObjectRequest::ManageDirty]
    );
    let pending = objects.pending_response.as_ref().unwrap();
    assert_eq!(pending.stage, ResponseStage::AwaitCorrectionManage);
    assert!(pending.correction_round);
    assert_eq!(pending.corrections, vec![(2, ((960, 1080), (1020, 1160)))]);

    let started = objects.manage_start();
    assert_eq!(started.completed, Some(ticket(4)));
    let next = started.turn.unwrap();
    assert_eq!(next.drains, Some(ticket(4)));
    assert!(objects.pending_response.is_none());
    assert_eq!(objects.deferred_corrections, vec![(2, ((960, 1080), (1020, 1160)))]);
    assert_eq!(objects.last_projection, Some(tiles()));
}

#[test]
fn manage_start_closes_the_turn() {
    let mut objects = managed();
    objects.turn_requested = true;
    let started = objects.manage_start();
    assert_eq!(started.completed, None);
    assert_eq!(started.turn.unwrap().id.get(), 1);
    assert!(!objects.turn_requested);
}

use realm_session::backend::BackendExitPolicy;

fn protocol(requests: Vec<ObjectRequest>) -> RuntimeOutcome {
    RuntimeOutcome {
        requests,
        result: Err(BackendError::Protocol {
            kind: BackendProtocolErrorKind::InvalidFraming,
        }),
    }
}

#[test]
fn policy_turn_is_requested_once_while_connected() {
    let mut objects = managed();
    assert_eq!(objects.request_policy_turn(), protocol(vec![]));
    objects.link.connected = true;
    assert_eq!(
        objects.request_policy_turn(),
        RuntimeOutcome {
            requests: vec![ObjectRequest::ManageDirty],
            result: Ok(())
        }
    );
    assert!(objects.turn_requested && objects.flush_pending);
    assert_eq!(
        objects.request_policy_turn(),
        RuntimeOutcome {
            requests: vec![],
            result: Ok(())
        }
    );
}

#[test]
fn exit_answers_the_open_turn_with_the_exit_policy() {
    let mut objects = managed();
    objects.link.connected = true;
    objects.manage_start().turn.unwrap();
    assert_eq!(objects.selected_output, Some(30));
    assert_eq!(
        objects.begin_exit_session(BackendExitPolicy {
            enabled: vec![],
            watched_modifiers: vec![],
        }),
        RuntimeOutcome {
            requests: vec![
                ObjectRequest::SetDefaultOutput(30),
                ObjectRequest::CancelEnsureNextKeyEaten,
                ObjectRequest::ManageFinish,
                ObjectRequest::ExitSession,
            ],
            result: Ok(())
        }
    );
    assert!(objects.link.exit_started);
    assert_eq!(objects.open_turn, None);
    assert!(objects.pending_response.is_none());
    assert_eq!(
        objects.begin_exit_session(BackendExitPolicy {
            enabled: vec![],
            watched_modifiers: vec![],
        }),
        protocol(vec![])
    );
    assert_eq!(objects.request_policy_turn(), protocol(vec![]));
}

#[test]
fn exit_without_an_open_turn_only_ends_the_session() {
    let mut objects = managed();
    objects.link.connected = true;
    assert_eq!(
        objects.begin_exit_session(BackendExitPolicy {
            enabled: vec![],
            watched_modifiers: vec![],
        }),
        RuntimeOutcome {
            requests: vec![ObjectRequest::ExitSession],
            result: Ok(())
        }
    );
}

#[test]
fn flushed_render_completes_the_response() {
    let mut objects = managed();
    let turn = objects.manage_start().turn.unwrap();
    objects.windows[0].dimensions = Some((960, 1080));
    objects.windows[1].dimensions = Some((960, 1080));
    objects.respond_policy_turn(turn.id, ticket(4), response(Some(tiles())));
    objects.render_start();
    assert_eq!(objects.flush_completed(), Some((ticket(4), Ok(()))));
    assert!(!objects.flush_pending);
    assert!(objects.pending_response.is_none());
    assert_eq!(objects.drain_ticket, Some(ticket(4)));
    assert_eq!(objects.last_projection, Some(tiles()));
    assert_eq!(objects.flush_completed(), None);
}

#[test]
fn flushed_response_reports_its_awaited_failure() {
    let mut objects = managed();
    let turn = objects.manage_start().turn.unwrap();
    objects.terminal_after_response = Some(BackendError::Disconnected);
    objects.respond_policy_turn(turn.id, ticket(6), response(None));
    objects.render_start();
    assert_eq!(
        objects.flush_completed(),
        Some((ticket(6), Err(BackendError::Disconnected)))
    );
    assert_eq!(objects.drain_ticket, None);
}

#[test]
fn flush_after_exit_marks_the_exit_flushed() {
    let mut objects = managed();
    objects.link.connected = true;
    objects.begin_exit_session(BackendExitPolicy {
        enabled: vec![],
        watched_modifiers: vec![],
    });
    assert_eq!(objects.flush_completed(), None);
    assert!(objects.link.exit_flushed);
}
