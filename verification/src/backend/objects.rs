//! River object bookkeeping: the windows, outputs, seats and binding objects
//! the compositor announces, and the policy facts their events give rise to.
//!
//! Objects are named by their protocol object ids. Each event yields the
//! protocol requests the caller must send, in order, and whether the event
//! was accepted. A refused event is fatal to the connection; the requests
//! sent before the refusal are still reported.
use vstd::prelude::*;

use crate::backend::river::{
    capacity, decode_modifiers, decoded_modifiers, keysym, modifier_mask, modifiers_bits,
    protocol_error, spec_keysym,
};
use crate::backend::table::{
    id_index, ids_unique, key_index, keyed_insert, keyed_remove, keys_unique, lemma_id_index,
    lemma_id_index_finds, lemma_ids_push, lemma_ids_remove, lemma_key_index,
    lemma_key_index_finds, lemma_keyed_insert, lemma_keyed_remove, lemma_keys_push,
    lemma_remove_at_key, lemma_ids_remove_forgets, increasing, lemma_increasing_remove,
};
use crate::backend::{
    valid_backend_window_id, BackendBindingId, BackendContractError, BackendBindingSpec, BackendCapacityResource,
    BackendError, BackendModifier, BackendPolicyResponse, Placement, BackendPolicyTurnId, BackendProtocolErrorKind, BackendTicket, BackendWindowId, MAX_BACKEND_OUTPUTS,
    MAX_BACKEND_SEATS, MAX_CONFIGURED_BINDINGS, MAX_MANAGED_WINDOWS,
};
use crate::policy::{spec_policy_capacity, validate_policy_capacity, PolicyFact, PolicyFactValue, PolicyTurn};
use crate::session::{canonical_modifiers, spec_canonical_modifiers};
use crate::text::str_equal;

verus! {

/// One window the compositor announced.
#[derive(Debug, PartialEq, Eq)]
pub struct WindowRecord {
    /// The window object.
    pub object: u32,
    /// Creation order among windows.
    pub ordinal: u64,
    /// Stable compositor identity, once reported.
    pub backend_id: Option<BackendWindowId>,
    /// Application identifier.
    pub app_id: String,
    /// Window title.
    pub title: String,
    /// Whether the window still awaits its first policy turn.
    pub pending_open: bool,
    /// The Realm window it is assigned to.
    pub assigned: Option<u64>,
    /// Last reported size.
    pub dimensions: Option<(i32, i32)>,
    /// Size last proposed to the compositor.
    pub proposed_size: Option<(i32, i32)>,
    /// Whether a proposed size is awaiting its answer.
    pub awaiting_dimensions: bool,
    /// Last placed position.
    pub position: Option<(i32, i32)>,
    /// Last focus state sent.
    pub focused: Option<bool>,
    /// Last visibility sent.
    pub hidden: Option<bool>,
    /// Whether the window is fullscreen.
    pub fullscreen: bool,
    /// Whether the window has been configured once.
    pub initialized: bool,
}

/// One output the compositor announced.
#[derive(Debug, Clone, Copy, PartialEq, Eq)]
pub struct OutputRecord {
    /// The output object.
    pub object: u32,
    /// Creation order among outputs.
    pub ordinal: u64,
    /// Reported position.
    pub position: Option<(i32, i32)>,
    /// Reported size.
    pub dimensions: Option<(i32, i32)>,
    /// Reported workarea: x, y, width, height.
    pub workarea: Option<(i32, i32, i32, i32)>,
}

/// One event about River objects.
#[derive(Debug, PartialEq, Eq)]
pub enum RuntimeEvent {
    /// Another window manager holds the compositor.
    ManagerUnavailable,
    /// A window appeared.
    WindowCreated(u32),
    /// A window reported its stable identity.
    WindowIdentifier {
        /// The window.
        window: u32,
        /// The reported identity.
        identifier: String,
    },
    /// A window reported its application identifier.
    WindowAppId {
        /// The window.
        window: u32,
        /// The application identifier.
        app_id: String,
    },
    /// A window reported its title.
    WindowTitle {
        /// The window.
        window: u32,
        /// The title.
        title: String,
    },
    /// A window reported its size.
    WindowDimensions {
        /// The window.
        window: u32,
        /// Width.
        width: i32,
        /// Height.
        height: i32,
    },
    /// A window closed.
    WindowClosed(u32),
    /// An output appeared.
    OutputCreated(u32),
    /// An output reported its position.
    OutputPosition {
        /// The output.
        output: u32,
        /// Horizontal position.
        x: i32,
        /// Vertical position.
        y: i32,
    },
    /// An output reported its size.
    OutputDimensions {
        /// The output.
        output: u32,
        /// Width.
        width: i32,
        /// Height.
        height: i32,
    },
    /// An output disappeared.
    OutputRemoved(u32),
    /// A seat appeared.
    SeatCreated(u32),
    /// A seat disappeared.
    SeatRemoved(u32),
    /// The user interacted with a window.
    WindowInteracted(u32),
    /// The layer shell reported an output's workarea.
    Workarea {
        /// The output whose layer-shell object reported it.
        output: u32,
        /// Horizontal position.
        x: i32,
        /// Vertical position.
        y: i32,
        /// Width.
        width: i32,
        /// Height.
        height: i32,
    },
    /// Exclusive layer focus changed.
    ExclusiveFocus(bool),
    /// A binding was pressed.
    BindingPressed(BackendBindingId),
    /// A binding was released.
    BindingReleased(BackendBindingId),
    /// The compositor stopped repeating a binding.
    BindingRepeatStopped(BackendBindingId),
    /// An otherwise-unbound key was consumed.
    UnboundKeyEaten,
    /// Watched modifier state changed, as raw modifier masks.
    ModifiersChanged {
        /// Previous mask.
        old: u32,
        /// New mask.
        new: u32,
    },
}

/// One protocol request the caller must send.
#[derive(Debug, Clone, Copy, PartialEq, Eq, Structural)]
pub enum ObjectRequest {
    /// Create the node of a window.
    GetNode(u32),
    /// Destroy the node of a window.
    DestroyNode(u32),
    /// Destroy an object.
    Destroy(u32),
    /// Create the layer-shell object of an output.
    GetLayerOutput(u32),
    /// Destroy the layer-shell object of an output.
    DestroyLayerOutput(u32),
    /// Create the layer-shell object of a seat.
    GetLayerSeat(u32),
    /// Create the key-binding object of a seat.
    GetXkbSeat(u32),
    /// Create a binding object on a seat.
    GetXkbBinding {
        /// The seat.
        seat: u32,
        /// The binding mechanism.
        binding: BackendBindingId,
        /// Its keysym.
        keysym: u32,
        /// Its modifier mask.
        modifiers: u32,
    },
    /// Destroy the layer-shell object of the selected seat.
    DestroyLayerSeat,
    /// Destroy the key-binding object of the selected seat.
    DestroyXkbSeat,
    /// Destroy a binding object.
    DestroyBinding(BackendBindingId),
    /// Make an output the compositor's default.
    SetDefaultOutput(u32),
    /// Tell a window it is tiled on every edge.
    SetTiled(u32),
    /// Offer a window the fullscreen capability.
    SetCapabilities(u32),
    /// Make a window fullscreen on an output.
    Fullscreen {
        /// The window.
        window: u32,
        /// The output.
        output: u32,
    },
    /// Tell a window it is fullscreen.
    InformFullscreen(u32),
    /// Leave fullscreen.
    ExitFullscreen(u32),
    /// Tell a window it is not fullscreen.
    InformNotFullscreen(u32),
    /// Propose a window size.
    ProposeDimensions {
        /// The window.
        window: u32,
        /// Width.
        width: i32,
        /// Height.
        height: i32,
    },
    /// Focus a window on a seat.
    FocusWindow {
        /// The seat.
        seat: u32,
        /// The window.
        window: u32,
    },
    /// Clear a seat's focus.
    ClearFocus(u32),
    /// Enable a binding object.
    EnableBinding(BackendBindingId),
    /// Disable a binding object.
    DisableBinding(BackendBindingId),
    /// Watch a modifier mask on the selected seat.
    ModifiersWatch(u32),
    /// Eat the next otherwise-unbound key.
    EnsureNextKeyEaten,
    /// Stop eating the next otherwise-unbound key.
    CancelEnsureNextKeyEaten,
    /// Ask a window to close.
    Close(u32),
    /// Finish the compositor's manage phase.
    ManageFinish,
    /// Hide a window.
    Hide(u32),
    /// Show a window.
    Show(u32),
    /// Move a window's node.
    SetPosition {
        /// The window.
        window: u32,
        /// Horizontal position.
        x: i32,
        /// Vertical position.
        y: i32,
    },
    /// Draw a window's one-pixel borders on every edge in a premultiplied colour.
    SetBorders {
        /// The window.
        window: u32,
        /// Red.
        r: u32,
        /// Green.
        g: u32,
        /// Blue.
        b: u32,
        /// Alpha.
        a: u32,
    },
    /// Clip a window's content; an empty box clips nothing.
    SetContentClipBox {
        /// The window.
        window: u32,
        /// Width.
        width: i32,
        /// Height.
        height: i32,
    },
    /// Raise a window's node above the others.
    PlaceTop(u32),
    /// Finish the compositor's render phase.
    RenderFinish,
    /// Ask the compositor for another manage phase.
    ManageDirty,
    /// End the compositor session.
    ExitSession,
}

/// An event's requests and verdict.
#[derive(Debug, PartialEq, Eq)]
pub struct RuntimeOutcome {
    /// The requests to send, in order, even when the event is refused.
    pub requests: Vec<ObjectRequest>,
    /// Whether the event was accepted.
    pub result: Result<(), BackendError>,
}

/// Where a submitted response stands.
#[derive(Debug, Clone, Copy, PartialEq, Eq, Structural)]
pub enum ResponseStage {
    /// Waiting for the compositor's render phase.
    AwaitRender,
    /// Waiting for the manage phase that answers size corrections.
    AwaitCorrectionManage,
    /// The render phase is answered and being flushed.
    FlushingRender,
}

/// A submitted response awaiting the compositor.
#[derive(Debug)]
pub struct PendingResponse {
    /// The operation the response completes.
    pub ticket: BackendTicket,
    /// The response.
    pub response: BackendPolicyResponse,
    /// Where it stands.
    pub stage: ResponseStage,
    /// The failure to report once it completes.
    pub terminal_error: Option<BackendError>,
    /// Size corrections found while rendering it.
    pub corrections: Vec<(u32, ((i32, i32), (i32, i32)))>,
    /// Whether it already asked for corrected sizes.
    pub correction_round: bool,
}

/// Everything the object events read and change.
#[derive(Debug)]
pub struct RiverObjects {
    /// Known windows.
    pub windows: Vec<WindowRecord>,
    /// Window object by stable identity.
    pub window_ids: Vec<(BackendWindowId, u32)>,
    /// Stable identity by assigned Realm window.
    pub realm_ids: Vec<(u64, BackendWindowId)>,
    /// Known outputs.
    pub outputs: Vec<OutputRecord>,
    /// Known seats with their creation order.
    pub seats: Vec<(u32, u64)>,
    /// The output Realm lays out on.
    pub selected_output: Option<u32>,
    /// The output the compositor reported as default.
    pub default_output: Option<u32>,
    /// Whether the selected output went away.
    pub selected_output_lost: bool,
    /// The seat Realm binds keys on.
    pub selected_seat: Option<u32>,
    /// Whether the selected seat's layer-shell object exists.
    pub layer_seat: bool,
    /// Whether the selected seat's key-binding object exists.
    pub xkb_seat: bool,
    /// Configured binding mechanisms, in identity order.
    pub bindings: Vec<BackendBindingSpec>,
    /// Binding objects on the selected seat, with whether each is enabled.
    pub binding_objects: Vec<(BackendBindingId, bool)>,
    /// Ordinal of the last window.
    pub next_window_ordinal: u64,
    /// Ordinal of the last output.
    pub next_output_ordinal: u64,
    /// Ordinal of the last seat.
    pub next_seat_ordinal: u64,
    /// Whether the layer-shell global is bound.
    pub layer_shell: bool,
    /// Whether the key-bindings global is bound.
    pub xkb_bindings: bool,
    /// The submitted response awaiting the compositor.
    pub pending_response: Option<PendingResponse>,
    /// Size corrections deferred to the next response: window, size asked,
    /// size to propose instead.
    pub deferred_corrections: Vec<(u32, ((i32, i32), (i32, i32)))>,
    /// Whether the initial replay is still running.
    pub replay: bool,
    /// Policy facts gathered for the next turn.
    pub policy_events: Vec<PolicyFact>,
    /// The focused Realm window.
    pub focused_window: Option<u64>,
    /// Whether a layer surface holds exclusive focus.
    pub exclusive_focus: bool,
    /// The failure to report once the current response completes.
    pub terminal_after_response: Option<BackendError>,
    /// Whether a protocol flush is owed.
    pub flush_pending: bool,
    /// The last policy turn identity allocated.
    pub next_turn: u64,
    /// The turn awaiting its response.
    pub open_turn: Option<BackendPolicyTurnId>,
    /// The operation whose drain the next turn carries.
    pub drain_ticket: Option<BackendTicket>,
    /// The modifiers the selected seat watches.
    pub watched_modifiers: Vec<BackendModifier>,
    /// Whether a manage phase was asked for and has not started.
    pub turn_requested: bool,
    /// The projection last rendered.
    pub last_projection: Option<Vec<Placement>>,
    /// The connection's standing.
    pub link: Link,
}

/// The connection's standing.
#[derive(Debug, Clone, Copy, PartialEq, Eq, Structural)]
pub struct Link {
    /// Whether the window-manager global is bound.
    pub window_manager: bool,
    /// Whether the connection is established.
    pub connected: bool,
    /// Whether the session exit has begun.
    pub exit_started: bool,
    /// Whether everything sent before the exit has been flushed.
    pub exit_flushed: bool,
}

/// The window objects, in table order.
pub open spec fn window_objects(s: Seq<WindowRecord>) -> Seq<u32> {
    s.map_values(|w: WindowRecord| w.object)
}

/// The slot of window `object`, or -1.
pub open spec fn window_index(s: Seq<WindowRecord>, object: u32) -> int {
    id_index(window_objects(s), object)
}

/// The output objects, in table order.
pub open spec fn output_objects(s: Seq<OutputRecord>) -> Seq<u32> {
    s.map_values(|o: OutputRecord| o.object)
}

/// The window ordinals, in table order.
pub open spec fn window_ordinals(s: Seq<WindowRecord>) -> Seq<u64> {
    s.map_values(|w: WindowRecord| w.ordinal)
}

/// The output ordinals, in table order.
pub open spec fn output_ordinals(s: Seq<OutputRecord>) -> Seq<u64> {
    s.map_values(|o: OutputRecord| o.ordinal)
}

/// The slot of output `object`, or -1.
pub open spec fn output_index(s: Seq<OutputRecord>, object: u32) -> int {
    id_index(output_objects(s), object)
}

/// The identity table keyed by identity text.
pub open spec fn id_views(s: Seq<(BackendWindowId, u32)>) -> Seq<(Seq<char>, u32)> {
    s.map_values(|e: (BackendWindowId, u32)| (e.0@, e.1))
}

/// The policy facts by value.
pub open spec fn facts(s: Seq<PolicyFact>) -> Seq<PolicyFactValue> {
    s.map_values(|f: PolicyFact| f@)
}

/// Whether `w` is the record of a window just announced as `object`.
pub open spec fn fresh_window(w: WindowRecord, object: u32, ordinal: u64) -> bool {
    &&& w.object == object
    &&& w.ordinal == ordinal
    &&& w.backend_id is None
    &&& w.app_id@.len() == 0
    &&& w.title@.len() == 0
    &&& w.pending_open
    &&& w.assigned is None
    &&& w.dimensions is None
    &&& w.proposed_size is None
    &&& !w.awaiting_dimensions
    &&& w.position is None
    &&& w.focused is None
    &&& w.hidden is None
    &&& !w.fullscreen
    &&& !w.initialized
}

/// Whether `e` is the unavailability failure with `message`.
pub open spec fn unavailable(e: BackendError, message: Seq<char>) -> bool {
    e matches BackendError::Unavailable { message: m } && m@ == message
}

/// The protocol-violation failure.
pub open spec fn spec_protocol_error() -> BackendError {
    BackendError::Protocol { kind: BackendProtocolErrorKind::InvalidFraming }
}

/// Whether an outcome sends `requests` and refuses with `error`.
pub open spec fn refused(o: RuntimeOutcome, requests: Seq<ObjectRequest>, error: BackendError) -> bool {
    o.requests@ == requests && o.result == Err::<(), BackendError>(error)
}

/// Whether an outcome sends `requests` and then passes the capacity check of
/// the facts now gathered.
pub open spec fn checked(o: RuntimeOutcome, requests: Seq<ObjectRequest>, after: RiverObjects) -> bool {
    o.requests@ == requests && o.result == spec_policy_capacity(after.replay, after.policy_events@)
}

/// The slot of window `object`.
pub(crate) fn find_window(s: &Vec<WindowRecord>, object: u32) -> (r: Option<usize>)
    ensures
        match r {
            Some(i) => i < s@.len() && i as int == window_index(s@, object),
            None => window_index(s@, object) == -1,
        },
{
    let ghost ids = window_objects(s@);
    let mut i: usize = 0;
    while i < s.len()
        invariant
            i <= s@.len(),
            ids == window_objects(s@),
            forall|j: int| 0 <= j < i ==> ids[j] != object,
        decreases s.len() - i,
    {
        if s[i].object == object {
            proof {
                lemma_id_index(ids, object, i as int);
            }
            return Some(i);
        }
        i = i + 1;
    }
    proof {
        lemma_id_index(ids, object, i as int);
    }
    None
}

/// The slot of output `object`.
pub(crate) fn find_output(s: &Vec<OutputRecord>, object: u32) -> (r: Option<usize>)
    ensures
        match r {
            Some(i) => i < s@.len() && i as int == output_index(s@, object),
            None => output_index(s@, object) == -1,
        },
{
    let ghost ids = output_objects(s@);
    let mut i: usize = 0;
    while i < s.len()
        invariant
            i <= s@.len(),
            ids == output_objects(s@),
            forall|j: int| 0 <= j < i ==> ids[j] != object,
        decreases s.len() - i,
    {
        if s[i].object == object {
            proof {
                lemma_id_index(ids, object, i as int);
            }
            return Some(i);
        }
        i = i + 1;
    }
    proof {
        lemma_id_index(ids, object, i as int);
    }
    None
}

/// The slot of the window holding identity `id`.
pub(crate) fn find_window_id(s: &Vec<(BackendWindowId, u32)>, id: &BackendWindowId) -> (r: Option<usize>)
    ensures
        match r {
            Some(i) => i < s@.len() && i as int == key_index(id_views(s@), id@),
            None => key_index(id_views(s@), id@) == -1,
        },
{
    let ghost p = id_views(s@);
    let mut i: usize = 0;
    while i < s.len()
        invariant
            i <= s@.len(),
            p == id_views(s@),
            forall|j: int| 0 <= j < i ==> p[j].0 != id@,
        decreases s.len() - i,
    {
        if str_equal(s[i].0.as_str(), id.as_str()) {
            proof {
                lemma_key_index(p, id@, i as int);
            }
            return Some(i);
        }
        i = i + 1;
    }
    proof {
        lemma_key_index(p, id@, i as int);
    }
    None
}

/// The slot of Realm window `win`.
pub(crate) fn find_realm(s: &Vec<(u64, BackendWindowId)>, win: u64) -> (r: Option<usize>)
    ensures
        match r {
            Some(i) => i < s@.len() && i as int == key_index(s@, win),
            None => key_index(s@, win) == -1,
        },
{
    let mut i: usize = 0;
    while i < s.len()
        invariant
            i <= s@.len(),
            forall|j: int| 0 <= j < i ==> s@[j].0 != win,
        decreases s.len() - i,
    {
        if s[i].0 == win {
            proof {
                lemma_key_index(s@, win, i as int);
            }
            return Some(i);
        }
        i = i + 1;
    }
    proof {
        lemma_key_index(s@, win, i as int);
    }
    None
}

/// The slot of seat `object`.
pub(crate) fn find_seat(s: &Vec<(u32, u64)>, object: u32) -> (r: Option<usize>)
    ensures
        match r {
            Some(i) => i < s@.len() && i as int == key_index(s@, object),
            None => key_index(s@, object) == -1,
        },
{
    let mut i: usize = 0;
    while i < s.len()
        invariant
            i <= s@.len(),
            forall|j: int| 0 <= j < i ==> s@[j].0 != object,
        decreases s.len() - i,
    {
        if s[i].0 == object {
            proof {
                lemma_key_index(s@, object, i as int);
            }
            return Some(i);
        }
        i = i + 1;
    }
    proof {
        lemma_key_index(s@, object, i as int);
    }
    None
}

/// The slot of binding object `id`.
pub(crate) fn find_binding_object(s: &Vec<(BackendBindingId, bool)>, id: BackendBindingId) -> (r: Option<usize>)
    ensures
        match r {
            Some(i) => i < s@.len() && i as int == key_index(s@, id),
            None => key_index(s@, id) == -1,
        },
{
    let mut i: usize = 0;
    while i < s.len()
        invariant
            i <= s@.len(),
            forall|j: int| 0 <= j < i ==> s@[j].0 != id,
        decreases s.len() - i,
    {
        if s[i].0 == id {
            proof {
                lemma_key_index(s@, id, i as int);
            }
            return Some(i);
        }
        i = i + 1;
    }
    proof {
        lemma_key_index(s@, id, i as int);
    }
    None
}

/// What announcing window `object` does.
pub open spec fn spec_window_created(old: RiverObjects, new: RiverObjects, o: RuntimeOutcome, object: u32) -> bool {
    if old.windows@.len() == MAX_MANAGED_WINDOWS {
        refused(
            o,
            seq![ObjectRequest::Destroy(object)],
            BackendError::Capacity { resource: BackendCapacityResource::ManagedWindows, limit: MAX_MANAGED_WINDOWS as u64 },
        ) && new == old
    } else if old.next_window_ordinal == u64::MAX {
        refused(
            o,
            seq![],
            BackendError::Capacity { resource: BackendCapacityResource::ObjectOrdinals, limit: u64::MAX },
        ) && new == old
    } else {
        let i = window_index(old.windows@, object);
        let ordinal = (old.next_window_ordinal + 1) as u64;
        let kept = if i >= 0 { old.windows@.remove(i) } else { old.windows@ };
        &&& checked(o, seq![ObjectRequest::GetNode(object)], new)
        &&& new == (RiverObjects { windows: new.windows, next_window_ordinal: ordinal, flush_pending: true, ..old })
        &&& new.windows@ == kept.push(new.windows@.last())
        &&& fresh_window(new.windows@.last(), object, ordinal)
    }
}

/// What a window's identity report does.
pub open spec fn spec_window_identified(
    old: RiverObjects,
    new: RiverObjects,
    o: RuntimeOutcome,
    window: u32,
    identifier: Seq<char>,
) -> bool {
    let i = window_index(old.windows@, window);
    if !valid_backend_window_id(identifier) || key_index(id_views(old.window_ids@), identifier) >= 0 || i < 0 {
        refused(o, seq![], spec_protocol_error()) && new == old
    } else {
        &&& checked(o, seq![], new)
        &&& new == (RiverObjects { windows: new.windows, window_ids: new.window_ids, ..old })
        &&& new.windows@[i].backend_id matches Some(b)
        &&& b@ == identifier
        &&& new.windows@ == old.windows@.update(i, WindowRecord { backend_id: Some(b), ..old.windows@[i] })
        &&& new.window_ids@ == old.window_ids@.push((b, window))
    }
}

/// What a window's application identifier report does.
pub open spec fn spec_window_app_id(old: RiverObjects, new: RiverObjects, o: RuntimeOutcome, window: u32, app_id: String) -> bool {
    let i = window_index(old.windows@, window);
    if i < 0 {
        refused(o, seq![], spec_protocol_error()) && new == old
    } else {
        &&& checked(o, seq![], new)
        &&& new == (RiverObjects { windows: new.windows, ..old })
        &&& new.windows@ == old.windows@.update(i, WindowRecord { app_id, ..old.windows@[i] })
    }
}

/// What a window's title report does: an opened window reports the change.
pub open spec fn spec_window_title(old: RiverObjects, new: RiverObjects, o: RuntimeOutcome, window: u32, title: String) -> bool {
    let i = window_index(old.windows@, window);
    if i < 0 {
        refused(o, seq![], spec_protocol_error()) && new == old
    } else {
        let w = old.windows@[i];
        &&& new.windows@ == old.windows@.update(i, WindowRecord { title, ..w })
        &&& if w.pending_open {
            checked(o, seq![], new) && new == (RiverObjects { windows: new.windows, ..old })
        } else if w.backend_id is None {
            refused(o, seq![], spec_protocol_error()) && new == (RiverObjects { windows: new.windows, ..old })
        } else {
            &&& checked(o, seq![], new)
            &&& new == (RiverObjects { windows: new.windows, policy_events: new.policy_events, ..old })
            &&& new.policy_events@ == old.policy_events@.push(
                PolicyFact::TitleChanged { backend_id: w.backend_id->0, title },
            )
        }
    }
}

/// Whether a size report for an opened, settled window is a drift to report.
pub open spec fn drifts(old: RiverObjects, w: WindowRecord, width: i32, height: i32) -> bool {
    drifts_when(w, width, height, old.pending_response is None)
}

/// Whether a size report is a drift to report when no response is pending
/// exactly when `idle` holds.
pub open spec fn drifts_when(w: WindowRecord, width: i32, height: i32, idle: bool) -> bool {
    &&& w.dimensions != Some((width, height))
    &&& !w.awaiting_dimensions
    &&& !w.fullscreen
    &&& idle
    &&& !w.pending_open
    &&& w.backend_id is Some
    &&& w.position is Some
}

/// What a window's size report does.
pub open spec fn spec_window_dimensions(
    old: RiverObjects,
    new: RiverObjects,
    o: RuntimeOutcome,
    window: u32,
    width: i32,
    height: i32,
) -> bool {
    let i = window_index(old.windows@, window);
    if width <= 0 || height <= 0 || i < 0 {
        refused(o, seq![], spec_protocol_error()) && new == old
    } else {
        let w = old.windows@[i];
        let drift = drifts(old, w, width, height);
        &&& checked(o, seq![], new)
        &&& new == (RiverObjects { windows: new.windows, policy_events: new.policy_events, ..old })
        &&& new.windows@ == old.windows@.update(
            i,
            WindowRecord {
                awaiting_dimensions: false,
                dimensions: Some((width, height)),
                proposed_size: if drift { None } else { w.proposed_size },
                ..w
            },
        )
        &&& new.policy_events@ == (if drift {
            old.policy_events@.push(PolicyFact::GeometryDrifted { backend_id: w.backend_id->0 })
        } else {
            old.policy_events@
        })
    }
}

/// What a window's closing does: its node and object are destroyed, its
/// identities are forgotten, and an opened window reports the closing.
pub open spec fn spec_window_closed(old: RiverObjects, new: RiverObjects, o: RuntimeOutcome, window: u32) -> bool {
    let i = window_index(old.windows@, window);
    if i < 0 {
        refused(o, seq![], spec_protocol_error()) && new == old
    } else {
        let w = old.windows@[i];
        &&& checked(o, seq![ObjectRequest::DestroyNode(window), ObjectRequest::Destroy(window)], new)
        &&& new == (RiverObjects {
            windows: new.windows,
            window_ids: new.window_ids,
            realm_ids: new.realm_ids,
            focused_window: new.focused_window,
            policy_events: new.policy_events,
            flush_pending: true,
            ..old
        })
        &&& new.windows@ == old.windows@.remove(i)
        &&& match w.backend_id {
            None => {
                &&& new.window_ids@ == old.window_ids@
                &&& new.realm_ids@ == old.realm_ids@
                &&& new.focused_window == old.focused_window
                &&& new.policy_events@ == old.policy_events@
            },
            Some(b) => {
                &&& id_views(new.window_ids@) == keyed_remove(id_views(old.window_ids@), b@)
                &&& new.realm_ids@ == (match w.assigned {
                    Some(win) => keyed_remove(old.realm_ids@, win),
                    None => old.realm_ids@,
                })
                &&& new.focused_window == (if w.assigned is Some && old.focused_window == w.assigned {
                    None
                } else {
                    old.focused_window
                })
                &&& new.policy_events@ == (if w.pending_open {
                    old.policy_events@
                } else {
                    old.policy_events@.push(PolicyFact::WindowClosed(b))
                })
            },
        }
    }
}

/// What a user interaction with a window does.
pub open spec fn spec_window_interacted(old: RiverObjects, new: RiverObjects, o: RuntimeOutcome, window: u32) -> bool {
    let i = window_index(old.windows@, window);
    if i < 0 || old.windows@[i].backend_id is None {
        refused(o, seq![], spec_protocol_error()) && new == old
    } else {
        &&& checked(o, seq![], new)
        &&& new == (RiverObjects { policy_events: new.policy_events, ..old })
        &&& new.policy_events@ == old.policy_events@.push(PolicyFact::FocusChanged(old.windows@[i].backend_id))
    }
}

/// What announcing output `object` does: its layer-shell object is created.
pub open spec fn spec_output_created(old: RiverObjects, new: RiverObjects, o: RuntimeOutcome, object: u32) -> bool {
    if old.outputs@.len() == MAX_BACKEND_OUTPUTS {
        refused(
            o,
            seq![ObjectRequest::Destroy(object)],
            BackendError::Capacity { resource: BackendCapacityResource::Outputs, limit: MAX_BACKEND_OUTPUTS as u64 },
        ) && new == old
    } else if old.next_output_ordinal == u64::MAX {
        refused(
            o,
            seq![],
            BackendError::Capacity { resource: BackendCapacityResource::ObjectOrdinals, limit: u64::MAX },
        ) && new == old
    } else {
        let ordinal = (old.next_output_ordinal + 1) as u64;
        let i = output_index(old.outputs@, object);
        let record = OutputRecord { object, ordinal, position: None, dimensions: None, workarea: None };
        if !old.layer_shell {
            refused(o, seq![], spec_protocol_error()) && new == (RiverObjects { next_output_ordinal: ordinal, ..old })
        } else {
            &&& checked(o, seq![ObjectRequest::GetLayerOutput(object)], new)
            &&& new == (RiverObjects { outputs: new.outputs, next_output_ordinal: ordinal, flush_pending: true, ..old })
            &&& new.outputs@ == (if i >= 0 { old.outputs@.remove(i) } else { old.outputs@ }).push(record)
        }
    }
}

/// What an output's position report does.
pub open spec fn spec_output_position(old: RiverObjects, new: RiverObjects, o: RuntimeOutcome, output: u32, x: i32, y: i32) -> bool {
    let i = output_index(old.outputs@, output);
    if i < 0 {
        refused(o, seq![], spec_protocol_error()) && new == old
    } else {
        &&& checked(o, seq![], new)
        &&& new == (RiverObjects { outputs: new.outputs, ..old })
        &&& new.outputs@ == old.outputs@.update(i, OutputRecord { position: Some((x, y)), ..old.outputs@[i] })
    }
}

/// What an output's size report does.
pub open spec fn spec_output_dimensions(
    old: RiverObjects,
    new: RiverObjects,
    o: RuntimeOutcome,
    output: u32,
    width: i32,
    height: i32,
) -> bool {
    let i = output_index(old.outputs@, output);
    if width <= 0 || height <= 0 || i < 0 {
        refused(o, seq![], spec_protocol_error()) && new == old
    } else {
        &&& checked(o, seq![], new)
        &&& new == (RiverObjects { outputs: new.outputs, ..old })
        &&& new.outputs@ == old.outputs@.update(i, OutputRecord { dimensions: Some((width, height)), ..old.outputs@[i] })
    }
}

/// A window after its output went away: fullscreen placement is dropped.
pub open spec fn unfullscreen(w: WindowRecord) -> WindowRecord {
    if w.fullscreen {
        WindowRecord { fullscreen: false, proposed_size: None, awaiting_dimensions: false, position: None, ..w }
    } else {
        w
    }
}

/// What an output's removal does: losing the selected output drops every
/// fullscreen placement.
pub open spec fn spec_output_removed(old: RiverObjects, new: RiverObjects, o: RuntimeOutcome, output: u32) -> bool {
    let i = output_index(old.outputs@, output);
    if i < 0 {
        refused(o, seq![], spec_protocol_error()) && new == old
    } else {
        let selected = old.selected_output == Some(output);
        &&& checked(o, seq![ObjectRequest::DestroyLayerOutput(output), ObjectRequest::Destroy(output)], new)
        &&& new == (RiverObjects {
            outputs: new.outputs,
            windows: new.windows,
            selected_output: if selected { None } else { old.selected_output },
            default_output: if selected { None } else { old.default_output },
            selected_output_lost: selected || old.selected_output_lost,
            flush_pending: true,
            ..old
        })
        &&& new.outputs@ == old.outputs@.remove(i)
        &&& new.windows@ == (if selected {
            old.windows@.map_values(|w: WindowRecord| unfullscreen(w))
        } else {
            old.windows@
        })
    }
}

/// The workarea fact for an output whose position, dimensions and workarea
/// are known: its full rectangle and the rectangle left for tiles.
pub open spec fn workarea_fact(r: OutputRecord) -> PolicyFact {
    PolicyFact::WorkareaChanged {
        output: ((r.position->0).0, (r.position->0).1, (r.dimensions->0).0, (r.dimensions->0).1),
        tiles: r.workarea->0,
    }
}

/// What a workarea report does: the selected output's workarea is reported
/// with the output's full rectangle, which must be known.
pub open spec fn spec_workarea(
    old: RiverObjects,
    new: RiverObjects,
    o: RuntimeOutcome,
    output: u32,
    area: (i32, i32, i32, i32),
) -> bool {
    let i = output_index(old.outputs@, output);
    if i < 0 {
        refused(o, seq![], spec_protocol_error()) && new == old
    } else {
        let r = old.outputs@[i];
        &&& new.outputs@ == old.outputs@.update(i, OutputRecord { workarea: Some(area), ..r })
        &&& if old.selected_output != Some(output) {
            checked(o, seq![], new) && new == (RiverObjects { outputs: new.outputs, ..old })
        } else if r.position is None || r.dimensions is None {
            refused(o, seq![], spec_protocol_error()) && new == (RiverObjects { outputs: new.outputs, ..old })
        } else {
            &&& checked(o, seq![], new)
            &&& new == (RiverObjects { outputs: new.outputs, policy_events: new.policy_events, ..old })
            &&& new.policy_events@ == old.policy_events@.push(workarea_fact(new.outputs@[i]))
        }
    }
}

/// What an exclusive-focus change does.
pub open spec fn spec_exclusive_focus(old: RiverObjects, new: RiverObjects, o: RuntimeOutcome, exclusive: bool) -> bool {
    &&& checked(o, seq![], new)
    &&& new == (RiverObjects {
        exclusive_focus: exclusive,
        focused_window: if exclusive { None } else { old.focused_window },
        policy_events: new.policy_events,
        ..old
    })
    &&& new.policy_events@ == old.policy_events@.push(PolicyFact::ExclusiveFocusChanged(exclusive))
}

/// What a fact about binding `id` does: it is reported when the binding
/// object exists.
pub open spec fn spec_binding_fact(
    old: RiverObjects,
    new: RiverObjects,
    o: RuntimeOutcome,
    id: BackendBindingId,
    fact: PolicyFact,
) -> bool {
    if key_index(old.binding_objects@, id) < 0 {
        refused(o, seq![], spec_protocol_error()) && new == old
    } else {
        &&& checked(o, seq![], new)
        &&& new == (RiverObjects { policy_events: new.policy_events, ..old })
        &&& new.policy_events@ == old.policy_events@.push(fact)
    }
}

/// What an unconditional fact does.
pub open spec fn spec_reported(old: RiverObjects, new: RiverObjects, o: RuntimeOutcome, fact: PolicyFact) -> bool {
    &&& checked(o, seq![], new)
    &&& new == (RiverObjects { policy_events: new.policy_events, ..old })
    &&& new.policy_events@ == old.policy_events@.push(fact)
}

/// Whether a raw modifier mask holds a bit Realm does not watch.
pub open spec fn unwatched_bits(bits: u32) -> bool {
    bits & !(1u32 | 4u32 | 8u32 | 64u32) != 0
}

/// What a modifier change does: both masks must name watched modifiers only.
pub open spec fn spec_modifiers_changed(old: RiverObjects, new: RiverObjects, o: RuntimeOutcome, before: u32, after: u32) -> bool {
    if unwatched_bits(before) || unwatched_bits(after) {
        refused(o, seq![], spec_protocol_error()) && new == old
    } else {
        &&& checked(o, seq![], new)
        &&& new == (RiverObjects { policy_events: new.policy_events, ..old })
        &&& new.policy_events@.len() == old.policy_events@.len() + 1
        &&& new.policy_events@.drop_last() == old.policy_events@
        &&& new.policy_events@.last()@ == (PolicyFactValue::ModifiersChanged {
            old: decoded_modifiers(before),
            new: decoded_modifiers(after),
        })
    }
}

/// The keysym of a binding whose keysym name is known.
pub open spec fn binding_keysym(b: BackendBindingSpec) -> u32 {
    match spec_keysym(b.keysym@) {
        Some(k) => k,
        None => 0,
    }
}

/// The request creating binding `b` on `seat`.
pub open spec fn binding_request(seat: u32, b: BackendBindingSpec) -> ObjectRequest {
    ObjectRequest::GetXkbBinding {
        seat,
        binding: b.id,
        keysym: binding_keysym(b),
        modifiers: modifier_mask(b.modifiers@),
    }
}

/// The requests creating bindings `bs` on `seat`, in order.
pub open spec fn binding_requests(seat: u32, bs: Seq<BackendBindingSpec>) -> Seq<ObjectRequest> {
    bs.map_values(|b: BackendBindingSpec| binding_request(seat, b))
}

/// The binding objects after creating `bs`, each disabled.
pub open spec fn inserted_bindings(
    objects: Seq<(BackendBindingId, bool)>,
    bs: Seq<BackendBindingSpec>,
) -> Seq<(BackendBindingId, bool)>
    decreases bs.len(),
{
    if bs.len() == 0 {
        objects
    } else {
        keyed_insert(inserted_bindings(objects, bs.drop_last()), bs.last().id, false)
    }
}

/// The index of the first binding whose keysym name is unknown, or the
/// number of bindings.
pub open spec fn first_unknown_keysym(bs: Seq<BackendBindingSpec>) -> int
    decreases bs.len(),
{
    if bs.len() == 0 {
        0
    } else if spec_keysym(bs[0].keysym@) is None {
        0
    } else {
        1 + first_unknown_keysym(bs.drop_first())
    }
}

/// `first_unknown_keysym` is the first binding with an unknown keysym name.
pub proof fn lemma_first_unknown_keysym(bs: Seq<BackendBindingSpec>)
    ensures
        0 <= first_unknown_keysym(bs) <= bs.len(),
        forall|j: int| 0 <= j < first_unknown_keysym(bs) ==> spec_keysym(#[trigger] bs[j].keysym@) is Some,
        first_unknown_keysym(bs) < bs.len() ==> spec_keysym(bs[first_unknown_keysym(bs)].keysym@) is None,
    decreases bs.len(),
{
    if bs.len() > 0 && spec_keysym(bs[0].keysym@) is Some {
        let t = bs.drop_first();
        lemma_first_unknown_keysym(t);
        assert forall|j: int| 0 <= j < first_unknown_keysym(bs) implies spec_keysym(#[trigger] bs[j].keysym@) is Some by {
            if j > 0 {
                assert(bs[j] == t[j - 1]);
            }
        }
        if first_unknown_keysym(bs) < bs.len() {
            assert(bs[first_unknown_keysym(bs)] == t[first_unknown_keysym(t)]);
        }
    }
}

/// What announcing seat `object` does: the first seat is selected and gets
/// its layer-shell object, its key-binding object and one binding object per
/// configured binding.
pub open spec fn spec_seat_created(old: RiverObjects, new: RiverObjects, o: RuntimeOutcome, object: u32) -> bool {
    if old.seats@.len() == MAX_BACKEND_SEATS {
        refused(
            o,
            seq![ObjectRequest::Destroy(object)],
            BackendError::Capacity { resource: BackendCapacityResource::Seats, limit: MAX_BACKEND_SEATS as u64 },
        ) && new == old
    } else if old.next_seat_ordinal == u64::MAX {
        refused(
            o,
            seq![],
            BackendError::Capacity { resource: BackendCapacityResource::ObjectOrdinals, limit: u64::MAX },
        ) && new == old
    } else {
        let ordinal = (old.next_seat_ordinal + 1) as u64;
        if old.selected_seat is Some {
            &&& checked(o, seq![], new)
            &&& new == (RiverObjects { seats: new.seats, next_seat_ordinal: ordinal, ..old })
            &&& new.seats@ == keyed_insert(old.seats@, object, ordinal)
        } else if !old.layer_shell {
            refused(o, seq![], spec_protocol_error())
                && new == (RiverObjects { selected_seat: Some(object), next_seat_ordinal: ordinal, ..old })
        } else if !old.xkb_bindings {
            refused(o, seq![ObjectRequest::GetLayerSeat(object)], spec_protocol_error())
                && new == (RiverObjects { selected_seat: Some(object), next_seat_ordinal: ordinal, ..old })
        } else {
            let k = first_unknown_keysym(old.bindings@);
            let made = old.bindings@.take(k);
            let requests = seq![ObjectRequest::GetLayerSeat(object), ObjectRequest::GetXkbSeat(object)]
                + binding_requests(object, made);
            &&& new.binding_objects@ == inserted_bindings(old.binding_objects@, made)
            &&& if k < old.bindings@.len() {
                refused(o, requests, spec_protocol_error()) && new == (RiverObjects {
                    selected_seat: Some(object),
                    next_seat_ordinal: ordinal,
                    binding_objects: new.binding_objects,
                    ..old
                })
            } else {
                &&& checked(o, requests, new)
                &&& new == (RiverObjects {
                    seats: new.seats,
                    selected_seat: Some(object),
                    next_seat_ordinal: ordinal,
                    binding_objects: new.binding_objects,
                    layer_seat: true,
                    xkb_seat: true,
                    flush_pending: true,
                    ..old
                })
                &&& new.seats@ == keyed_insert(old.seats@, object, ordinal)
            }
        }
    }
}

/// The requests tearing down the selected seat's objects.
pub open spec fn seat_teardown(old: RiverObjects) -> Seq<ObjectRequest> {
    (if old.layer_seat { seq![ObjectRequest::DestroyLayerSeat] } else { seq![] })
        + (if old.xkb_seat { seq![ObjectRequest::DestroyXkbSeat] } else { seq![] })
        + old.binding_objects@.map_values(|b: (BackendBindingId, bool)| ObjectRequest::DestroyBinding(b.0))
}

/// What a seat's removal does: losing the selected seat tears down its
/// objects and makes the backend fail once the current response completes.
pub open spec fn spec_seat_removed(old: RiverObjects, new: RiverObjects, o: RuntimeOutcome, object: u32) -> bool {
    let i = key_index(old.seats@, object);
    if i < 0 {
        refused(o, seq![], spec_protocol_error()) && new == old
    } else if old.selected_seat != Some(object) {
        &&& checked(o, seq![ObjectRequest::Destroy(object)], new)
        &&& new == (RiverObjects { seats: new.seats, flush_pending: true, ..old })
        &&& new.seats@ == old.seats@.remove(i)
    } else {
        &&& checked(o, seat_teardown(old).push(ObjectRequest::Destroy(object)), new)
        &&& new == (RiverObjects {
            seats: new.seats,
            selected_seat: None,
            layer_seat: false,
            xkb_seat: false,
            binding_objects: new.binding_objects,
            terminal_after_response: new.terminal_after_response,
            flush_pending: true,
            ..old
        })
        &&& new.seats@ == old.seats@.remove(i)
        &&& new.binding_objects@.len() == 0
        &&& new.terminal_after_response matches Some(e) && unavailable(e, "selected River seat was removed"@)
    }
}

/// Create one binding object per binding, in order, stopping at the first
/// unknown keysym name; true when every binding was created.
fn bind_seat(
    seat: u32,
    bindings: &Vec<BackendBindingSpec>,
    objects: &mut Vec<(BackendBindingId, bool)>,
    requests: &mut Vec<ObjectRequest>,
) -> (all: bool)
    ensures
        final(requests)@ == old(requests)@ + binding_requests(seat, bindings@.take(first_unknown_keysym(bindings@))),
        final(objects)@ == inserted_bindings(old(objects)@, bindings@.take(first_unknown_keysym(bindings@))),
        all == (first_unknown_keysym(bindings@) == bindings@.len()),
        0 <= first_unknown_keysym(bindings@) <= bindings@.len(),
{
    proof {
        lemma_first_unknown_keysym(bindings@);
    }
    let ghost k = first_unknown_keysym(bindings@);
    let ghost r0 = requests@;
    let ghost o0 = objects@;
    let mut j: usize = 0;
    while j < bindings.len()
        invariant
            0 <= k <= bindings@.len(),
            k == first_unknown_keysym(bindings@),
            forall|x: int| 0 <= x < k ==> spec_keysym(#[trigger] bindings@[x].keysym@) is Some,
            k < bindings@.len() ==> spec_keysym(bindings@[k].keysym@) is None,
            j <= k,
            r0 == old(requests)@,
            o0 == old(objects)@,
            requests@ == r0 + binding_requests(seat, bindings@.take(j as int)),
            objects@ == inserted_bindings(o0, bindings@.take(j as int)),
        decreases bindings@.len() - j,
    {
        let b = &bindings[j];
        let code = match keysym(b.keysym.as_str()) {
            Some(code) => code,
            None => {
                proof {
                    if (j as int) < k {
                        assert(spec_keysym(bindings@[j as int].keysym@) is Some);
                    }
                    assert(j as int == k);
                }
                return false;
            },
        };
        let bits = modifiers_bits(b.modifiers.as_slice());
        requests.push(ObjectRequest::GetXkbBinding { seat, binding: b.id, keysym: code, modifiers: bits });
        match find_binding_object(objects, b.id) {
            Some(x) => {
                objects.set(x, (b.id, false));
            },
            None => {
                objects.push((b.id, false));
            },
        }
        proof {
            let t = bindings@.take(j as int + 1);
            assert(t.drop_last() =~= bindings@.take(j as int));
            assert(binding_requests(seat, t) =~= binding_requests(seat, bindings@.take(j as int)).push(
                binding_request(seat, bindings@[j as int]),
            ));
        }
        j = j + 1;
    }
    true
}

/// The requests destroying every binding object, in order.
fn destroy_bindings(objects: &Vec<(BackendBindingId, bool)>, requests: &mut Vec<ObjectRequest>)
    ensures
        final(requests)@ == old(requests)@ + objects@.map_values(|b: (BackendBindingId, bool)| ObjectRequest::DestroyBinding(b.0)),
{
    let ghost r0 = requests@;
    let mut j: usize = 0;
    while j < objects.len()
        invariant
            j <= objects@.len(),
            requests@ == r0 + objects@.take(j as int).map_values(|b: (BackendBindingId, bool)| ObjectRequest::DestroyBinding(b.0)),
        decreases objects@.len() - j,
    {
        requests.push(ObjectRequest::DestroyBinding(objects[j].0));
        proof {
            assert(objects@.take(j as int + 1).map_values(|b: (BackendBindingId, bool)| ObjectRequest::DestroyBinding(b.0))
                =~= objects@.take(j as int).map_values(|b: (BackendBindingId, bool)| ObjectRequest::DestroyBinding(b.0)).push(
                ObjectRequest::DestroyBinding(objects@[j as int].0),
            ));
        }
        j = j + 1;
    }
    proof {
        assert(objects@.take(objects@.len() as int) =~= objects@);
    }
}

/// A window after a size report, reporting drift as a fact.
fn resized(w: WindowRecord, width: i32, height: i32, idle: bool, facts: &mut Vec<PolicyFact>) -> (r: WindowRecord)
    ensures
        ({
            let drift = drifts_when(w, width, height, idle);
            &&& r == (WindowRecord {
                awaiting_dimensions: false,
                dimensions: Some((width, height)),
                proposed_size: if drift { None } else { w.proposed_size },
                ..w
            })
            &&& final(facts)@ == (if drift {
                old(facts)@.push(PolicyFact::GeometryDrifted { backend_id: w.backend_id->0 })
            } else {
                old(facts)@
            })
        }),
{
    let mut w = w;
    let changed = match w.dimensions {
        Some((a, b)) => a != width || b != height,
        None => true,
    };
    let was_awaiting = w.awaiting_dimensions;
    w.awaiting_dimensions = false;
    w.dimensions = Some((width, height));
    if changed && !was_awaiting && !w.fullscreen && idle && !w.pending_open {
        if w.position.is_some() {
            match &w.backend_id {
                Some(b) => {
                    facts.push(PolicyFact::GeometryDrifted { backend_id: b.clone() });
                    w.proposed_size = None;
                },
                None => {},
            }
        }
    }
    w
}

/// Forget a closed window's identities and report an opened window's
/// closing.
fn forget_window(
    w: WindowRecord,
    window_ids: &mut Vec<(BackendWindowId, u32)>,
    realm_ids: &mut Vec<(u64, BackendWindowId)>,
    focused: &mut Option<u64>,
    facts: &mut Vec<PolicyFact>,
)
    ensures
        match w.backend_id {
            None => {
                &&& final(window_ids)@ == old(window_ids)@
                &&& final(realm_ids)@ == old(realm_ids)@
                &&& *final(focused) == *old(focused)
                &&& final(facts)@ == old(facts)@
            },
            Some(b) => {
                &&& id_views(final(window_ids)@) == keyed_remove(id_views(old(window_ids)@), b@)
                &&& final(realm_ids)@ == (match w.assigned {
                    Some(win) => keyed_remove(old(realm_ids)@, win),
                    None => old(realm_ids)@,
                })
                &&& *final(focused) == (if w.assigned is Some && *old(focused) == w.assigned {
                    None
                } else {
                    *old(focused)
                })
                &&& final(facts)@ == (if w.pending_open {
                    old(facts)@
                } else {
                    old(facts)@.push(PolicyFact::WindowClosed(b))
                })
            },
        },
{
    let ghost before_ids = window_ids@;
    if let Some(backend_id) = w.backend_id {
        if let Some(k) = find_window_id(window_ids, &backend_id) {
            window_ids.remove(k);
            proof {
                assert(id_views(window_ids@) =~= id_views(before_ids).remove(k as int));
            }
        }
        if let Some(win) = w.assigned {
            if let Some(k) = find_realm(realm_ids, win) {
                realm_ids.remove(k);
            }
            match *focused {
                Some(f) => {
                    if f == win {
                        *focused = None;
                    }
                },
                None => {},
            }
        }
        if !w.pending_open {
            facts.push(PolicyFact::WindowClosed(backend_id));
        }
    }
}

/// Drop the fullscreen placement of every window.
fn unfullscreen_all(ws: &mut Vec<WindowRecord>)
    ensures
        final(ws)@ == old(ws)@.map_values(|w: WindowRecord| unfullscreen(w)),
{
    let ghost before = ws@;
    let mut k: usize = 0;
    while k < ws.len()
        invariant
            k <= ws@.len(),
            ws@.len() == before.len(),
            forall|j: int| 0 <= j < k ==> ws@[j] == unfullscreen(before[j]),
            forall|j: int| k <= j < before.len() ==> ws@[j] == before[j],
        decreases ws@.len() - k,
    {
        if ws[k].fullscreen {
            let mut w = ws.remove(k);
            w.fullscreen = false;
            w.proposed_size = None;
            w.awaiting_dimensions = false;
            w.position = None;
            ws.insert(k, w);
        }
        k = k + 1;
    }
    proof {
        assert(ws@ =~= before.map_values(|w: WindowRecord| unfullscreen(w)));
    }
}

/// What one object event does.
pub open spec fn spec_apply(old: RiverObjects, new: RiverObjects, o: RuntimeOutcome, event: RuntimeEvent) -> bool {
    match event {
        RuntimeEvent::ManagerUnavailable => {
            &&& o.requests@.len() == 0
            &&& o.result matches Err(e) && unavailable(e, "another River window manager is active"@)
            &&& new == old
        },
        RuntimeEvent::WindowCreated(w) => spec_window_created(old, new, o, w),
        RuntimeEvent::WindowIdentifier { window, identifier } => spec_window_identified(
            old,
            new,
            o,
            window,
            identifier@,
        ),
        RuntimeEvent::WindowAppId { window, app_id } => spec_window_app_id(old, new, o, window, app_id),
        RuntimeEvent::WindowTitle { window, title } => spec_window_title(old, new, o, window, title),
        RuntimeEvent::WindowDimensions { window, width, height } => spec_window_dimensions(
            old,
            new,
            o,
            window,
            width,
            height,
        ),
        RuntimeEvent::WindowClosed(w) => spec_window_closed(old, new, o, w),
        RuntimeEvent::OutputCreated(x) => spec_output_created(old, new, o, x),
        RuntimeEvent::OutputPosition { output, x, y } => spec_output_position(old, new, o, output, x, y),
        RuntimeEvent::OutputDimensions { output, width, height } => spec_output_dimensions(
            old,
            new,
            o,
            output,
            width,
            height,
        ),
        RuntimeEvent::OutputRemoved(x) => spec_output_removed(old, new, o, x),
        RuntimeEvent::SeatCreated(x) => spec_seat_created(old, new, o, x),
        RuntimeEvent::SeatRemoved(x) => spec_seat_removed(old, new, o, x),
        RuntimeEvent::WindowInteracted(w) => spec_window_interacted(old, new, o, w),
        RuntimeEvent::Workarea { output, x, y, width, height } => spec_workarea(
            old,
            new,
            o,
            output,
            (x, y, width, height),
        ),
        RuntimeEvent::ExclusiveFocus(b) => spec_exclusive_focus(old, new, o, b),
        RuntimeEvent::BindingPressed(id) => spec_binding_fact(
            old,
            new,
            o,
            id,
            PolicyFact::BindingPressed(id),
        ),
        RuntimeEvent::BindingReleased(id) => spec_binding_fact(
            old,
            new,
            o,
            id,
            PolicyFact::BindingReleased(id),
        ),
        RuntimeEvent::BindingRepeatStopped(id) => spec_binding_fact(
            old,
            new,
            o,
            id,
            PolicyFact::BindingRepeatStopped(id),
        ),
        RuntimeEvent::UnboundKeyEaten => spec_reported(old, new, o, PolicyFact::UnboundKeyEaten),
        RuntimeEvent::ModifiersChanged { old: before, new: after } => spec_modifiers_changed(
            old,
            new,
            o,
            before,
            after,
        ),
    }
}

/// Creating bindings keeps binding-object keys unique.
pub proof fn lemma_inserted_bindings_unique(objects: Seq<(BackendBindingId, bool)>, bs: Seq<BackendBindingSpec>)
    requires
        keys_unique(objects),
    ensures
        keys_unique(inserted_bindings(objects, bs)),
    decreases bs.len(),
{
    if bs.len() > 0 {
        lemma_inserted_bindings_unique(objects, bs.drop_last());
        lemma_keyed_insert(inserted_bindings(objects, bs.drop_last()), bs.last().id, false);
    }
}

/// A window record replaced by one with the same object and ordinal keeps
/// the window invariants.
proof fn lemma_wf_window_update(old: RiverObjects, new: RiverObjects, i: int)
    requires
        old.wf(),
        0 <= i < old.windows@.len(),
        new.windows@ == old.windows@.update(i, new.windows@[i]),
        new.windows@[i].object == old.windows@[i].object,
        new.windows@[i].ordinal == old.windows@[i].ordinal,
        new.next_window_ordinal == old.next_window_ordinal,
    ensures
        ids_unique(window_objects(new.windows@)),
        new.windows@.len() <= MAX_MANAGED_WINDOWS,
        increasing(window_ordinals(new.windows@)),
        forall|j: int| 0 <= j < new.windows@.len() ==> new.windows@[j].ordinal <= new.next_window_ordinal,
{
    assert(window_objects(new.windows@) =~= window_objects(old.windows@));
    assert(window_ordinals(new.windows@) =~= window_ordinals(old.windows@));
    assert forall|j: int| 0 <= j < new.windows@.len() implies new.windows@[j].ordinal <= new.next_window_ordinal by {
        assert(new.windows@[j].ordinal == old.windows@[j].ordinal);
    }
}

/// Removing a window record keeps the window invariants.
proof fn lemma_wf_window_remove(old: RiverObjects, new: RiverObjects, i: int)
    requires
        old.wf(),
        0 <= i < old.windows@.len(),
        new.windows@ == old.windows@.remove(i),
        new.next_window_ordinal == old.next_window_ordinal,
    ensures
        ids_unique(window_objects(new.windows@)),
        new.windows@.len() <= MAX_MANAGED_WINDOWS,
        increasing(window_ordinals(new.windows@)),
        forall|j: int| 0 <= j < new.windows@.len() ==> new.windows@[j].ordinal <= new.next_window_ordinal,
{
    assert(window_objects(new.windows@) =~= window_objects(old.windows@).remove(i));
    lemma_ids_remove(window_objects(old.windows@), i);
    assert(window_ordinals(new.windows@) =~= window_ordinals(old.windows@).remove(i));
    lemma_increasing_remove(window_ordinals(old.windows@), i);
    assert forall|j: int| 0 <= j < new.windows@.len() implies new.windows@[j].ordinal <= new.next_window_ordinal by {
        if j >= i {
            assert(new.windows@[j] == old.windows@[j + 1]);
        }
    }
}

/// An output record replaced by one with the same object and ordinal keeps
/// the output invariants.
proof fn lemma_wf_output_update(old: RiverObjects, new: RiverObjects, i: int)
    requires
        old.wf(),
        0 <= i < old.outputs@.len(),
        new.outputs@ == old.outputs@.update(i, new.outputs@[i]),
        new.outputs@[i].object == old.outputs@[i].object,
        new.outputs@[i].ordinal == old.outputs@[i].ordinal,
        new.next_output_ordinal == old.next_output_ordinal,
    ensures
        ids_unique(output_objects(new.outputs@)),
        new.outputs@.len() <= MAX_BACKEND_OUTPUTS,
        increasing(output_ordinals(new.outputs@)),
        forall|j: int| 0 <= j < new.outputs@.len() ==> new.outputs@[j].ordinal <= new.next_output_ordinal,
{
    assert(output_objects(new.outputs@) =~= output_objects(old.outputs@));
    assert(output_ordinals(new.outputs@) =~= output_ordinals(old.outputs@));
    assert forall|j: int| 0 <= j < new.outputs@.len() implies new.outputs@[j].ordinal <= new.next_output_ordinal by {
        assert(new.outputs@[j].ordinal == old.outputs@[j].ordinal);
    }
}

proof fn lemma_wf_window_created(old: RiverObjects, new: RiverObjects, o: RuntimeOutcome, w: u32)
    requires
        old.wf(),
        spec_window_created(old, new, o, w),
    ensures
        new.wf(),
{
    let wo = window_objects(old.windows@);
    lemma_id_index_finds(wo, w);
    let i = window_index(old.windows@, w);
    if old.windows@.len() < MAX_MANAGED_WINDOWS && old.next_window_ordinal < u64::MAX {
        let kept = if i >= 0 { old.windows@.remove(i) } else { old.windows@ };
        let ko = window_objects(kept);
        let kn = window_ordinals(kept);
        if i >= 0 {
            assert(ko =~= wo.remove(i));
            assert(kn =~= window_ordinals(old.windows@).remove(i));
            lemma_ids_remove(wo, i);
            lemma_ids_remove_forgets(wo, i);
            lemma_increasing_remove(window_ordinals(old.windows@), i);
        } else {
            assert(ko =~= wo);
            assert(kn =~= window_ordinals(old.windows@));
        }
        assert(window_objects(new.windows@) =~= ko.push(w));
        lemma_ids_push(ko, w);
        assert(window_ordinals(new.windows@) =~= kn.push(new.next_window_ordinal));
        assert forall|j: int| 0 <= j < kept.len() implies kept[j].ordinal <= old.next_window_ordinal by {
            if i >= 0 && j >= i {
                assert(kept[j] == old.windows@[j + 1]);
            }
        }
        assert(forall|j: int| 0 <= j < new.windows@.len() ==> new.windows@[j].ordinal <= new.next_window_ordinal);
    }
}

proof fn lemma_wf_window_identified(old: RiverObjects, new: RiverObjects, o: RuntimeOutcome, window: u32, identifier: Seq<char>)
    requires
        old.wf(),
        spec_window_identified(old, new, o, window, identifier),
    ensures
        new.wf(),
{
    let i = window_index(old.windows@, window);
    lemma_id_index_finds(window_objects(old.windows@), window);
    if valid_backend_window_id(identifier) && key_index(id_views(old.window_ids@), identifier) < 0 && i >= 0 {
        lemma_wf_window_update(old, new, i);
        assert(id_views(new.window_ids@) =~= id_views(old.window_ids@).push((identifier, window)));
        lemma_keys_push(id_views(old.window_ids@), identifier, window);
    }
}

proof fn lemma_wf_window_changed(old: RiverObjects, new: RiverObjects, window: u32)
    requires
        old.wf(),
        new.windows@ == old.windows@ || {
            let i = window_index(old.windows@, window);
            &&& 0 <= i < old.windows@.len()
            &&& new.windows@ == old.windows@.update(i, new.windows@[i])
            &&& new.windows@[i].object == old.windows@[i].object
            &&& new.windows@[i].ordinal == old.windows@[i].ordinal
        },
        new == (RiverObjects { windows: new.windows, policy_events: new.policy_events, ..old }),
    ensures
        new.wf(),
{
    if new.windows@ != old.windows@ {
        lemma_wf_window_update(old, new, window_index(old.windows@, window));
    }
}

proof fn lemma_wf_window_closed(old: RiverObjects, new: RiverObjects, o: RuntimeOutcome, w: u32)
    requires
        old.wf(),
        spec_window_closed(old, new, o, w),
    ensures
        new.wf(),
{
    let i = window_index(old.windows@, w);
    lemma_id_index_finds(window_objects(old.windows@), w);
    if i >= 0 {
        lemma_wf_window_remove(old, new, i);
        let rec = old.windows@[i];
        if rec.backend_id is Some {
            lemma_keyed_remove(id_views(old.window_ids@), rec.backend_id->0@);
            if rec.assigned is Some {
                lemma_keyed_remove(old.realm_ids@, rec.assigned->0);
            }
        }
    }
}

proof fn lemma_wf_output_created(old: RiverObjects, new: RiverObjects, o: RuntimeOutcome, x: u32)
    requires
        old.wf(),
        spec_output_created(old, new, o, x),
    ensures
        new.wf(),
{
    let oo = output_objects(old.outputs@);
    lemma_id_index_finds(oo, x);
    let i = output_index(old.outputs@, x);
    if old.outputs@.len() < MAX_BACKEND_OUTPUTS && old.next_output_ordinal < u64::MAX && old.layer_shell {
        let kept = if i >= 0 { old.outputs@.remove(i) } else { old.outputs@ };
        let ko = output_objects(kept);
        let kn = output_ordinals(kept);
        if i >= 0 {
            assert(ko =~= oo.remove(i));
            assert(kn =~= output_ordinals(old.outputs@).remove(i));
            lemma_ids_remove(oo, i);
            lemma_ids_remove_forgets(oo, i);
            lemma_increasing_remove(output_ordinals(old.outputs@), i);
        } else {
            assert(ko =~= oo);
            assert(kn =~= output_ordinals(old.outputs@));
        }
        assert(output_objects(new.outputs@) =~= ko.push(x));
        lemma_ids_push(ko, x);
        assert(output_ordinals(new.outputs@) =~= kn.push(new.next_output_ordinal));
        assert forall|j: int| 0 <= j < kept.len() implies kept[j].ordinal <= old.next_output_ordinal by {
            if i >= 0 && j >= i {
                assert(kept[j] == old.outputs@[j + 1]);
            }
        }
        assert(forall|j: int| 0 <= j < new.outputs@.len() ==> new.outputs@[j].ordinal <= new.next_output_ordinal);
    }
}

proof fn lemma_wf_output_changed(old: RiverObjects, new: RiverObjects, output: u32)
    requires
        old.wf(),
        new.outputs@ == old.outputs@ || {
            let i = output_index(old.outputs@, output);
            &&& 0 <= i < old.outputs@.len()
            &&& new.outputs@ == old.outputs@.update(i, new.outputs@[i])
            &&& new.outputs@[i].object == old.outputs@[i].object
            &&& new.outputs@[i].ordinal == old.outputs@[i].ordinal
        },
        new == (RiverObjects { outputs: new.outputs, policy_events: new.policy_events, ..old }),
    ensures
        new.wf(),
{
    if new.outputs@ != old.outputs@ {
        lemma_wf_output_update(old, new, output_index(old.outputs@, output));
    }
}

proof fn lemma_wf_output_removed(old: RiverObjects, new: RiverObjects, o: RuntimeOutcome, x: u32)
    requires
        old.wf(),
        spec_output_removed(old, new, o, x),
    ensures
        new.wf(),
{
    let oo = output_objects(old.outputs@);
    let i = output_index(old.outputs@, x);
    lemma_id_index_finds(oo, x);
    if i >= 0 {
        assert(output_objects(new.outputs@) =~= oo.remove(i));
        lemma_ids_remove(oo, i);
        assert(output_ordinals(new.outputs@) =~= output_ordinals(old.outputs@).remove(i));
        lemma_increasing_remove(output_ordinals(old.outputs@), i);
        assert forall|j: int| 0 <= j < new.outputs@.len() implies new.outputs@[j].ordinal <= new.next_output_ordinal by {
            if j >= i {
                assert(new.outputs@[j] == old.outputs@[j + 1]);
            }
        }
        assert(window_objects(new.windows@) =~= window_objects(old.windows@));
        assert(window_ordinals(new.windows@) =~= window_ordinals(old.windows@));
        assert forall|j: int| 0 <= j < new.windows@.len() implies new.windows@[j].ordinal <= new.next_window_ordinal by {
            assert(new.windows@[j].ordinal == old.windows@[j].ordinal);
        }
    }
}

proof fn lemma_wf_seat_created(old: RiverObjects, new: RiverObjects, o: RuntimeOutcome, x: u32)
    requires
        old.wf(),
        spec_seat_created(old, new, o, x),
    ensures
        new.wf(),
{
    if old.seats@.len() < MAX_BACKEND_SEATS && old.next_seat_ordinal < u64::MAX {
        let ordinal = (old.next_seat_ordinal + 1) as u64;
        lemma_keyed_insert(old.seats@, x, ordinal);
        let k = first_unknown_keysym(old.bindings@);
        lemma_inserted_bindings_unique(old.binding_objects@, old.bindings@.take(k));
    }
}

proof fn lemma_wf_seat_removed(old: RiverObjects, new: RiverObjects, o: RuntimeOutcome, x: u32)
    requires
        old.wf(),
        spec_seat_removed(old, new, o, x),
    ensures
        new.wf(),
{
    if key_index(old.seats@, x) >= 0 {
        lemma_remove_at_key(old.seats@, x);
        lemma_keyed_remove(old.seats@, x);
    }
}

/// Every event keeps each object and identity known once and the object
/// tables within their capacities.
pub proof fn lemma_apply_keeps_wf(old: RiverObjects, new: RiverObjects, o: RuntimeOutcome, event: RuntimeEvent)
    requires
        old.wf(),
        spec_apply(old, new, o, event),
    ensures
        new.wf(),
{
    match event {
        RuntimeEvent::WindowCreated(w) => lemma_wf_window_created(old, new, o, w),
        RuntimeEvent::WindowIdentifier { window, identifier } => lemma_wf_window_identified(old, new, o, window, identifier@),
        RuntimeEvent::WindowAppId { window, app_id } => {
            lemma_id_index_finds(window_objects(old.windows@), window);
            lemma_wf_window_changed(old, new, window);
        },
        RuntimeEvent::WindowTitle { window, title } => {
            lemma_id_index_finds(window_objects(old.windows@), window);
            lemma_wf_window_changed(old, new, window);
        },
        RuntimeEvent::WindowDimensions { window, width, height } => {
            lemma_id_index_finds(window_objects(old.windows@), window);
            lemma_wf_window_changed(old, new, window);
        },
        RuntimeEvent::WindowClosed(w) => lemma_wf_window_closed(old, new, o, w),
        RuntimeEvent::OutputCreated(x) => lemma_wf_output_created(old, new, o, x),
        RuntimeEvent::OutputPosition { output, x, y } => {
            lemma_id_index_finds(output_objects(old.outputs@), output);
            lemma_wf_output_changed(old, new, output);
        },
        RuntimeEvent::OutputDimensions { output, width, height } => {
            lemma_id_index_finds(output_objects(old.outputs@), output);
            lemma_wf_output_changed(old, new, output);
        },
        RuntimeEvent::Workarea { output, x, y, width, height } => {
            lemma_id_index_finds(output_objects(old.outputs@), output);
            lemma_wf_output_changed(old, new, output);
        },
        RuntimeEvent::OutputRemoved(x) => lemma_wf_output_removed(old, new, o, x),
        RuntimeEvent::SeatCreated(x) => lemma_wf_seat_created(old, new, o, x),
        RuntimeEvent::SeatRemoved(x) => lemma_wf_seat_removed(old, new, o, x),
        _ => {},
    }
}

/// A window after its first policy turn.
pub open spec fn settle(w: WindowRecord) -> WindowRecord {
    WindowRecord { pending_open: false, ..w }
}

/// The index of the first pending window without an identity, or the number
/// of windows.
pub open spec fn first_unidentified_pending(ws: Seq<WindowRecord>) -> int
    decreases ws.len(),
{
    if ws.len() == 0 {
        0
    } else if ws[0].pending_open && ws[0].backend_id is None {
        0
    } else {
        1 + first_unidentified_pending(ws.drop_first())
    }
}

/// `first_unidentified_pending` is the first pending window without an
/// identity.
pub proof fn lemma_first_unidentified_pending(ws: Seq<WindowRecord>)
    ensures
        0 <= first_unidentified_pending(ws) <= ws.len(),
        forall|j: int| 0 <= j < first_unidentified_pending(ws) ==> !(#[trigger] ws[j].pending_open && ws[j].backend_id is None),
        first_unidentified_pending(ws) < ws.len() ==> {
            let k = first_unidentified_pending(ws);
            ws[k].pending_open && ws[k].backend_id is None
        },
    decreases ws.len(),
{
    if ws.len() > 0 && !(ws[0].pending_open && ws[0].backend_id is None) {
        let t = ws.drop_first();
        lemma_first_unidentified_pending(t);
        assert forall|j: int| 0 <= j < first_unidentified_pending(ws) implies !(#[trigger] ws[j].pending_open && ws[j].backend_id is None) by {
            if j > 0 {
                assert(ws[j] == t[j - 1]);
            }
        }
        if first_unidentified_pending(ws) < ws.len() {
            assert(ws[first_unidentified_pending(ws)] == t[first_unidentified_pending(t)]);
        }
    }
}

/// The facts announcing the pending windows among `ws`, in order.
pub open spec fn opened_facts(ws: Seq<WindowRecord>) -> Seq<PolicyFact>
    decreases ws.len(),
{
    if ws.len() == 0 {
        Seq::empty()
    } else {
        let w = ws.last();
        let rest = opened_facts(ws.drop_last());
        if w.pending_open {
            rest.push(PolicyFact::WindowOpened { backend_id: w.backend_id->0, app_id: w.app_id, title: w.title })
        } else {
            rest
        }
    }
}

/// The windows after the pending ones before index `k` were announced.
pub open spec fn settled_prefix(ws: Seq<WindowRecord>, k: int) -> Seq<WindowRecord> {
    ws.take(k).map_values(|w: WindowRecord| settle(w)) + ws.skip(k)
}

/// Whether an output has the geometry a layout needs.
pub open spec fn eligible(o: OutputRecord, require_workarea: bool) -> bool {
    o.position is Some && o.dimensions is Some && (!require_workarea || o.workarea is Some)
}

/// The index of the first eligible output, or the number of outputs.
pub open spec fn first_eligible(os: Seq<OutputRecord>, require_workarea: bool) -> int
    decreases os.len(),
{
    if os.len() == 0 {
        0
    } else if eligible(os[0], require_workarea) {
        0
    } else {
        1 + first_eligible(os.drop_first(), require_workarea)
    }
}

/// `first_eligible` is the first eligible output.
pub proof fn lemma_first_eligible(os: Seq<OutputRecord>, require_workarea: bool)
    ensures
        0 <= first_eligible(os, require_workarea) <= os.len(),
        forall|j: int| 0 <= j < first_eligible(os, require_workarea) ==> !eligible(#[trigger] os[j], require_workarea),
        first_eligible(os, require_workarea) < os.len() ==> eligible(os[first_eligible(os, require_workarea)], require_workarea),
    decreases os.len(),
{
    if os.len() > 0 && !eligible(os[0], require_workarea) {
        let t = os.drop_first();
        lemma_first_eligible(t, require_workarea);
        assert forall|j: int| 0 <= j < first_eligible(os, require_workarea) implies !eligible(#[trigger] os[j], require_workarea) by {
            if j > 0 {
                assert(os[j] == t[j - 1]);
            }
        }
        if first_eligible(os, require_workarea) < os.len() {
            assert(os[first_eligible(os, require_workarea)] == t[first_eligible(t, require_workarea)]);
        }
    }
}

/// The output selected when none is: the first eligible one.
pub open spec fn chosen_output(old: RiverObjects) -> Option<u32> {
    let fe = first_eligible(old.outputs@, old.selected_output_lost);
    if old.selected_output is Some {
        old.selected_output
    } else if fe < old.outputs@.len() {
        Some(old.outputs@[fe].object)
    } else {
        None
    }
}

/// Whether some seat was announced before the selected one.
pub open spec fn seat_out_of_order(old: RiverObjects) -> bool {
    let k = key_index(old.seats@, old.selected_seat->0);
    &&& old.selected_seat is Some
    &&& k >= 0
    &&& exists|j: int| 0 <= j < old.seats@.len() && #[trigger] old.seats@[j].1 < old.seats@[k].1
}

/// The facts a turn closes with.
pub open spec fn closing_facts(old: RiverObjects) -> Seq<PolicyFact> {
    let ws = old.windows@;
    let lost = old.selected_output is None && old.selected_output_lost
        && first_eligible(old.outputs@, true) < old.outputs@.len();
    old.policy_events@ + opened_facts(ws) + (if lost {
            seq![workarea_fact(old.outputs@[first_eligible(old.outputs@, true)])]
        } else {
            seq![]
        })
        + (if old.replay { seq![PolicyFact::InitialReplayComplete] } else { seq![] })
}

/// What closing a policy turn does: pending windows are announced in
/// creation order, an output is selected if none is, an incomplete
/// selection makes the backend fail once the response completes, and the
/// gathered facts become the turn.
pub open spec fn spec_finish_policy_turn(old: RiverObjects, new: RiverObjects, r: Result<PolicyTurn, BackendError>) -> bool {
    let ws = old.windows@;
    let k = first_unidentified_pending(ws);
    if k < ws.len() {
        &&& r == Err::<PolicyTurn, BackendError>(spec_protocol_error())
        &&& new == (RiverObjects { windows: new.windows, policy_events: new.policy_events, ..old })
        &&& new.windows@ == settled_prefix(ws, k)
        &&& new.policy_events@ == old.policy_events@ + opened_facts(ws.take(k))
    } else {
        let chosen = chosen_output(old);
        let incomplete = chosen is None || old.selected_seat is None;
        let facts = closing_facts(old);
        let selected = RiverObjects {
            windows: new.windows,
            policy_events: new.policy_events,
            selected_output: chosen,
            selected_output_lost: if old.selected_output is None { false } else { old.selected_output_lost },
            terminal_after_response: new.terminal_after_response,
            ..old
        };
        &&& new.windows@ == ws.map_values(|w: WindowRecord| settle(w))
        &&& if incomplete {
            new.terminal_after_response matches Some(e)
                && unavailable(e, "River has no complete selected output or seat"@)
        } else {
            new.terminal_after_response == old.terminal_after_response
        }
        &&& if !incomplete && seat_out_of_order(old) {
            &&& r == Err::<PolicyTurn, BackendError>(spec_protocol_error())
            &&& new == selected
            &&& new.policy_events@ == facts.take(facts.len() - (if old.replay { 1int } else { 0int }))
        } else if spec_policy_capacity(old.replay, facts) is Err {
            &&& r == Err::<PolicyTurn, BackendError>(spec_policy_capacity(old.replay, facts)->Err_0)
            &&& new == selected
            &&& new.policy_events@ == facts
        } else if old.next_turn == u64::MAX {
            &&& r == Err::<PolicyTurn, BackendError>(
                BackendError::Capacity { resource: BackendCapacityResource::PolicyTurnIds, limit: u64::MAX },
            )
            &&& new == selected
            &&& new.policy_events@ == facts
        } else {
            &&& r matches Ok(turn)
            &&& turn.id@ == old.next_turn + 1
            &&& turn.drains == old.drain_ticket
            &&& turn.events@ == facts
            &&& new == (RiverObjects {
                next_turn: (old.next_turn + 1) as u64,
                open_turn: Some(turn.id),
                drain_ticket: None,
                replay: false,
                ..selected
            })
            &&& new.policy_events@.len() == 0
        }
    }
}

/// Announce pending windows in order, stopping at the first without an
/// identity; true when every pending window was announced.
fn open_pending_windows(ws: &mut Vec<WindowRecord>, facts: &mut Vec<PolicyFact>) -> (all: bool)
    ensures
        final(ws)@ == settled_prefix(old(ws)@, first_unidentified_pending(old(ws)@)),
        final(facts)@ == old(facts)@ + opened_facts(old(ws)@.take(first_unidentified_pending(old(ws)@))),
        all == (first_unidentified_pending(old(ws)@) == old(ws)@.len()),
        0 <= first_unidentified_pending(old(ws)@) <= old(ws)@.len(),
{
    let ghost w0 = ws@;
    let ghost f0 = facts@;
    proof {
        lemma_first_unidentified_pending(w0);
    }
    let ghost k = first_unidentified_pending(w0);
    let mut j: usize = 0;
    while j < ws.len()
        invariant
            w0 == old(ws)@,
            f0 == old(facts)@,
            k == first_unidentified_pending(w0),
            0 <= k <= w0.len(),
            forall|x: int| 0 <= x < k ==> !(#[trigger] w0[x].pending_open && w0[x].backend_id is None),
            k < w0.len() ==> w0[k].pending_open && w0[k].backend_id is None,
            j <= k,
            ws@.len() == w0.len(),
            ws@ == settled_prefix(w0, j as int),
            facts@ == f0 + opened_facts(w0.take(j as int)),
        decreases w0.len() - j,
    {
        proof {
            assert(ws@[j as int] == w0[j as int]);
        }
        if ws[j].pending_open {
            let mut w = ws.remove(j);
            let backend_id = match &w.backend_id {
                Some(b) => b.clone(),
                None => {
                    ws.insert(j, w);
                    proof {
                        if (j as int) < k {
                            assert(!(w0[j as int].pending_open && w0[j as int].backend_id is None));
                        }
                        assert(ws@ =~= settled_prefix(w0, j as int));
                    }
                    return false;
                },
            };
            facts.push(PolicyFact::WindowOpened { backend_id, app_id: w.app_id.clone(), title: w.title.clone() });
            w.pending_open = false;
            ws.insert(j, w);
        }
        proof {
            let t = w0.take(j as int + 1);
            assert(t.drop_last() =~= w0.take(j as int));
            assert(ws@ =~= settled_prefix(w0, j as int + 1));
        }
        j = j + 1;
    }
    proof {
        assert(w0.take(w0.len() as int) =~= w0);
    }
    true
}

/// The first eligible output.
fn find_eligible(os: &Vec<OutputRecord>, require_workarea: bool) -> (r: Option<usize>)
    ensures
        match r {
            Some(i) => i as int == first_eligible(os@, require_workarea) && i < os@.len(),
            None => first_eligible(os@, require_workarea) == os@.len(),
        },
{
    proof {
        lemma_first_eligible(os@, require_workarea);
    }
    let mut i: usize = 0;
    while i < os.len()
        invariant
            i <= os@.len(),
            0 <= first_eligible(os@, require_workarea) <= os@.len(),
            forall|j: int| 0 <= j < first_eligible(os@, require_workarea) ==> !eligible(#[trigger] os@[j], require_workarea),
            first_eligible(os@, require_workarea) < os@.len() ==> eligible(os@[first_eligible(os@, require_workarea)], require_workarea),
            i <= first_eligible(os@, require_workarea),
        decreases os@.len() - i,
    {
        let o = os[i];
        if o.position.is_some() && o.dimensions.is_some() && (!require_workarea || o.workarea.is_some()) {
            return Some(i);
        }
        i = i + 1;
    }
    None
}

/// Whether some seat has an ordinal below `ordinal`.
fn any_seat_before(seats: &Vec<(u32, u64)>, ordinal: u64) -> (r: bool)
    ensures
        r == exists|j: int| 0 <= j < seats@.len() && #[trigger] seats@[j].1 < ordinal,
{
    let mut i: usize = 0;
    while i < seats.len()
        invariant
            i <= seats@.len(),
            forall|j: int| 0 <= j < i ==> !(#[trigger] seats@[j].1 < ordinal),
        decreases seats@.len() - i,
    {
        if seats[i].1 < ordinal {
            return true;
        }
        i = i + 1;
    }
    false
}

/// Closing a turn keeps every object known once and in creation order, and
/// a closed turn leaves no window pending.
pub proof fn lemma_finish_policy_turn_keeps_wf(old: RiverObjects, new: RiverObjects, r: Result<PolicyTurn, BackendError>)
    requires
        old.wf(),
        spec_finish_policy_turn(old, new, r),
    ensures
        new.wf(),
        r is Ok ==> forall|i: int| 0 <= i < new.windows@.len() ==> !(#[trigger] new.windows@[i]).pending_open,
{
    let ws = old.windows@;
    let k = first_unidentified_pending(ws);
    lemma_first_unidentified_pending(ws);
    assert(window_objects(new.windows@) =~= window_objects(ws));
    assert(window_ordinals(new.windows@) =~= window_ordinals(ws));
    assert forall|i: int| 0 <= i < new.windows@.len() implies new.windows@[i].ordinal == ws[i].ordinal by {
        if k < ws.len() && i >= k {
            assert(new.windows@[i] == ws.skip(k)[i - k]);
        }
    }
}

/// The output selected when none is, is the eligible output announced
/// first: no eligible output has a smaller ordinal.
pub proof fn lemma_chosen_output_is_oldest_eligible(old: RiverObjects)
    requires
        old.wf(),
        old.selected_output is None,
    ensures
        chosen_output(old) matches Some(x) ==> exists|i: int| {
            &&& 0 <= i < old.outputs@.len()
            &&& #[trigger] old.outputs@[i].object == x
            &&& eligible(old.outputs@[i], old.selected_output_lost)
            &&& forall|j: int| 0 <= j < old.outputs@.len() && eligible(#[trigger] old.outputs@[j], old.selected_output_lost)
                ==> old.outputs@[i].ordinal <= old.outputs@[j].ordinal
        },
        chosen_output(old) is None ==> forall|j: int| 0 <= j < old.outputs@.len() ==> !eligible(
            #[trigger] old.outputs@[j],
            old.selected_output_lost,
        ),
{
    let os = old.outputs@;
    let req = old.selected_output_lost;
    lemma_first_eligible(os, req);
    let fe = first_eligible(os, req);
    if fe < os.len() {
        assert forall|j: int| 0 <= j < os.len() && eligible(#[trigger] os[j], req) implies os[fe].ordinal <= os[j].ordinal by {
            if j < fe {
                assert(!eligible(os[j], req));
            } else if j > fe {
                assert(output_ordinals(os)[fe] < output_ordinals(os)[j]);
            }
        }
        assert(os[fe].object == os[fe].object);
    }
}

/// What binding a live window identity to Realm window `win` does.
pub open spec fn spec_assign_window(
    old: RiverObjects,
    new: RiverObjects,
    r: Result<(), BackendContractError>,
    backend_id: BackendWindowId,
    win: u64,
) -> bool {
    let k = key_index(id_views(old.window_ids@), backend_id@);
    let i = if k >= 0 { window_index(old.windows@, old.window_ids@[k].1) } else { -1 };
    if k < 0 || i < 0 {
        &&& r matches Err(BackendContractError::UnknownWindow { backend_id: b })
        &&& b == backend_id
        &&& new == old
    } else if old.windows@[i].assigned is Some {
        &&& r == (if old.windows@[i].assigned == Some(win) {
            Ok::<(), BackendContractError>(())
        } else {
            Err(BackendContractError::ConflictingBackendIdentity)
        })
        &&& new == old
    } else if key_index(old.realm_ids@, win) >= 0 {
        r == Err::<(), BackendContractError>(BackendContractError::ConflictingRealmIdentity) && new == old
    } else {
        &&& r is Ok
        &&& new == (RiverObjects { windows: new.windows, realm_ids: new.realm_ids, ..old })
        &&& new.windows@ == old.windows@.update(i, WindowRecord { assigned: Some(win), ..old.windows@[i] })
        &&& new.realm_ids@ == old.realm_ids@.push((win, backend_id))
    }
}

/// Assigning a Realm window keeps every identity known once.
pub proof fn lemma_assign_window_keeps_wf(
    old: RiverObjects,
    new: RiverObjects,
    r: Result<(), BackendContractError>,
    backend_id: BackendWindowId,
    win: u64,
)
    requires
        old.wf(),
        spec_assign_window(old, new, r, backend_id, win),
    ensures
        new.wf(),
{
    let k = key_index(id_views(old.window_ids@), backend_id@);
    lemma_key_index_finds(id_views(old.window_ids@), backend_id@);
    if k >= 0 {
        let i = window_index(old.windows@, old.window_ids@[k].1);
        lemma_id_index_finds(window_objects(old.windows@), old.window_ids@[k].1);
        if i >= 0 && old.windows@[i].assigned is None && key_index(old.realm_ids@, win) < 0 {
            lemma_wf_window_update(old, new, i);
            lemma_keys_push(old.realm_ids@, win, backend_id);
        }
    }
}

/// Whether a binding can be configured: a known keysym name and canonical
/// modifiers.
pub open spec fn binding_valid(b: BackendBindingSpec) -> bool {
    spec_keysym(b.keysym@) is Some && spec_canonical_modifiers(b.modifiers@)
}

/// Whether no two bindings share an identity.
pub open spec fn binding_ids_distinct(bs: Seq<BackendBindingSpec>) -> bool {
    forall|i: int, j: int| 0 <= i < j < bs.len() ==> bs[i].id != bs[j].id
}

/// Whether some binding has identity `x`.
pub open spec fn has_id(bs: Seq<BackendBindingSpec>, x: u32) -> bool {
    exists|i: int| 0 <= i < bs.len() && (#[trigger] bs[i]).id@ == x
}

/// Whether bindings stand in strictly increasing identity order.
pub open spec fn sorted_by_id(bs: Seq<BackendBindingSpec>) -> bool {
    forall|i: int, j: int| 0 <= i < j < bs.len() ==> bs[i].id@ < bs[j].id@
}

/// The index of the first binding with an identity above `id`, or the
/// number of bindings.
pub open spec fn first_above(s: Seq<BackendBindingSpec>, id: u32) -> int
    decreases s.len(),
{
    if s.len() == 0 {
        0
    } else if s[0].id@ > id {
        0
    } else {
        1 + first_above(s.drop_first(), id)
    }
}

/// `b` placed before the first binding with a larger identity.
pub open spec fn insert_by_id(s: Seq<BackendBindingSpec>, b: BackendBindingSpec) -> Seq<BackendBindingSpec> {
    s.insert(first_above(s, b.id@), b)
}

/// Bindings in identity order.
pub open spec fn sort_by_id(bs: Seq<BackendBindingSpec>) -> Seq<BackendBindingSpec>
    decreases bs.len(),
{
    if bs.len() == 0 {
        Seq::empty()
    } else {
        insert_by_id(sort_by_id(bs.drop_last()), bs.last())
    }
}

/// What configuring the binding mechanisms does: before any seat binds
/// them, a bounded set of valid bindings with distinct identities is kept in
/// identity order.
pub open spec fn spec_configure_bindings(
    old: RiverObjects,
    new: RiverObjects,
    r: Result<(), BackendError>,
    bs: Seq<BackendBindingSpec>,
) -> bool {
    if old.selected_seat is Some || old.binding_objects@.len() > 0 {
        r == Err::<(), BackendError>(spec_protocol_error()) && new == old
    } else if bs.len() > MAX_CONFIGURED_BINDINGS {
        &&& r == Err::<(), BackendError>(
            BackendError::Capacity {
                resource: BackendCapacityResource::ConfiguredBindings,
                limit: MAX_CONFIGURED_BINDINGS as u64,
            },
        )
        &&& new == old
    } else if !(forall|j: int| 0 <= j < bs.len() ==> binding_valid(#[trigger] bs[j])) || !binding_ids_distinct(bs) {
        r == Err::<(), BackendError>(spec_protocol_error()) && new == old
    } else {
        &&& r is Ok
        &&& new == (RiverObjects { bindings: new.bindings, ..old })
        &&& new.bindings@ == sort_by_id(bs)
    }
}

/// `first_above` is the first binding above `id`; in a sorted sequence
/// everything before it is at most `id`.
pub proof fn lemma_first_above(s: Seq<BackendBindingSpec>, id: u32)
    ensures
        0 <= first_above(s, id) <= s.len(),
        first_above(s, id) < s.len() ==> s[first_above(s, id)].id@ > id,
        forall|j: int| 0 <= j < first_above(s, id) ==> (#[trigger] s[j]).id@ <= id,
    decreases s.len(),
{
    if s.len() > 0 && s[0].id@ <= id {
        let t = s.drop_first();
        lemma_first_above(t, id);
        assert forall|j: int| 0 <= j < first_above(s, id) implies (#[trigger] s[j]).id@ <= id by {
            if j > 0 {
                assert(s[j] == t[j - 1]);
            }
        }
        if first_above(s, id) < s.len() {
            assert(s[first_above(s, id)] == t[first_above(t, id)]);
        }
    }
}

/// Sorting keeps the identities present and orders them.
pub proof fn lemma_sort_by_id(bs: Seq<BackendBindingSpec>)
    requires
        binding_ids_distinct(bs),
    ensures
        sort_by_id(bs).len() == bs.len(),
        sorted_by_id(sort_by_id(bs)),
        forall|x: u32| #![trigger has_id(bs, x)] #![trigger has_id(sort_by_id(bs), x)] has_id(bs, x) == has_id(sort_by_id(bs), x),
    decreases bs.len(),
{
    if bs.len() > 0 {
        let p = bs.drop_last();
        let b = bs.last();
        assert(binding_ids_distinct(p));
        lemma_sort_by_id(p);
        let s = sort_by_id(p);
        lemma_first_above(s, b.id@);
        let k = first_above(s, b.id@);
        let t = s.insert(k, b);
        assert forall|j: int| 0 <= j < s.len() implies (#[trigger] s[j]).id@ != b.id@ by {
            if s[j].id@ == b.id@ {
                let x = b.id@;
                assert(has_id(s, x));
                assert(has_id(p, x));
                let i = choose|i: int| 0 <= i < p.len() && (#[trigger] p[i]).id@ == x;
                assert(p[i] == bs[i]);
                assert(bs[i].id@ == bs[bs.len() - 1].id@);
            }
        }
        assert forall|a: int, c: int| 0 <= a < c < t.len() implies t[a].id@ < t[c].id@ by {
            if c < k {
                assert(t[a] == s[a] && t[c] == s[c]);
            } else if c == k {
                assert(t[a] == s[a]);
            } else if a < k {
                assert(t[a] == s[a] && t[c] == s[c - 1]);
            } else if a == k {
                assert(t[c] == s[c - 1]);
            } else {
                assert(t[a] == s[a - 1] && t[c] == s[c - 1]);
            }
        }
        assert forall|x: u32| #![trigger has_id(bs, x)] has_id(bs, x) == has_id(t, x) by {
            if has_id(bs, x) {
                let i = choose|i: int| 0 <= i < bs.len() && (#[trigger] bs[i]).id@ == x;
                if i == bs.len() - 1 {
                    assert(t[k].id@ == x);
                } else {
                    assert(p[i] == bs[i]);
                    assert(has_id(p, x));
                    assert(has_id(s, x));
                    let j = choose|j: int| 0 <= j < s.len() && (#[trigger] s[j]).id@ == x;
                    if j < k {
                        assert(t[j] == s[j]);
                    } else {
                        assert(t[j + 1] == s[j]);
                    }
                }
            }
            if has_id(t, x) {
                let i = choose|i: int| 0 <= i < t.len() && (#[trigger] t[i]).id@ == x;
                if i == k {
                    assert(bs[bs.len() - 1].id@ == x);
                } else {
                    let j = if i < k { i } else { i - 1 };
                    assert(t[i] == s[j]);
                    assert(has_id(s, x));
                    assert(has_id(p, x));
                    let m = choose|m: int| 0 <= m < p.len() && (#[trigger] p[m]).id@ == x;
                    assert(bs[m] == p[m]);
                }
            }
        }
    }
}

/// Configuring bindings keeps every object known once and in creation order.
pub proof fn lemma_configure_bindings_keeps_wf(
    old: RiverObjects,
    new: RiverObjects,
    r: Result<(), BackendError>,
    bs: Seq<BackendBindingSpec>,
)
    requires
        old.wf(),
        spec_configure_bindings(old, new, r, bs),
    ensures
        new.wf(),
{
}

/// Configured bindings stand in strictly increasing identity order and are
/// exactly the bindings given.
pub proof fn lemma_configured_bindings_sorted(
    old: RiverObjects,
    new: RiverObjects,
    r: Result<(), BackendError>,
    bs: Seq<BackendBindingSpec>,
)
    requires
        spec_configure_bindings(old, new, r, bs),
        r is Ok,
    ensures
        sorted_by_id(new.bindings@),
        new.bindings@.len() == bs.len(),
        forall|x: u32| #![trigger has_id(bs, x)] has_id(bs, x) == has_id(new.bindings@, x),
{
    lemma_sort_by_id(bs);
}

/// The slot where a binding with identity `id` belongs, or None when one is
/// already configured.
fn slot_for(configured: &Vec<BackendBindingSpec>, id: BackendBindingId) -> (r: Option<usize>)
    requires
        sorted_by_id(configured@),
    ensures
        match r {
            Some(k) => k <= configured@.len() && k as int == first_above(configured@, id@) && forall|j: int|
                0 <= j < configured@.len() ==> (#[trigger] configured@[j]).id@ != id@,
            None => has_id(configured@, id@),
        },
{
    proof {
        lemma_first_above(configured@, id@);
    }
    let raw = id.get();
    let mut k: usize = 0;
    while k < configured.len()
        invariant
            k <= configured@.len(),
            raw == id@,
            sorted_by_id(configured@),
            0 <= first_above(configured@, id@) <= configured@.len(),
            first_above(configured@, id@) < configured@.len() ==> configured@[first_above(configured@, id@)].id@ > id@,
            forall|j: int| 0 <= j < first_above(configured@, id@) ==> (#[trigger] configured@[j]).id@ <= id@,
            k <= first_above(configured@, id@),
            forall|j: int| 0 <= j < k ==> (#[trigger] configured@[j]).id@ < id@,
        decreases configured@.len() - k,
    {
        let c = configured[k].id.get();
        if c == raw {
            return None;
        }
        if c > raw {
            proof {
                assert forall|j: int| 0 <= j < configured@.len() implies (#[trigger] configured@[j]).id@ != id@ by {
                    if j > k as int {
                        assert(configured@[k as int].id@ < configured@[j].id@);
                    }
                }
            }
            return Some(k);
        }
        k = k + 1;
    }
    Some(k)
}

/// A refusal sending `requests`.
pub(crate) fn refuse(requests: Vec<ObjectRequest>, error: BackendError) -> (o: RuntimeOutcome)
    ensures
        refused(o, requests@, error),
{
    RuntimeOutcome { requests, result: Err(error) }
}

/// No requests.
pub(crate) fn no_requests() -> (v: Vec<ObjectRequest>)
    ensures
        v@ == Seq::<ObjectRequest>::empty(),
{
    Vec::new()
}

/// One request.
pub(crate) fn one_request(a: ObjectRequest) -> (v: Vec<ObjectRequest>)
    ensures
        v@ == seq![a],
{
    let mut v = Vec::new();
    v.push(a);
    proof {
        assert(v@ =~= seq![a]);
    }
    v
}

/// Two requests, in order.
pub(crate) fn two_requests(a: ObjectRequest, b: ObjectRequest) -> (v: Vec<ObjectRequest>)
    ensures
        v@ == seq![a, b],
{
    let mut v = Vec::new();
    v.push(a);
    v.push(b);
    proof {
        assert(v@ =~= seq![a, b]);
    }
    v
}

impl RiverObjects {
    /// Every window, output, seat, binding object and identity is known
    /// once, the window, output and seat tables are within capacity, and
    /// windows and outputs stand in creation order.
    pub open spec fn wf(&self) -> bool {
        &&& ids_unique(window_objects(self.windows@))
        &&& self.windows@.len() <= MAX_MANAGED_WINDOWS
        &&& keys_unique(id_views(self.window_ids@))
        &&& keys_unique(self.realm_ids@)
        &&& ids_unique(output_objects(self.outputs@))
        &&& self.outputs@.len() <= MAX_BACKEND_OUTPUTS
        &&& keys_unique(self.seats@)
        &&& self.seats@.len() <= MAX_BACKEND_SEATS
        &&& keys_unique(self.binding_objects@)
        &&& increasing(window_ordinals(self.windows@))
        &&& forall|i: int| 0 <= i < self.windows@.len() ==> self.windows@[i].ordinal <= self.next_window_ordinal
        &&& increasing(output_ordinals(self.outputs@))
        &&& forall|i: int| 0 <= i < self.outputs@.len() ==> self.outputs@[i].ordinal <= self.next_output_ordinal
    }

    /// Send `requests` and check the capacity of the facts now gathered.
    fn check(&self, requests: Vec<ObjectRequest>) -> (o: RuntimeOutcome)
        ensures
            checked(o, requests@, *self),
    {
        RuntimeOutcome { requests, result: validate_policy_capacity(self.replay, &self.policy_events) }
    }

    #[verifier::spinoff_prover]
    #[verifier::rlimit(40)]
    fn window_created(&mut self, object: u32) -> (o: RuntimeOutcome)
        ensures
            spec_window_created(*old(self), *final(self), o, object),
    {
        if self.windows.len() == MAX_MANAGED_WINDOWS {
            return refuse(
                one_request(ObjectRequest::Destroy(object)),
                capacity(BackendCapacityResource::ManagedWindows, MAX_MANAGED_WINDOWS as u64),
            );
        }
        if self.next_window_ordinal == u64::MAX {
            return refuse(no_requests(), capacity(BackendCapacityResource::ObjectOrdinals, u64::MAX));
        }
        self.next_window_ordinal = self.next_window_ordinal + 1;
        let record = WindowRecord {
            object,
            ordinal: self.next_window_ordinal,
            backend_id: None,
            app_id: String::new(),
            title: String::new(),
            pending_open: true,
            assigned: None,
            dimensions: None,
            proposed_size: None,
            awaiting_dimensions: false,
            position: None,
            focused: None,
            hidden: None,
            fullscreen: false,
            initialized: false,
        };
        if let Some(i) = find_window(&self.windows, object) {
            self.windows.remove(i);
        }
        self.windows.push(record);
        self.flush_pending = true;
        self.check(one_request(ObjectRequest::GetNode(object)))
    }

    #[verifier::spinoff_prover]
    fn window_identified(&mut self, window: u32, identifier: String) -> (o: RuntimeOutcome)
        ensures
            spec_window_identified(*old(self), *final(self), o, window, identifier@),
    {
        let id = match BackendWindowId::new(identifier) {
            Some(id) => id,
            None => {
                return refuse(no_requests(), protocol_error());
            },
        };
        if find_window_id(&self.window_ids, &id).is_some() {
            return refuse(no_requests(), protocol_error());
        }
        let i = match find_window(&self.windows, window) {
            Some(i) => i,
            None => {
                return refuse(no_requests(), protocol_error());
            },
        };
        let mut w = self.windows.remove(i);
        w.backend_id = Some(id.clone());
        self.windows.insert(i, w);
        self.window_ids.push((id, window));
        proof {
            assert(self.windows@ =~= old(self).windows@.update(
                i as int,
                WindowRecord { backend_id: Some(id), ..old(self).windows@[i as int] },
            ));
        }
        self.check(no_requests())
    }

    fn window_app_id(&mut self, window: u32, app_id: String) -> (o: RuntimeOutcome)
        ensures
            spec_window_app_id(*old(self), *final(self), o, window, app_id),
    {
        let i = match find_window(&self.windows, window) {
            Some(i) => i,
            None => {
                return refuse(no_requests(), protocol_error());
            },
        };
        let ghost a = app_id;
        let mut w = self.windows.remove(i);
        w.app_id = app_id;
        self.windows.insert(i, w);
        proof {
            assert(self.windows@ =~= old(self).windows@.update(
                i as int,
                WindowRecord { app_id: a, ..old(self).windows@[i as int] },
            ));
        }
        self.check(no_requests())
    }

    fn window_title(&mut self, window: u32, title: String) -> (o: RuntimeOutcome)
        ensures
            spec_window_title(*old(self), *final(self), o, window, title),
    {
        let i = match find_window(&self.windows, window) {
            Some(i) => i,
            None => {
                return refuse(no_requests(), protocol_error());
            },
        };
        let ghost t = title;
        let mut w = self.windows.remove(i);
        w.title = title.clone();
        let pending_open = w.pending_open;
        let backend_id = match &w.backend_id {
            Some(b) => Some(b.clone()),
            None => None,
        };
        self.windows.insert(i, w);
        proof {
            assert(self.windows@ =~= old(self).windows@.update(
                i as int,
                WindowRecord { title: t, ..old(self).windows@[i as int] },
            ));
        }
        if !pending_open {
            match backend_id {
                Some(b) => {
                    self.policy_events.push(PolicyFact::TitleChanged { backend_id: b, title });
                },
                None => {
                    return refuse(no_requests(), protocol_error());
                },
            }
        }
        self.check(no_requests())
    }

    #[verifier::spinoff_prover]
    #[verifier::rlimit(40)]
    fn window_dimensions(&mut self, window: u32, width: i32, height: i32) -> (o: RuntimeOutcome)
        ensures
            spec_window_dimensions(*old(self), *final(self), o, window, width, height),
    {
        if width <= 0 || height <= 0 {
            return refuse(no_requests(), protocol_error());
        }
        let i = match find_window(&self.windows, window) {
            Some(i) => i,
            None => {
                return refuse(no_requests(), protocol_error());
            },
        };
        let w = self.windows.remove(i);
        let idle = self.pending_response.is_none();
        let w = resized(w, width, height, idle, &mut self.policy_events);
        self.windows.insert(i, w);
        proof {
            let ow = old(self).windows@[i as int];
            let drift = drifts(*old(self), ow, width, height);
            assert(self.windows@ =~= old(self).windows@.update(
                i as int,
                WindowRecord {
                    awaiting_dimensions: false,
                    dimensions: Some((width, height)),
                    proposed_size: if drift { None } else { ow.proposed_size },
                    ..ow
                },
            ));
        }
        self.check(no_requests())
    }

    #[verifier::spinoff_prover]
    #[verifier::rlimit(80)]
    fn window_closed(&mut self, window: u32) -> (o: RuntimeOutcome)
        ensures
            spec_window_closed(*old(self), *final(self), o, window),
    {
        let i = match find_window(&self.windows, window) {
            Some(i) => i,
            None => {
                return refuse(no_requests(), protocol_error());
            },
        };
        let w = self.windows.remove(i);
        forget_window(
            w,
            &mut self.window_ids,
            &mut self.realm_ids,
            &mut self.focused_window,
            &mut self.policy_events,
        );
        self.flush_pending = true;
        self.check(two_requests(ObjectRequest::DestroyNode(window), ObjectRequest::Destroy(window)))
    }

    fn window_interacted(&mut self, window: u32) -> (o: RuntimeOutcome)
        ensures
            spec_window_interacted(*old(self), *final(self), o, window),
    {
        let i = match find_window(&self.windows, window) {
            Some(i) => i,
            None => {
                return refuse(no_requests(), protocol_error());
            },
        };
        match &self.windows[i].backend_id {
            Some(b) => {
                let b = b.clone();
                self.policy_events.push(PolicyFact::FocusChanged(Some(b)));
            },
            None => {
                return refuse(no_requests(), protocol_error());
            },
        }
        self.check(no_requests())
    }

    fn output_created(&mut self, object: u32) -> (o: RuntimeOutcome)
        ensures
            spec_output_created(*old(self), *final(self), o, object),
    {
        if self.outputs.len() == MAX_BACKEND_OUTPUTS {
            return refuse(
                one_request(ObjectRequest::Destroy(object)),
                capacity(BackendCapacityResource::Outputs, MAX_BACKEND_OUTPUTS as u64),
            );
        }
        if self.next_output_ordinal == u64::MAX {
            return refuse(no_requests(), capacity(BackendCapacityResource::ObjectOrdinals, u64::MAX));
        }
        self.next_output_ordinal = self.next_output_ordinal + 1;
        if !self.layer_shell {
            return refuse(no_requests(), protocol_error());
        }
        let record = OutputRecord {
            object,
            ordinal: self.next_output_ordinal,
            position: None,
            dimensions: None,
            workarea: None,
        };
        if let Some(i) = find_output(&self.outputs, object) {
            self.outputs.remove(i);
        }
        self.outputs.push(record);
        self.flush_pending = true;
        self.check(one_request(ObjectRequest::GetLayerOutput(object)))
    }

    fn output_position(&mut self, output: u32, x: i32, y: i32) -> (o: RuntimeOutcome)
        ensures
            spec_output_position(*old(self), *final(self), o, output, x, y),
    {
        let i = match find_output(&self.outputs, output) {
            Some(i) => i,
            None => {
                return refuse(no_requests(), protocol_error());
            },
        };
        let r = self.outputs[i];
        self.outputs.set(i, OutputRecord { position: Some((x, y)), ..r });
        self.check(no_requests())
    }

    fn output_dimensions(&mut self, output: u32, width: i32, height: i32) -> (o: RuntimeOutcome)
        ensures
            spec_output_dimensions(*old(self), *final(self), o, output, width, height),
    {
        if width <= 0 || height <= 0 {
            return refuse(no_requests(), protocol_error());
        }
        let i = match find_output(&self.outputs, output) {
            Some(i) => i,
            None => {
                return refuse(no_requests(), protocol_error());
            },
        };
        let r = self.outputs[i];
        self.outputs.set(i, OutputRecord { dimensions: Some((width, height)), ..r });
        self.check(no_requests())
    }

    fn output_removed(&mut self, output: u32) -> (o: RuntimeOutcome)
        ensures
            spec_output_removed(*old(self), *final(self), o, output),
    {
        let i = match find_output(&self.outputs, output) {
            Some(i) => i,
            None => {
                return refuse(no_requests(), protocol_error());
            },
        };
        self.outputs.remove(i);
        let selected = match self.selected_output {
            Some(s) => s == output,
            None => false,
        };
        if selected {
            self.selected_output = None;
            self.default_output = None;
            self.selected_output_lost = true;
            unfullscreen_all(&mut self.windows);
        }
        self.flush_pending = true;
        self.check(two_requests(ObjectRequest::DestroyLayerOutput(output), ObjectRequest::Destroy(output)))
    }

    fn workarea(&mut self, output: u32, area: (i32, i32, i32, i32)) -> (o: RuntimeOutcome)
        ensures
            spec_workarea(*old(self), *final(self), o, output, area),
    {
        let i = match find_output(&self.outputs, output) {
            Some(i) => i,
            None => {
                return refuse(no_requests(), protocol_error());
            },
        };
        let r = self.outputs[i];
        self.outputs.set(i, OutputRecord { workarea: Some(area), ..r });
        let selected = match self.selected_output {
            Some(s) => s == output,
            None => false,
        };
        if selected {
            let (x, y) = match r.position {
                Some(p) => p,
                None => {
                    return refuse(no_requests(), protocol_error());
                },
            };
            let (w, h) = match r.dimensions {
                Some(d) => d,
                None => {
                    return refuse(no_requests(), protocol_error());
                },
            };
            self.policy_events.push(PolicyFact::WorkareaChanged { output: (x, y, w, h), tiles: area });
        }
        self.check(no_requests())
    }

    fn exclusive_focus(&mut self, exclusive: bool) -> (o: RuntimeOutcome)
        ensures
            spec_exclusive_focus(*old(self), *final(self), o, exclusive),
    {
        self.exclusive_focus = exclusive;
        if exclusive {
            self.focused_window = None;
        }
        self.policy_events.push(PolicyFact::ExclusiveFocusChanged(exclusive));
        self.check(no_requests())
    }

    fn binding_fact(&mut self, id: BackendBindingId, fact: PolicyFact) -> (o: RuntimeOutcome)
        ensures
            spec_binding_fact(*old(self), *final(self), o, id, fact),
    {
        if find_binding_object(&self.binding_objects, id).is_none() {
            return refuse(no_requests(), protocol_error());
        }
        self.policy_events.push(fact);
        self.check(no_requests())
    }

    fn report(&mut self, fact: PolicyFact) -> (o: RuntimeOutcome)
        ensures
            spec_reported(*old(self), *final(self), o, fact),
    {
        self.policy_events.push(fact);
        self.check(no_requests())
    }

    fn modifiers_changed(&mut self, before: u32, after: u32) -> (o: RuntimeOutcome)
        ensures
            spec_modifiers_changed(*old(self), *final(self), o, before, after),
    {
        let old_mods = match decode_modifiers(before) {
            Ok(m) => m,
            Err(e) => {
                return refuse(no_requests(), e);
            },
        };
        let new_mods = match decode_modifiers(after) {
            Ok(m) => m,
            Err(e) => {
                return refuse(no_requests(), e);
            },
        };
        self.policy_events.push(PolicyFact::ModifiersChanged { old: old_mods, new: new_mods });
        proof {
            assert(self.policy_events@.drop_last() =~= old(self).policy_events@);
        }
        self.check(no_requests())
    }
    fn seat_created(&mut self, object: u32) -> (o: RuntimeOutcome)
        ensures
            spec_seat_created(*old(self), *final(self), o, object),
    {
        if self.seats.len() == MAX_BACKEND_SEATS {
            return refuse(
                one_request(ObjectRequest::Destroy(object)),
                capacity(BackendCapacityResource::Seats, MAX_BACKEND_SEATS as u64),
            );
        }
        if self.next_seat_ordinal == u64::MAX {
            return refuse(no_requests(), capacity(BackendCapacityResource::ObjectOrdinals, u64::MAX));
        }
        self.next_seat_ordinal = self.next_seat_ordinal + 1;
        let mut requests = no_requests();
        if self.selected_seat.is_none() {
            self.selected_seat = Some(object);
            if !self.layer_shell {
                return refuse(requests, protocol_error());
            }
            requests.push(ObjectRequest::GetLayerSeat(object));
            if !self.xkb_bindings {
                return refuse(requests, protocol_error());
            }
            requests.push(ObjectRequest::GetXkbSeat(object));
            proof {
                assert(requests@ =~= seq![ObjectRequest::GetLayerSeat(object), ObjectRequest::GetXkbSeat(object)]);
            }
            let all = bind_seat(object, &self.bindings, &mut self.binding_objects, &mut requests);
            if !all {
                return refuse(requests, protocol_error());
            }
            self.layer_seat = true;
            self.xkb_seat = true;
            self.flush_pending = true;
        }
        let ordinal = self.next_seat_ordinal;
        match find_seat(&self.seats, object) {
            Some(i) => {
                self.seats.set(i, (object, ordinal));
            },
            None => {
                self.seats.push((object, ordinal));
            },
        }
        self.check(requests)
    }

    fn seat_removed(&mut self, object: u32) -> (o: RuntimeOutcome)
        ensures
            spec_seat_removed(*old(self), *final(self), o, object),
    {
        let i = match find_seat(&self.seats, object) {
            Some(i) => i,
            None => {
                return refuse(no_requests(), protocol_error());
            },
        };
        self.seats.remove(i);
        let mut requests = no_requests();
        let selected = match self.selected_seat {
            Some(s) => s == object,
            None => false,
        };
        if selected {
            self.selected_seat = None;
            if self.layer_seat {
                requests.push(ObjectRequest::DestroyLayerSeat);
                self.layer_seat = false;
            }
            if self.xkb_seat {
                requests.push(ObjectRequest::DestroyXkbSeat);
                self.xkb_seat = false;
            }
            proof {
                assert(requests@ =~= (if old(self).layer_seat { seq![ObjectRequest::DestroyLayerSeat] } else { seq![] })
                    + (if old(self).xkb_seat { seq![ObjectRequest::DestroyXkbSeat] } else { seq![] }));
            }
            destroy_bindings(&self.binding_objects, &mut requests);
            self.binding_objects = Vec::new();
            self.terminal_after_response = Some(BackendError::Unavailable {
                message: String::from_str("selected River seat was removed"),
            });
        }
        requests.push(ObjectRequest::Destroy(object));
        self.flush_pending = true;
        self.check(requests)
    }
    /// No objects announced yet, with the initial replay running.
    pub fn new(layer_shell: bool, xkb_bindings: bool, bindings: Vec<BackendBindingSpec>) -> (r: Self)
        ensures
            r.windows@.len() == 0,
            r.window_ids@.len() == 0,
            r.realm_ids@.len() == 0,
            r.outputs@.len() == 0,
            r.seats@.len() == 0,
            r.selected_output is None,
            r.default_output is None,
            !r.selected_output_lost,
            r.selected_seat is None,
            !r.layer_seat,
            !r.xkb_seat,
            r.bindings == bindings,
            r.binding_objects@.len() == 0,
            r.next_window_ordinal == 0,
            r.next_output_ordinal == 0,
            r.next_seat_ordinal == 0,
            r.layer_shell == layer_shell,
            r.xkb_bindings == xkb_bindings,
            r.pending_response is None,
            r.deferred_corrections@.len() == 0,
            r.replay,
            r.policy_events@.len() == 0,
            r.focused_window is None,
            !r.exclusive_focus,
            r.terminal_after_response is None,
            !r.flush_pending,
            r.next_turn == 0,
            r.open_turn is None,
            r.drain_ticket is None,
            r.watched_modifiers@.len() == 0,
            !r.turn_requested,
            r.last_projection is None,
            r.link == (Link { window_manager: true, connected: false, exit_started: false, exit_flushed: false }),
            r.wf(),
    {
        RiverObjects {
            windows: Vec::new(),
            window_ids: Vec::new(),
            realm_ids: Vec::new(),
            outputs: Vec::new(),
            seats: Vec::new(),
            selected_output: None,
            default_output: None,
            selected_output_lost: false,
            selected_seat: None,
            layer_seat: false,
            xkb_seat: false,
            bindings,
            binding_objects: Vec::new(),
            next_window_ordinal: 0,
            next_output_ordinal: 0,
            next_seat_ordinal: 0,
            layer_shell,
            xkb_bindings,
            pending_response: None,
            deferred_corrections: Vec::new(),
            replay: true,
            policy_events: Vec::new(),
            focused_window: None,
            exclusive_focus: false,
            terminal_after_response: None,
            flush_pending: false,
            next_turn: 0,
            open_turn: None,
            drain_ticket: None,
            watched_modifiers: Vec::new(),
            turn_requested: false,
            last_projection: None,
            link: Link { window_manager: true, connected: false, exit_started: false, exit_flushed: false },
        }
    }

    /// Apply one object event, then check the capacity of the gathered
    /// policy facts.
    ///
    /// Announcements beyond capacity destroy the new object and are refused,
    /// as are those whose ordinal would overflow; facts about unknown objects,
    /// malformed sizes, duplicate or invalid window identities and unwatched
    /// modifiers are protocol errors. Window, focus, workarea, binding and
    /// modifier events of opened windows and the selected output become
    /// policy facts.
    pub fn apply(&mut self, event: RuntimeEvent) -> (o: RuntimeOutcome)
        ensures
            spec_apply(*old(self), *final(self), o, event),
            old(self).wf() ==> final(self).wf(),
    {
        let ghost before = *self;
        let ghost ev = event;
        let o = match event {
            RuntimeEvent::ManagerUnavailable => refuse(
                no_requests(),
                BackendError::Unavailable { message: String::from_str("another River window manager is active") },
            ),
            RuntimeEvent::WindowCreated(w) => self.window_created(w),
            RuntimeEvent::WindowIdentifier { window, identifier } => self.window_identified(window, identifier),
            RuntimeEvent::WindowAppId { window, app_id } => self.window_app_id(window, app_id),
            RuntimeEvent::WindowTitle { window, title } => self.window_title(window, title),
            RuntimeEvent::WindowDimensions { window, width, height } => self.window_dimensions(window, width, height),
            RuntimeEvent::WindowClosed(w) => self.window_closed(w),
            RuntimeEvent::OutputCreated(x) => self.output_created(x),
            RuntimeEvent::OutputPosition { output, x, y } => self.output_position(output, x, y),
            RuntimeEvent::OutputDimensions { output, width, height } => self.output_dimensions(output, width, height),
            RuntimeEvent::OutputRemoved(x) => self.output_removed(x),
            RuntimeEvent::SeatCreated(x) => self.seat_created(x),
            RuntimeEvent::SeatRemoved(x) => self.seat_removed(x),
            RuntimeEvent::WindowInteracted(w) => self.window_interacted(w),
            RuntimeEvent::Workarea { output, x, y, width, height } => self.workarea(output, (x, y, width, height)),
            RuntimeEvent::ExclusiveFocus(b) => self.exclusive_focus(b),
            RuntimeEvent::BindingPressed(id) => self.binding_fact(id, PolicyFact::BindingPressed(id)),
            RuntimeEvent::BindingReleased(id) => self.binding_fact(id, PolicyFact::BindingReleased(id)),
            RuntimeEvent::BindingRepeatStopped(id) => self.binding_fact(id, PolicyFact::BindingRepeatStopped(id)),
            RuntimeEvent::UnboundKeyEaten => self.report(PolicyFact::UnboundKeyEaten),
            RuntimeEvent::ModifiersChanged { old: before, new: after } => self.modifiers_changed(before, after),
        };
        proof {
            if before.wf() {
                lemma_apply_keeps_wf(before, *self, o, ev);
            }
        }
        o
    }
    /// Select the first eligible output when none is selected.
    fn select_output(&mut self)
        ensures
            *final(self) == (RiverObjects {
                policy_events: final(self).policy_events,
                selected_output: chosen_output(*old(self)),
                selected_output_lost: if old(self).selected_output is None { false } else { old(self).selected_output_lost },
                ..*old(self)
            }),
            final(self).policy_events@ == old(self).policy_events@ + (if old(self).selected_output is None
                && old(self).selected_output_lost && first_eligible(old(self).outputs@, true) < old(self).outputs@.len() {
                seq![workarea_fact(old(self).outputs@[first_eligible(old(self).outputs@, true)])]
            } else {
                seq![]
            }),
    {
        if self.selected_output.is_none() {
            let require = self.selected_output_lost;
            let found = find_eligible(&self.outputs, require);
            match found {
                Some(i) => {
                    self.selected_output = Some(self.outputs[i].object);
                },
                None => {
                    self.selected_output = None;
                },
            }
            self.selected_output_lost = false;
            if require {
                if let Some(i) = found {
                    let r = self.outputs[i];
                    proof {
                        lemma_first_eligible(old(self).outputs@, true);
                    }
                    let (x, y) = r.position.unwrap();
                    let (w, h) = r.dimensions.unwrap();
                    let tiles = r.workarea.unwrap();
                    self.policy_events.push(PolicyFact::WorkareaChanged { output: (x, y, w, h), tiles });
                }
            }
        }
        proof {
            assert(self.policy_events@ =~= old(self).policy_events@ + (if old(self).selected_output is None
                && old(self).selected_output_lost && first_eligible(old(self).outputs@, true) < old(self).outputs@.len() {
                seq![workarea_fact(old(self).outputs@[first_eligible(old(self).outputs@, true)])]
            } else {
                seq![]
            }));
        }
    }

    /// Record an incomplete selection; false when a seat was announced
    /// before the selected one.
    fn check_selection(&mut self) -> (ordered: bool)
        ensures
            *final(self) == (RiverObjects { terminal_after_response: final(self).terminal_after_response, ..*old(self) }),
            old(self).selected_output is None || old(self).selected_seat is None ==> {
                &&& ordered
                &&& final(self).terminal_after_response matches Some(e)
                &&& unavailable(e, "River has no complete selected output or seat"@)
            },
            !(old(self).selected_output is None || old(self).selected_seat is None) ==> {
                &&& ordered == !seat_out_of_order(*old(self))
                &&& final(self).terminal_after_response == old(self).terminal_after_response
            },
    {
        if self.selected_output.is_none() || self.selected_seat.is_none() {
            self.terminal_after_response = Some(BackendError::Unavailable {
                message: String::from_str("River has no complete selected output or seat"),
            });
            return true;
        }
        let seat = match self.selected_seat {
            Some(seat) => seat,
            None => 0,
        };
        match find_seat(&self.seats, seat) {
            Some(k) => !any_seat_before(&self.seats, self.seats[k].1),
            None => true,
        }
    }

    /// Turn the gathered facts into the next policy turn.
    fn take_turn(&mut self) -> (r: Result<PolicyTurn, BackendError>)
        ensures
            spec_policy_capacity(old(self).replay, old(self).policy_events@) is Err ==> {
                &&& r == Err::<PolicyTurn, BackendError>(spec_policy_capacity(old(self).replay, old(self).policy_events@)->Err_0)
                &&& *final(self) == *old(self)
            },
            spec_policy_capacity(old(self).replay, old(self).policy_events@) is Ok && old(self).next_turn == u64::MAX ==> {
                &&& r == Err::<PolicyTurn, BackendError>(
                    BackendError::Capacity { resource: BackendCapacityResource::PolicyTurnIds, limit: u64::MAX },
                )
                &&& *final(self) == *old(self)
            },
            spec_policy_capacity(old(self).replay, old(self).policy_events@) is Ok && old(self).next_turn < u64::MAX ==> {
                &&& r matches Ok(turn)
                &&& turn.id@ == old(self).next_turn + 1
                &&& turn.drains == old(self).drain_ticket
                &&& turn.events@ == old(self).policy_events@
                &&& *final(self) == (RiverObjects {
                    next_turn: (old(self).next_turn + 1) as u64,
                    open_turn: Some(turn.id),
                    drain_ticket: None,
                    replay: false,
                    policy_events: final(self).policy_events,
                    ..*old(self)
                })
                &&& final(self).policy_events@.len() == 0
            },
    {
        match validate_policy_capacity(self.replay, &self.policy_events) {
            Ok(()) => {},
            Err(e) => {
                return Err(e);
            },
        }
        if self.next_turn == u64::MAX {
            return Err(capacity(BackendCapacityResource::PolicyTurnIds, u64::MAX));
        }
        let next = self.next_turn + 1;
        let id = match BackendPolicyTurnId::new(next) {
            Some(id) => id,
            None => {
                return Err(protocol_error());
            },
        };
        self.next_turn = next;
        let mut events: Vec<PolicyFact> = Vec::new();
        std::mem::swap(&mut events, &mut self.policy_events);
        self.open_turn = Some(id);
        let drains = self.drain_ticket;
        self.drain_ticket = None;
        self.replay = false;
        Ok(PolicyTurn { id, drains, events })
    }

    /// Close the current policy turn.
    pub fn finish_policy_turn(&mut self) -> (r: Result<PolicyTurn, BackendError>)
        ensures
            spec_finish_policy_turn(*old(self), *final(self), r),
    {
        if !open_pending_windows(&mut self.windows, &mut self.policy_events) {
            return Err(protocol_error());
        }
        proof {
            assert(old(self).windows@.take(old(self).windows@.len() as int) =~= old(self).windows@);
            assert(self.windows@ =~= old(self).windows@.map_values(|w: WindowRecord| settle(w)));
        }
        self.select_output();
        if !self.check_selection() {
            proof {
                let facts = closing_facts(*old(self));
                assert(self.policy_events@ =~= facts.take(facts.len() - (if old(self).replay { 1int } else { 0int })));
            }
            return Err(protocol_error());
        }
        if self.replay {
            self.policy_events.push(PolicyFact::InitialReplayComplete);
        }
        proof {
            assert(self.policy_events@ =~= closing_facts(*old(self)));
        }
        self.take_turn()
    }
    /// Bind a live window identity to the Realm window Session allocated.
    #[verifier::spinoff_prover]
    pub fn assign_window(&mut self, backend_id: &BackendWindowId, win: u64) -> (r: Result<(), BackendContractError>)
        ensures
            spec_assign_window(*old(self), *final(self), r, *backend_id, win),
    {
        let k = match find_window_id(&self.window_ids, backend_id) {
            Some(k) => k,
            None => {
                return Err(BackendContractError::UnknownWindow { backend_id: backend_id.clone() });
            },
        };
        let object = self.window_ids[k].1;
        let i = match find_window(&self.windows, object) {
            Some(i) => i,
            None => {
                return Err(BackendContractError::UnknownWindow { backend_id: backend_id.clone() });
            },
        };
        match self.windows[i].assigned {
            Some(assigned) => {
                return if assigned == win {
                    Ok(())
                } else {
                    Err(BackendContractError::ConflictingBackendIdentity)
                };
            },
            None => {},
        }
        if find_realm(&self.realm_ids, win).is_some() {
            return Err(BackendContractError::ConflictingRealmIdentity);
        }
        let mut w = self.windows.remove(i);
        w.assigned = Some(win);
        self.windows.insert(i, w);
        self.realm_ids.push((win, backend_id.clone()));
        proof {
            assert(self.windows@ =~= old(self).windows@.update(
                i as int,
                WindowRecord { assigned: Some(win), ..old(self).windows@[i as int] },
            ));
        }
        Ok(())
    }
    /// Configure the binding mechanisms the selected seat will bind.
    pub fn configure_bindings(&mut self, bindings: Vec<BackendBindingSpec>) -> (r: Result<(), BackendError>)
        ensures
            spec_configure_bindings(*old(self), *final(self), r, bindings@),
    {
        if self.selected_seat.is_some() || self.binding_objects.len() > 0 {
            return Err(protocol_error());
        }
        if bindings.len() > MAX_CONFIGURED_BINDINGS {
            return Err(capacity(BackendCapacityResource::ConfiguredBindings, MAX_CONFIGURED_BINDINGS as u64));
        }
        let ghost bs = bindings@;
        let mut rest = bindings;
        let mut configured: Vec<BackendBindingSpec> = Vec::new();
        let mut j: usize = 0;
        while rest.len() > 0
            invariant
                *self == *old(self),
                old(self).selected_seat is None,
                old(self).binding_objects@.len() == 0,
                bs == bindings@,
                bs.len() <= MAX_CONFIGURED_BINDINGS,
                j <= bs.len(),
                rest@ == bs.skip(j as int),
                forall|x: int| 0 <= x < j ==> binding_valid(#[trigger] bs[x]),
                binding_ids_distinct(bs.take(j as int)),
                configured@ == sort_by_id(bs.take(j as int)),
                sorted_by_id(configured@),
                forall|x: u32| #![trigger has_id(bs.take(j as int), x)] has_id(bs.take(j as int), x) == has_id(configured@, x),
                configured@.len() == j,
            decreases rest@.len(),
        {
            let b = rest.remove(0);
            proof {
                assert(b == bs[j as int]);
            }
            if keysym(b.keysym.as_str()).is_none() || !canonical_modifiers(b.modifiers.as_slice()) {
                proof {
                    assert(!binding_valid(bs[j as int]));
                }
                return Err(protocol_error());
            }
            let k = match slot_for(&configured, b.id) {
                Some(k) => k,
                None => {
                    proof {
                        let x = b.id@;
                        assert(has_id(configured@, x));
                        assert(has_id(bs.take(j as int), x));
                        let i = choose|i: int| 0 <= i < j && (#[trigger] bs.take(j as int)[i]).id@ == x;
                        assert(bs[i] == bs.take(j as int)[i]);
                        assert(bs[i].id@ == bs[j as int].id@);
                    }
                    return Err(protocol_error());
                },
            };
            configured.insert(k, b);
            proof {
                let t = bs.take(j as int + 1);
                assert(t.drop_last() =~= bs.take(j as int));
                assert(binding_ids_distinct(t)) by {
                    assert forall|a: int, c: int| 0 <= a < c < t.len() implies t[a].id != t[c].id by {
                        if c == j as int {
                            let x = t[a].id@;
                            assert(bs.take(j as int)[a] == t[a]);
                            if t[a].id == t[c].id {
                                assert(has_id(bs.take(j as int), x));
                            }
                        } else {
                            assert(t[a] == bs.take(j as int)[a] && t[c] == bs.take(j as int)[c]);
                        }
                    }
                }
                lemma_sort_by_id(t);
                assert(rest@ =~= bs.skip(j as int + 1));
            }
            j = j + 1;
        }
        proof {
            assert(bs.take(j as int) =~= bs);
        }
        self.bindings = configured;
        Ok(())
    }
}

} // verus!
