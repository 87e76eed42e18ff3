//! Admission of one backend policy turn before the session reduces it.
//!
//! A turn is admitted only if its identity advances, it matches the open
//! transaction, it respects the one-shot replay barrier, every window and
//! binding it names is known, and it stays within the fact, window, text and
//! effect capacities. The first violation, in report order, decides the
//! error.
use vstd::prelude::*;

use crate::backend::{
    BackendBindingId, BackendCapacityResource, BackendContractError, BackendError,
    BackendModifier, BackendPolicyTurnId, BackendTicket, BackendWindowId, MAX_MANAGED_WINDOWS,
    MAX_POLICY_EVENTS, MAX_POLICY_TEXT_BYTES, MAX_REPLAY_POLICY_EVENTS, MAX_STAGED_EFFECTS,
};
use crate::session::{canonical_modifiers, spec_canonical_modifiers, RecoveryPhase};

verus! {

/// One policy fact, holding what admission reads of it.
///
/// The workarea and drift rectangles are not read by admission and are not
/// carried.
#[derive(Debug, PartialEq, Eq)]
pub enum PolicyFact {
    /// The initial replay is complete.
    InitialReplayComplete,
    /// A new window became manageable.
    WindowOpened {
        /// Stable compositor identity.
        backend_id: BackendWindowId,
        /// Application identifier.
        app_id: String,
        /// Window title.
        title: String,
    },
    /// A managed window closed.
    WindowClosed(BackendWindowId),
    /// A managed window title changed.
    TitleChanged {
        /// Stable compositor identity.
        backend_id: BackendWindowId,
        /// New title.
        title: String,
    },
    /// Compositor keyboard focus changed.
    FocusChanged(Option<BackendWindowId>),
    /// Exclusive layer focus changed.
    ExclusiveFocusChanged(bool),
    /// The selected output workarea changed.
    WorkareaChanged {
        /// The selected output's rectangle: x, y, width, height.
        output: (i32, i32, i32, i32),
        /// The rectangle left for tiled windows: x, y, width, height.
        tiles: (i32, i32, i32, i32),
    },
    /// The compositor moved a window independently.
    GeometryDrifted {
        /// Stable compositor identity.
        backend_id: BackendWindowId,
    },
    /// A configured binding was pressed.
    BindingPressed(BackendBindingId),
    /// A configured binding was released.
    BindingReleased(BackendBindingId),
    /// The compositor stopped repeating a binding.
    BindingRepeatStopped(BackendBindingId),
    /// An ensured otherwise-unbound key was consumed.
    UnboundKeyEaten,
    /// Watched modifier state changed.
    ModifiersChanged {
        /// Previous modifier state.
        old: Vec<BackendModifier>,
        /// New modifier state.
        new: Vec<BackendModifier>,
    },
}

/// The plain value of a policy fact.
pub enum PolicyFactValue {
    /// The initial replay is complete.
    InitialReplayComplete,
    /// A new window became manageable.
    WindowOpened { backend_id: Seq<char>, app_id: Seq<char>, title: Seq<char> },
    /// A managed window closed.
    WindowClosed(Seq<char>),
    /// A managed window title changed.
    TitleChanged { backend_id: Seq<char>, title: Seq<char> },
    /// Compositor keyboard focus changed.
    FocusChanged(Option<Seq<char>>),
    /// Exclusive layer focus changed.
    ExclusiveFocusChanged(bool),
    /// The selected output workarea changed.
    WorkareaChanged { output: (i32, i32, i32, i32), tiles: (i32, i32, i32, i32) },
    /// The compositor moved a window independently.
    GeometryDrifted { backend_id: Seq<char> },
    /// A configured binding was pressed.
    BindingPressed(u32),
    /// A configured binding was released.
    BindingReleased(u32),
    /// The compositor stopped repeating a binding.
    BindingRepeatStopped(u32),
    /// An ensured otherwise-unbound key was consumed.
    UnboundKeyEaten,
    /// Watched modifier state changed.
    ModifiersChanged { old: Seq<BackendModifier>, new: Seq<BackendModifier> },
}

impl View for PolicyFact {
    type V = PolicyFactValue;

    open spec fn view(&self) -> PolicyFactValue {
        match self {
            PolicyFact::InitialReplayComplete => PolicyFactValue::InitialReplayComplete,
            PolicyFact::WindowOpened { backend_id, app_id, title } => PolicyFactValue::WindowOpened {
                backend_id: backend_id@,
                app_id: app_id@,
                title: title@,
            },
            PolicyFact::WindowClosed(id) => PolicyFactValue::WindowClosed(id@),
            PolicyFact::TitleChanged { backend_id, title } => PolicyFactValue::TitleChanged {
                backend_id: backend_id@,
                title: title@,
            },
            PolicyFact::FocusChanged(id) => PolicyFactValue::FocusChanged(
                match id {
                    Some(id) => Some(id@),
                    None => None,
                },
            ),
            PolicyFact::ExclusiveFocusChanged(b) => PolicyFactValue::ExclusiveFocusChanged(*b),
            PolicyFact::WorkareaChanged { output, tiles } => PolicyFactValue::WorkareaChanged { output: *output, tiles: *tiles },
            PolicyFact::GeometryDrifted { backend_id } => PolicyFactValue::GeometryDrifted {
                backend_id: backend_id@,
            },
            PolicyFact::BindingPressed(id) => PolicyFactValue::BindingPressed(id@),
            PolicyFact::BindingReleased(id) => PolicyFactValue::BindingReleased(id@),
            PolicyFact::BindingRepeatStopped(id) => PolicyFactValue::BindingRepeatStopped(id@),
            PolicyFact::UnboundKeyEaten => PolicyFactValue::UnboundKeyEaten,
            PolicyFact::ModifiersChanged { old, new } => PolicyFactValue::ModifiersChanged {
                old: old@,
                new: new@,
            },
        }
    }
}

impl PolicyFact {
    /// A copy of the fact with the same value.
    pub fn copy(&self) -> (c: Self)
        ensures
            c@ == self@,
    {
        match self {
            PolicyFact::InitialReplayComplete => PolicyFact::InitialReplayComplete,
            PolicyFact::WindowOpened { backend_id, app_id, title } => PolicyFact::WindowOpened {
                backend_id: backend_id.clone(),
                app_id: app_id.clone(),
                title: title.clone(),
            },
            PolicyFact::WindowClosed(id) => PolicyFact::WindowClosed(id.clone()),
            PolicyFact::TitleChanged { backend_id, title } => PolicyFact::TitleChanged {
                backend_id: backend_id.clone(),
                title: title.clone(),
            },
            PolicyFact::FocusChanged(id) => PolicyFact::FocusChanged(
                match id {
                    Some(id) => Some(id.clone()),
                    None => None,
                },
            ),
            PolicyFact::ExclusiveFocusChanged(b) => PolicyFact::ExclusiveFocusChanged(*b),
            PolicyFact::WorkareaChanged { output, tiles } => PolicyFact::WorkareaChanged { output: *output, tiles: *tiles },
            PolicyFact::GeometryDrifted { backend_id } => PolicyFact::GeometryDrifted {
                backend_id: backend_id.clone(),
            },
            PolicyFact::BindingPressed(id) => PolicyFact::BindingPressed(*id),
            PolicyFact::BindingReleased(id) => PolicyFact::BindingReleased(*id),
            PolicyFact::BindingRepeatStopped(id) => PolicyFact::BindingRepeatStopped(*id),
            PolicyFact::UnboundKeyEaten => PolicyFact::UnboundKeyEaten,
            PolicyFact::ModifiersChanged { old, new } => {
                let o = old.clone();
                let n = new.clone();
                assert(o@ =~= old@);
                assert(n@ =~= new@);
                PolicyFact::ModifiersChanged { old: o, new: n }
            },
        }
    }
}

/// Complete report-order batch preceding one mandatory compositor response.
#[derive(Debug)]
pub struct PolicyTurn {
    /// Backend-allocated turn identity.
    pub id: BackendPolicyTurnId,
    /// Operation whose separate empty drain marker this turn replaces.
    pub drains: Option<BackendTicket>,
    /// Ordered policy facts.
    pub events: Vec<PolicyFact>,
}

/// Where the session's backend transaction stands.
#[derive(Debug, Clone, Copy, PartialEq, Eq, Structural)]
pub enum TransactionSubstate {
    /// No transaction is open.
    Idle,
    /// An external action waits for its policy turn.
    AwaitingExternalTurn {
        /// The action's ticket.
        ticket: BackendTicket,
    },
    /// An internal action waits for its policy turn.
    AwaitingInternalTurn {
        /// The action's ticket.
        ticket: BackendTicket,
    },
    /// A response is being applied.
    InFlight {
        /// The response's ticket.
        ticket: BackendTicket,
    },
    /// A response waits for the turn that drains it.
    AwaitingDrain {
        /// The response's ticket.
        ticket: BackendTicket,
    },
}

/// What pressing a binding stages.
#[derive(Debug, Clone, Copy, PartialEq, Eq, Structural)]
pub enum BindingPress {
    /// The bound action stages no effect.
    NoEffect,
    /// The bound action stages one effect.
    Effect,
    /// The bound action is Quit: one effect, after which presses stage nothing.
    Quit,
}

/// One window of the authority a turn is checked against.
#[derive(Debug)]
pub struct PolicyWindow {
    /// Compositor identity mapped to a Realm window.
    pub backend_id: BackendWindowId,
    /// Whether the identity is bound in this incarnation and its Realm window exists.
    pub bound: bool,
}

/// What admission reads of the session.
#[derive(Debug)]
pub struct PolicyContext {
    /// Identity of the last admitted turn.
    pub last_turn: Option<BackendPolicyTurnId>,
    /// The backend transaction's position.
    pub transaction: TransactionSubstate,
    /// The session's recovery phase.
    pub phase: RecoveryPhase,
    /// The compositor identities of the working authority, one per mapped identity.
    pub windows: Vec<PolicyWindow>,
    /// Next numeric Realm window id of the working authority.
    pub next_win_id: u64,
    /// Effects already staged by the open transaction.
    pub staged_effects: usize,
    /// Whether the open transaction already staged a Quit.
    pub quit_staged: bool,
    /// Configured bindings and what pressing each stages.
    pub bindings: Vec<(BackendBindingId, BindingPress)>,
}

/// A session lifecycle failure caused by the backend's reports.
#[derive(Debug, PartialEq, Eq)]
pub enum SessionEventError {
    /// The compositor backend failed.
    Backend(BackendError),
    /// The backend violated its local identity or policy contract.
    BackendContract(BackendContractError),
    /// Every possible numeric window id has already been allocated.
    WindowIdExhausted,
    /// Every nonzero response ticket has been consumed.
    BackendTicketExhausted,
    /// The backend emitted its one-shot replay barrier more than once.
    RepeatedInitialReplayComplete,
    /// A policy fact cannot occur in the initial replay batch.
    UnexpectedInitialReplayEvent(PolicyFact),
    /// A lifecycle operation was invoked outside its accepted phase.
    InvalidLifecycleOperation {
        /// Stable operation name.
        operation: &'static str,
        /// Phase that rejected the operation.
        phase: RecoveryPhase,
    },
}

/// Why a turn is refused: an error value, or the report index of a fact
/// that cannot occur in the initial replay.
pub enum PolicyRefusal {
    /// The turn is refused with this error.
    Error(SessionEventError),
    /// The fact at this index cannot occur in the initial replay batch.
    UnexpectedAt(int),
}

/// A refusal carrying a contract violation.
pub open spec fn contract(e: BackendContractError) -> PolicyRefusal {
    PolicyRefusal::Error(SessionEventError::BackendContract(e))
}

/// A refusal for an exhausted capacity.
pub open spec fn capacity(resource: BackendCapacityResource, limit: usize) -> PolicyRefusal {
    PolicyRefusal::Error(SessionEventError::Backend(BackendError::Capacity { resource, limit: limit as u64 }))
}

/// UTF-8 byte length of a string, as `str::len` reports it.
pub open spec fn byte_len(s: Seq<char>) -> int {
    (vstd::utf8::encode_utf8(s).len() as usize) as int
}

/// Whether the turn's identity advances past the last admitted one.
pub open spec fn turn_advances(last: Option<BackendPolicyTurnId>, id: BackendPolicyTurnId) -> bool {
    match last {
        Some(l) => id@ > l@,
        None => true,
    }
}

/// Whether a turn's drain marker matches the transaction.
pub open spec fn drain_matches(t: TransactionSubstate, drains: Option<BackendTicket>) -> bool {
    match t {
        TransactionSubstate::Idle
        | TransactionSubstate::AwaitingExternalTurn { .. }
        | TransactionSubstate::AwaitingInternalTurn { .. } => drains is None,
        TransactionSubstate::AwaitingDrain { ticket } => drains == Some(ticket),
        TransactionSubstate::InFlight { .. } => false,
    }
}

/// Number of replay barriers among the facts.
pub open spec fn barrier_count(events: Seq<PolicyFact>) -> nat
    decreases events.len(),
{
    if events.len() == 0 {
        0
    } else {
        barrier_count(events.drop_last()) + if events.last() is InitialReplayComplete { 1nat } else { 0nat }
    }
}

/// Replay-batch screening of a prefix: how many focus and exclusive-focus
/// facts it holds, or the first fact that is not allowed.
pub open spec fn replay_screen(events: Seq<PolicyFact>) -> Result<(nat, nat), PolicyRefusal>
    decreases events.len(),
{
    if events.len() == 0 {
        Ok((0, 0))
    } else {
        match replay_screen(events.drop_last()) {
            Err(r) => Err(r),
            Ok((focus, exclusive)) => match events.last() {
                PolicyFact::WindowOpened { .. } | PolicyFact::InitialReplayComplete => Ok((focus, exclusive)),
                PolicyFact::FocusChanged(_) => if focus + 1 > 1 {
                    Err(contract(BackendContractError::InvalidPolicySequence))
                } else {
                    Ok((focus + 1, exclusive))
                },
                PolicyFact::ExclusiveFocusChanged(_) => if exclusive + 1 > 1 {
                    Err(contract(BackendContractError::InvalidPolicySequence))
                } else {
                    Ok((focus, exclusive + 1))
                },
                _ => Err(PolicyRefusal::UnexpectedAt(events.len() - 1)),
            },
        }
    }
}

/// The running state of admission over the facts.
pub struct PolicyScan {
    /// Identities the turn may reference.
    pub known: Set<Seq<char>>,
    /// Identities of live managed windows.
    pub live: Set<Seq<char>>,
    /// Number of live managed windows.
    pub live_count: int,
    /// Identities mapped to a Realm window id.
    pub mapped: Set<Seq<char>>,
    /// Next numeric Realm window id.
    pub next_win_id: int,
    /// Text bytes reported so far.
    pub text_bytes: int,
    /// Effects staged so far.
    pub effects: int,
    /// Whether a Quit was staged.
    pub quit_seen: bool,
}

/// The identities of a window list, optionally only the bound ones.
pub open spec fn window_ids(ws: Seq<PolicyWindow>, bound_only: bool) -> Set<Seq<char>>
    decreases ws.len(),
{
    if ws.len() == 0 {
        Set::empty()
    } else {
        let rest = window_ids(ws.drop_last(), bound_only);
        if !bound_only || ws.last().bound {
            rest.insert(ws.last().backend_id@)
        } else {
            rest
        }
    }
}

/// The number of distinct bound identities of a window list.
pub open spec fn bound_count(ws: Seq<PolicyWindow>) -> int
    decreases ws.len(),
{
    if ws.len() == 0 {
        0
    } else {
        let rest = window_ids(ws.drop_last(), true);
        bound_count(ws.drop_last()) + if ws.last().bound && !rest.contains(ws.last().backend_id@) {
            1int
        } else {
            0int
        }
    }
}

/// Admission's starting state.
pub open spec fn initial_scan(ctx: &PolicyContext, replay: bool) -> PolicyScan {
    let known = if replay { Set::empty() } else { window_ids(ctx.windows@, true) };
    PolicyScan {
        known,
        live: known,
        live_count: if replay { 0 } else { bound_count(ctx.windows@) },
        mapped: window_ids(ctx.windows@, false),
        next_win_id: ctx.next_win_id as int,
        text_bytes: 0,
        effects: ctx.staged_effects as int,
        quit_seen: ctx.quit_staged,
    }
}

/// What pressing a configured binding stages, if the binding is configured.
pub open spec fn binding_press(bs: Seq<(BackendBindingId, BindingPress)>, id: BackendBindingId) -> Option<BindingPress>
    decreases bs.len(),
{
    if bs.len() == 0 {
        None
    } else if bs[0].0 == id {
        Some(bs[0].1)
    } else {
        binding_press(bs.drop_first(), id)
    }
}

/// Admission of a binding fact.
pub open spec fn binding_step(ctx: &PolicyContext, s: PolicyScan, id: BackendBindingId, pressed: bool) -> Result<PolicyScan, PolicyRefusal> {
    match binding_press(ctx.bindings@, id) {
        None => Err(contract(BackendContractError::UnknownBinding { id })),
        Some(press) => if ctx.phase != RecoveryPhase::Live {
            Err(contract(BackendContractError::InvalidPolicySequence))
        } else if pressed && !s.quit_seen {
            PolicyScan {
                effects: s.effects + if press is NoEffect { 0int } else { 1int },
                quit_seen: press is Quit,
                ..s
            }.into_ok()
        } else {
            Ok(s)
        },
    }
}

impl PolicyScan {
    /// This state as an admitted step.
    pub open spec fn into_ok(self) -> Result<PolicyScan, PolicyRefusal> {
        Ok(self)
    }
}

/// Admission of one fact at index `k`.
#[verifier::opaque]
pub open spec fn scan_step(ctx: &PolicyContext, replay: bool, s: PolicyScan, e: PolicyFact, k: int) -> Result<PolicyScan, PolicyRefusal> {
    match e {
        PolicyFact::WindowOpened { backend_id, app_id, title } => {
            let id = backend_id@;
            let s = PolicyScan {
                text_bytes: s.text_bytes + byte_len(id) + byte_len(app_id@) + byte_len(title@),
                known: s.known.insert(id),
                live: s.live.insert(id),
                live_count: s.live_count + if s.live.contains(id) { 0int } else { 1int },
                ..s
            };
            if !s.mapped.contains(id) && s.next_win_id == u64::MAX {
                Err(PolicyRefusal::Error(SessionEventError::WindowIdExhausted))
            } else {
                let s = if s.mapped.contains(id) {
                    s
                } else {
                    PolicyScan { mapped: s.mapped.insert(id), next_win_id: s.next_win_id + 1, ..s }
                };
                if s.live_count > MAX_MANAGED_WINDOWS {
                    Err(capacity(BackendCapacityResource::ManagedWindows, MAX_MANAGED_WINDOWS))
                } else {
                    Ok(s)
                }
            }
        },
        PolicyFact::WindowClosed(backend_id) => {
            let id = backend_id@;
            if !s.known.contains(id) {
                Err(contract(BackendContractError::UnknownWindowReference))
            } else if replay {
                Err(PolicyRefusal::UnexpectedAt(k))
            } else {
                Ok(PolicyScan {
                    text_bytes: s.text_bytes + byte_len(id),
                    known: s.known.remove(id),
                    live: s.live.remove(id),
                    live_count: s.live_count - if s.live.contains(id) { 1int } else { 0int },
                    mapped: s.mapped.remove(id),
                    ..s
                })
            }
        },
        PolicyFact::TitleChanged { backend_id, title } => {
            if replay {
                Err(PolicyRefusal::UnexpectedAt(k))
            } else if !s.known.contains(backend_id@) {
                Err(contract(BackendContractError::UnknownWindowReference))
            } else {
                Ok(PolicyScan { text_bytes: s.text_bytes + byte_len(backend_id@) + byte_len(title@), ..s })
            }
        },
        PolicyFact::FocusChanged(Some(backend_id)) => {
            if !s.known.contains(backend_id@) {
                Err(contract(BackendContractError::UnknownWindowReference))
            } else {
                Ok(PolicyScan { text_bytes: s.text_bytes + byte_len(backend_id@), ..s })
            }
        },
        PolicyFact::FocusChanged(None) | PolicyFact::ExclusiveFocusChanged(_) => Ok(s),
        PolicyFact::WorkareaChanged { .. } => if replay {
            Err(PolicyRefusal::UnexpectedAt(k))
        } else {
            Ok(s)
        },
        PolicyFact::GeometryDrifted { backend_id } => {
            if replay {
                Err(PolicyRefusal::UnexpectedAt(k))
            } else if !s.known.contains(backend_id@) {
                Err(contract(BackendContractError::UnknownWindowReference))
            } else {
                Ok(PolicyScan { text_bytes: s.text_bytes + byte_len(backend_id@), ..s })
            }
        },
        PolicyFact::BindingPressed(id) => binding_step(ctx, s, id, true),
        PolicyFact::BindingReleased(id) => binding_step(ctx, s, id, false),
        PolicyFact::BindingRepeatStopped(id) => binding_step(ctx, s, id, false),
        PolicyFact::UnboundKeyEaten => if ctx.phase != RecoveryPhase::Live {
            Err(contract(BackendContractError::InvalidPolicySequence))
        } else {
            Ok(s)
        },
        PolicyFact::ModifiersChanged { old, new } => if !spec_canonical_modifiers(old@)
            || !spec_canonical_modifiers(new@) {
            Err(contract(BackendContractError::NonCanonicalModifiers))
        } else {
            Ok(s)
        },
        PolicyFact::InitialReplayComplete => Ok(s),
    }
}

/// Admission of a prefix of the facts, in report order.
pub open spec fn scan_events(ctx: &PolicyContext, replay: bool, events: Seq<PolicyFact>) -> Result<PolicyScan, PolicyRefusal>
    decreases events.len(),
{
    if events.len() == 0 {
        Ok(initial_scan(ctx, replay))
    } else {
        match scan_events(ctx, replay, events.drop_last()) {
            Err(r) => Err(r),
            Ok(s) => scan_step(ctx, replay, s, events.last(), events.len() - 1),
        }
    }
}

/// The admission decision for one turn.
pub open spec fn spec_validate_policy_turn(ctx: &PolicyContext, turn: &PolicyTurn) -> Result<(), PolicyRefusal> {
    let events = turn.events@;
    let replay = ctx.phase == RecoveryPhase::InitialReplay;
    let limit = if replay { MAX_REPLAY_POLICY_EVENTS } else { MAX_POLICY_EVENTS };
    if !turn_advances(ctx.last_turn, turn.id) || !drain_matches(ctx.transaction, turn.drains) {
        Err(contract(BackendContractError::InvalidPolicySequence))
    } else if replay && (barrier_count(events) != 1 || events.len() == 0
        || !(events.last() is InitialReplayComplete)) {
        Err(contract(BackendContractError::InvalidPolicySequence))
    } else if replay && replay_screen(events) is Err {
        Err(replay_screen(events)->Err_0)
    } else if !replay && barrier_count(events) > 0 {
        Err(PolicyRefusal::Error(SessionEventError::RepeatedInitialReplayComplete))
    } else if events.len() > limit {
        Err(capacity(BackendCapacityResource::PolicyFacts, limit))
    } else {
        match scan_events(ctx, replay, events) {
            Err(r) => Err(r),
            Ok(s) => if s.text_bytes > MAX_POLICY_TEXT_BYTES {
                Err(capacity(BackendCapacityResource::PolicyTextBytes, MAX_POLICY_TEXT_BYTES))
            } else if s.effects > MAX_STAGED_EFFECTS {
                Err(capacity(BackendCapacityResource::PolicyEffects, MAX_STAGED_EFFECTS))
            } else {
                Ok(())
            },
        }
    }
}

/// The identities marked in a flag vector.
pub open spec fn flagged(ids: Seq<Seq<char>>, flags: Seq<bool>) -> Set<Seq<char>> {
    Set::new(|x: Seq<char>| exists|i: int| 0 <= i < ids.len() && #[trigger] flags[i] && ids[i] == x)
}

/// Whether identities are pairwise distinct.
pub open spec fn distinct(ids: Seq<Seq<char>>) -> bool {
    forall|i: int, j: int| 0 <= i < ids.len() && 0 <= j < ids.len() && i != j ==> #[trigger] ids[i] != #[trigger] ids[j]
}

/// A value saturated at `usize::MAX`.
pub open spec fn saturated(v: int) -> int {
    if v > usize::MAX { usize::MAX as int } else { v }
}

/// Executable admission state: every identity seen, with its set flags.
struct ScanState {
    ids: Vec<Vec<char>>,
    known: Vec<bool>,
    live: Vec<bool>,
    mapped: Vec<bool>,
    live_count: u128,
    next_win_id: u64,
    text_bytes: usize,
    effects: usize,
    quit_seen: bool,
}

impl ScanState {
    spec fn id_views(&self) -> Seq<Seq<char>> {
        self.ids@.map_values(|v: Vec<char>| v@)
    }

    spec fn wf(&self) -> bool {
        &&& self.known@.len() == self.ids@.len()
        &&& self.live@.len() == self.ids@.len()
        &&& self.mapped@.len() == self.ids@.len()
        &&& distinct(self.id_views())
    }

    spec fn models(&self, s: PolicyScan) -> bool {
        &&& self.wf()
        &&& flagged(self.id_views(), self.known@) == s.known
        &&& flagged(self.id_views(), self.live@) == s.live
        &&& flagged(self.id_views(), self.mapped@) == s.mapped
        &&& self.live_count as int == s.live_count
        &&& s.live.finite()
        &&& s.live_count == s.live.len()
        &&& self.next_win_id as int == s.next_win_id
        &&& self.text_bytes as int == saturated(s.text_bytes)
        &&& self.effects as int == saturated(s.effects)
        &&& self.quit_seen == s.quit_seen
        &&& s.text_bytes >= 0
        &&& s.effects >= 0
    }
}

/// A flag set at the slot of `x` adds `x`.
proof fn lemma_flag_set(ids: Seq<Seq<char>>, flags: Seq<bool>, i: int, x: Seq<char>)
    requires
        0 <= i < ids.len(),
        flags.len() == ids.len(),
        ids[i] == x,
    ensures
        flagged(ids, flags.update(i, true)) == flagged(ids, flags).insert(x),
{
    assert forall|y: Seq<char>| #[trigger] flagged(ids, flags.update(i, true)).contains(y) == flagged(ids, flags).insert(x).contains(y) by {
        if flagged(ids, flags.update(i, true)).contains(y) {
            let j = choose|j: int| 0 <= j < ids.len() && #[trigger] flags.update(i, true)[j] && ids[j] == y;
            if j != i {
                assert(flags[j]);
            }
        }
        if flagged(ids, flags).contains(y) {
            let j = choose|j: int| 0 <= j < ids.len() && #[trigger] flags[j] && ids[j] == y;
            assert(flags.update(i, true)[j] || j == i);
            assert(flags.update(i, true)[j]);
        }
        if y == x {
            assert(flags.update(i, true)[i]);
        }
    }
    assert(flagged(ids, flags.update(i, true)) =~= flagged(ids, flags).insert(x));
}

/// A flag cleared at the slot of a distinct `x` removes `x`.
proof fn lemma_flag_clear(ids: Seq<Seq<char>>, flags: Seq<bool>, i: int, x: Seq<char>)
    requires
        0 <= i < ids.len(),
        flags.len() == ids.len(),
        ids[i] == x,
        distinct(ids),
    ensures
        flagged(ids, flags.update(i, false)) == flagged(ids, flags).remove(x),
{
    assert forall|y: Seq<char>| #[trigger] flagged(ids, flags.update(i, false)).contains(y) == flagged(ids, flags).remove(x).contains(y) by {
        if flagged(ids, flags.update(i, false)).contains(y) {
            let j = choose|j: int| 0 <= j < ids.len() && #[trigger] flags.update(i, false)[j] && ids[j] == y;
            assert(j != i);
            assert(flags[j]);
            assert(ids[j] != ids[i]);
        }
        if flagged(ids, flags).remove(x).contains(y) {
            let j = choose|j: int| 0 <= j < ids.len() && #[trigger] flags[j] && ids[j] == y;
            assert(j != i);
            assert(flags.update(i, false)[j]);
        }
    }
    assert(flagged(ids, flags.update(i, false)) =~= flagged(ids, flags).remove(x));
}

/// With distinct identities, membership is the flag at the identity's slot.
proof fn lemma_flag_member(ids: Seq<Seq<char>>, flags: Seq<bool>, i: int)
    requires
        0 <= i < ids.len(),
        flags.len() == ids.len(),
        distinct(ids),
    ensures
        flagged(ids, flags).contains(ids[i]) == flags[i],
{
    if flagged(ids, flags).contains(ids[i]) {
        let j = choose|j: int| 0 <= j < ids.len() && #[trigger] flags[j] && ids[j] == ids[i];
        assert(j == i);
    }
    if flags[i] {
        assert(flagged(ids, flags).contains(ids[i]));
    }
}

/// A new unflagged slot changes no set.
proof fn lemma_flag_push(ids: Seq<Seq<char>>, flags: Seq<bool>, x: Seq<char>)
    requires
        flags.len() == ids.len(),
    ensures
        flagged(ids.push(x), flags.push(false)) == flagged(ids, flags),
{
    assert forall|y: Seq<char>| #[trigger] flagged(ids.push(x), flags.push(false)).contains(y) == flagged(ids, flags).contains(y) by {
        if flagged(ids.push(x), flags.push(false)).contains(y) {
            let j = choose|j: int| 0 <= j < ids.push(x).len() && #[trigger] flags.push(false)[j] && ids.push(x)[j] == y;
            assert(j < ids.len());
            assert(flags[j]);
        }
        if flagged(ids, flags).contains(y) {
            let j = choose|j: int| 0 <= j < ids.len() && #[trigger] flags[j] && ids[j] == y;
            assert(flags.push(false)[j]);
            assert(ids.push(x)[j] == y);
        }
    }
    assert(flagged(ids.push(x), flags.push(false)) =~= flagged(ids, flags));
}

/// The slot holding an identity, if any.
fn find_id(ids: &Vec<Vec<char>>, x: &Vec<char>) -> (r: Option<usize>)
    ensures
        match r {
            Some(i) => i < ids@.len() && ids@[i as int]@ == x@,
            None => forall|i: int| 0 <= i < ids@.len() ==> ids@[i]@ != x@,
        },
{
    let mut i: usize = 0;
    while i < ids.len()
        invariant
            i <= ids@.len(),
            forall|k: int| 0 <= k < i ==> ids@[k]@ != x@,
        decreases ids.len() - i,
    {
        if crate::text::chars_equal(&ids[i], x) {
            return Some(i);
        }
        i = i + 1;
    }
    None
}

impl ScanState {
    /// The slot of `x`, adding an unflagged one if it has none.
    fn slot(&mut self, x: Vec<char>) -> (i: usize)
        requires
            old(self).wf(),
        ensures
            final(self).wf(),
            i < final(self).ids@.len(),
            final(self).id_views()[i as int] == x@,
            flagged(final(self).id_views(), final(self).known@) == flagged(old(self).id_views(), old(self).known@),
            flagged(final(self).id_views(), final(self).live@) == flagged(old(self).id_views(), old(self).live@),
            flagged(final(self).id_views(), final(self).mapped@) == flagged(old(self).id_views(), old(self).mapped@),
            final(self).live_count == old(self).live_count,
            final(self).next_win_id == old(self).next_win_id,
            final(self).text_bytes == old(self).text_bytes,
            final(self).effects == old(self).effects,
            final(self).quit_seen == old(self).quit_seen,
            final(self).ids@.len() <= old(self).ids@.len() + 1,
            old(self).live@ == old(self).known@ ==> final(self).live@ == final(self).known@,
    {
        match find_id(&self.ids, &x) {
            Some(i) => {
                assert(self.id_views()[i as int] == self.ids@[i as int]@);
                i
            },
            None => {
                let ghost before = self.id_views();
                let ghost xv = x@;
                let ghost k0 = self.known@;
                let ghost l0 = self.live@;
                let ghost m0 = self.mapped@;
                self.ids.push(x);
                self.known.push(false);
                self.live.push(false);
                self.mapped.push(false);
                proof {
                    assert(self.id_views() =~= before.push(xv));
                    lemma_flag_push(before, k0, xv);
                    lemma_flag_push(before, l0, xv);
                    lemma_flag_push(before, m0, xv);
                    assert forall|a: int, b: int| 0 <= a < self.id_views().len() && 0 <= b < self.id_views().len()
                        && a != b implies #[trigger] self.id_views()[a] != #[trigger] self.id_views()[b] by {
                        if a < before.len() && b < before.len() {
                            assert(before[a] != before[b]);
                        } else if a < before.len() {
                            assert(before[a] == self.ids@[a]@);
                        } else {
                            assert(before[b] == self.ids@[b]@);
                        }
                    }
                }
                self.ids.len() - 1
            },
        }
    }
}

/// The identity sets of a window list are finite, and the bound count is
/// the size of the bound set.
proof fn lemma_window_ids(ws: Seq<PolicyWindow>)
    ensures
        window_ids(ws, true).finite(),
        window_ids(ws, false).finite(),
        bound_count(ws) == window_ids(ws, true).len(),
    decreases ws.len(),
{
    if ws.len() > 0 {
        lemma_window_ids(ws.drop_last());
    }
}

/// Saturating addition of a nonnegative amount commutes with saturation.
proof fn lemma_sat_add(x: int, a: int)
    requires
        x >= 0,
        a >= 0,
    ensures
        (if saturated(x) + a > usize::MAX { usize::MAX as int } else { saturated(x) + a }) == saturated(x + a),
{
}

/// The characters of a window identity.
fn id_chars(id: &BackendWindowId) -> (v: Vec<char>)
    ensures
        v@ == id@,
{
    crate::text::chars_of(id.as_str())
}

/// What pressing a configured binding stages.
fn find_binding(bs: &Vec<(BackendBindingId, BindingPress)>, id: BackendBindingId) -> (r: Option<BindingPress>)
    ensures
        r == binding_press(bs@, id),
{
    let mut i: usize = 0;
    proof {
        assert(bs@.skip(0) =~= bs@);
    }
    while i < bs.len()
        invariant
            i <= bs@.len(),
            binding_press(bs@, id) == binding_press(bs@.skip(i as int), id),
        decreases bs.len() - i,
    {
        proof {
            assert(bs@.skip(i as int)[0] == bs@[i as int]);
            assert(bs@.skip(i as int).drop_first() =~= bs@.skip(i + 1));
        }
        if bs[i].0 == id {
            return Some(bs[i].1);
        }
        i = i + 1;
    }
    proof {
        assert(bs@.skip(i as int).len() == 0);
    }
    None
}

/// The executable contract error.
fn contract_error(e: BackendContractError) -> (r: SessionEventError)
    ensures
        r == SessionEventError::BackendContract(e),
{
    SessionEventError::BackendContract(e)
}

/// The executable capacity error.
fn capacity_error(resource: BackendCapacityResource, limit: usize) -> (r: SessionEventError)
    ensures
        r == SessionEventError::Backend(BackendError::Capacity { resource, limit: limit as u64 }),
{
    SessionEventError::Backend(BackendError::Capacity { resource, limit: limit as u64 })
}

/// The starting state of admission.
fn initial_state(ctx: &PolicyContext, replay: bool) -> (st: ScanState)
    ensures
        st.models(initial_scan(ctx, replay)),
        st.live_count <= ctx.windows@.len(),
{
    let mut st = ScanState {
        ids: Vec::new(),
        known: Vec::new(),
        live: Vec::new(),
        mapped: Vec::new(),
        live_count: 0,
        next_win_id: ctx.next_win_id,
        text_bytes: 0,
        effects: ctx.staged_effects,
        quit_seen: ctx.quit_staged,
    };
    let ghost ws = ctx.windows@;
    proof {
        assert(flagged(st.id_views(), st.known@) =~= Set::<Seq<char>>::empty());
        assert(flagged(st.id_views(), st.mapped@) =~= Set::<Seq<char>>::empty());
    }
    let mut k: usize = 0;
    while k < ctx.windows.len()
        invariant
            k <= ws.len(),
            ws == ctx.windows@,
            st.wf(),
            st.live@ == st.known@,
            flagged(st.id_views(), st.mapped@) == window_ids(ws.take(k as int), false),
            flagged(st.id_views(), st.known@) == if replay {
                Set::<Seq<char>>::empty()
            } else {
                window_ids(ws.take(k as int), true)
            },
            st.live_count as int == if replay { 0 } else { bound_count(ws.take(k as int)) },
            st.live_count <= k,
            st.next_win_id == ctx.next_win_id,
            st.text_bytes == 0,
            st.effects == ctx.staged_effects,
            st.quit_seen == ctx.quit_staged,
        decreases ws.len() - k,
    {
        let w = &ctx.windows[k];
        let ghost x = w.backend_id@;
        proof {
            assert(ws.take(k + 1).drop_last() =~= ws.take(k as int));
            assert(ws.take(k + 1).last() == ws[k as int]);
        }
        let i = st.slot(id_chars(&w.backend_id));
        proof {
            lemma_flag_set(st.id_views(), st.mapped@, i as int, x);
            lemma_window_ids(ws.take(k + 1));
        }
        st.mapped.set(i, true);
        if !replay && w.bound {
            proof {
                lemma_flag_member(st.id_views(), st.known@, i as int);
                lemma_flag_set(st.id_views(), st.known@, i as int, x);
            }
            if !st.known[i] {
                st.live_count = st.live_count + 1;
            }
            st.known.set(i, true);
            st.live.set(i, true);
        }
        k = k + 1;
    }
    proof {
        assert(ws.take(ws.len() as int) =~= ws);
        lemma_window_ids(ws);
    }
    st
}

/// Admit one fact at index `k`, updating the state.
fn scan_fact(ctx: &PolicyContext, replay: bool, st: &mut ScanState, e: &PolicyFact, k: usize, Ghost(s): Ghost<PolicyScan>) -> (r: Result<(), SessionEventError>)
    requires
        old(st).models(s),
        old(st).live_count < u128::MAX,
    ensures
        final(st).live_count <= old(st).live_count + 1,
        match scan_step(ctx, replay, s, *e, k as int) {
            Ok(s2) => r is Ok && final(st).models(s2),
            Err(PolicyRefusal::Error(err)) => r == Err::<(), SessionEventError>(err),
            Err(PolicyRefusal::UnexpectedAt(j)) => j == k && (r matches Err(
                SessionEventError::UnexpectedInitialReplayEvent(f),
            ) && f@ == e@),
        },
{
    proof {
        reveal(scan_step);
    }
    match e {
        PolicyFact::WindowOpened { backend_id, app_id, title } => {
            let ghost x = backend_id@;
            let a = backend_id.as_str().len();
            let b = app_id.as_str().len();
            let c = title.as_str().len();
            proof {
                lemma_sat_add(s.text_bytes, a as int);
                lemma_sat_add(s.text_bytes + a, b as int);
                lemma_sat_add(s.text_bytes + a + b, c as int);
            }
            st.text_bytes = st.text_bytes.saturating_add(a).saturating_add(b).saturating_add(c);
            let i = st.slot(id_chars(backend_id));
            proof {
                lemma_flag_member(st.id_views(), st.live@, i as int);
                lemma_flag_member(st.id_views(), st.mapped@, i as int);
                lemma_flag_set(st.id_views(), st.known@, i as int, x);
                lemma_flag_set(st.id_views(), st.live@, i as int, x);
                lemma_flag_set(st.id_views(), st.mapped@, i as int, x);
            }
            if !st.live[i] {
                st.live_count = st.live_count + 1;
            }
            st.known.set(i, true);
            st.live.set(i, true);
            if !st.mapped[i] {
                if st.next_win_id == u64::MAX {
                    return Err(SessionEventError::WindowIdExhausted);
                }
                st.next_win_id = st.next_win_id + 1;
                st.mapped.set(i, true);
            }
            if st.live_count > MAX_MANAGED_WINDOWS as u128 {
                return Err(capacity_error(BackendCapacityResource::ManagedWindows, MAX_MANAGED_WINDOWS));
            }
            Ok(())
        },
        PolicyFact::WindowClosed(backend_id) => {
            let ghost x = backend_id@;
            let i = st.slot(id_chars(backend_id));
            proof {
                lemma_flag_member(st.id_views(), st.known@, i as int);
                lemma_flag_member(st.id_views(), st.live@, i as int);
            }
            if !st.known[i] {
                return Err(contract_error(BackendContractError::UnknownWindowReference));
            }
            if replay {
                return Err(SessionEventError::UnexpectedInitialReplayEvent(e.copy()));
            }
            let a = backend_id.as_str().len();
            proof {
                lemma_sat_add(s.text_bytes, a as int);
                lemma_flag_clear(st.id_views(), st.known@, i as int, x);
                lemma_flag_clear(st.id_views(), st.live@, i as int, x);
                lemma_flag_clear(st.id_views(), st.mapped@, i as int, x);
            }
            st.text_bytes = st.text_bytes.saturating_add(a);
            if st.live[i] {
                proof {
                    assert(s.live.remove(x).len() + 1 == s.live.len());
                }
                st.live_count = st.live_count - 1;
            }
            st.known.set(i, false);
            st.live.set(i, false);
            st.mapped.set(i, false);
            Ok(())
        },
        PolicyFact::TitleChanged { backend_id, title } => {
            if replay {
                return Err(SessionEventError::UnexpectedInitialReplayEvent(e.copy()));
            }
            let i = st.slot(id_chars(backend_id));
            proof {
                lemma_flag_member(st.id_views(), st.known@, i as int);
            }
            if !st.known[i] {
                return Err(contract_error(BackendContractError::UnknownWindowReference));
            }
            let a = backend_id.as_str().len();
            let b = title.as_str().len();
            proof {
                lemma_sat_add(s.text_bytes, a as int);
                lemma_sat_add(s.text_bytes + a, b as int);
            }
            st.text_bytes = st.text_bytes.saturating_add(a).saturating_add(b);
            Ok(())
        },
        PolicyFact::FocusChanged(Some(backend_id)) => {
            let i = st.slot(id_chars(backend_id));
            proof {
                lemma_flag_member(st.id_views(), st.known@, i as int);
            }
            if !st.known[i] {
                return Err(contract_error(BackendContractError::UnknownWindowReference));
            }
            let a = backend_id.as_str().len();
            proof {
                lemma_sat_add(s.text_bytes, a as int);
            }
            st.text_bytes = st.text_bytes.saturating_add(a);
            Ok(())
        },
        PolicyFact::FocusChanged(None) | PolicyFact::ExclusiveFocusChanged(_) => Ok(()),
        PolicyFact::WorkareaChanged { .. } => {
            if replay {
                return Err(SessionEventError::UnexpectedInitialReplayEvent(e.copy()));
            }
            Ok(())
        },
        PolicyFact::GeometryDrifted { backend_id } => {
            if replay {
                return Err(SessionEventError::UnexpectedInitialReplayEvent(e.copy()));
            }
            let i = st.slot(id_chars(backend_id));
            proof {
                lemma_flag_member(st.id_views(), st.known@, i as int);
            }
            if !st.known[i] {
                return Err(contract_error(BackendContractError::UnknownWindowReference));
            }
            let a = backend_id.as_str().len();
            proof {
                lemma_sat_add(s.text_bytes, a as int);
            }
            st.text_bytes = st.text_bytes.saturating_add(a);
            Ok(())
        },
        PolicyFact::BindingPressed(id) => scan_binding(ctx, st, *id, true, Ghost(s)),
        PolicyFact::BindingReleased(id) => scan_binding(ctx, st, *id, false, Ghost(s)),
        PolicyFact::BindingRepeatStopped(id) => scan_binding(ctx, st, *id, false, Ghost(s)),
        PolicyFact::UnboundKeyEaten => {
            if ctx.phase != RecoveryPhase::Live {
                return Err(contract_error(BackendContractError::InvalidPolicySequence));
            }
            Ok(())
        },
        PolicyFact::ModifiersChanged { old, new } => {
            if !canonical_modifiers(old.as_slice()) || !canonical_modifiers(new.as_slice()) {
                return Err(contract_error(BackendContractError::NonCanonicalModifiers));
            }
            Ok(())
        },
        PolicyFact::InitialReplayComplete => Ok(()),
    }
}

/// Admit one binding fact.
fn scan_binding(ctx: &PolicyContext, st: &mut ScanState, id: BackendBindingId, pressed: bool, Ghost(s): Ghost<PolicyScan>) -> (r: Result<(), SessionEventError>)
    requires
        old(st).models(s),
    ensures
        final(st).live_count == old(st).live_count,
        match binding_step(ctx, s, id, pressed) {
            Ok(s2) => r is Ok && final(st).models(s2),
            Err(PolicyRefusal::Error(err)) => r == Err::<(), SessionEventError>(err),
            Err(PolicyRefusal::UnexpectedAt(_)) => false,
        },
{
    let press = match find_binding(&ctx.bindings, id) {
        Some(p) => p,
        None => return Err(contract_error(BackendContractError::UnknownBinding { id })),
    };
    if ctx.phase != RecoveryPhase::Live {
        return Err(contract_error(BackendContractError::InvalidPolicySequence));
    }
    if pressed && !st.quit_seen {
        let add: usize = match press {
            BindingPress::NoEffect => 0,
            _ => 1,
        };
        proof {
            lemma_sat_add(s.effects, add as int);
        }
        st.effects = st.effects.saturating_add(add);
        st.quit_seen = match press {
            BindingPress::Quit => true,
            _ => false,
        };
    }
    Ok(())
}

/// Once a prefix is refused, every longer prefix is refused the same way.
proof fn lemma_scan_sticky(ctx: &PolicyContext, replay: bool, events: Seq<PolicyFact>, j: int)
    requires
        0 <= j <= events.len(),
        scan_events(ctx, replay, events.take(j)) is Err,
    ensures
        scan_events(ctx, replay, events) == scan_events(ctx, replay, events.take(j)),
    decreases events.len() - j,
{
    if j < events.len() {
        assert(events.take(j + 1).drop_last() =~= events.take(j));
        lemma_scan_sticky(ctx, replay, events, j + 1);
    } else {
        assert(events.take(j) =~= events);
    }
}

/// Once a prefix fails the replay screen, every longer prefix fails it the same way.
proof fn lemma_screen_sticky(events: Seq<PolicyFact>, j: int)
    requires
        0 <= j <= events.len(),
        replay_screen(events.take(j)) is Err,
    ensures
        replay_screen(events) == replay_screen(events.take(j)),
    decreases events.len() - j,
{
    if j < events.len() {
        assert(events.take(j + 1).drop_last() =~= events.take(j));
        lemma_screen_sticky(events, j + 1);
    } else {
        assert(events.take(j) =~= events);
    }
}

/// Barriers in a prefix never exceed those in the whole list.
proof fn lemma_barriers_prefix(events: Seq<PolicyFact>, j: int)
    requires
        0 <= j <= events.len(),
    ensures
        barrier_count(events.take(j)) <= barrier_count(events),
    decreases events.len() - j,
{
    if j < events.len() {
        assert(events.take(j + 1).drop_last() =~= events.take(j));
        lemma_barriers_prefix(events, j + 1);
    } else {
        assert(events.take(j) =~= events);
    }
}

/// Whether the turn's identity advances and its drain marker matches the
/// transaction.
fn sequence_ok(ctx: &PolicyContext, turn: &PolicyTurn) -> (r: bool)
    ensures
        r == (turn_advances(ctx.last_turn, turn.id) && drain_matches(ctx.transaction, turn.drains)),
{
    let advances = match ctx.last_turn {
        Some(last) => turn.id.get() > last.get(),
        None => true,
    };
    let drains = match ctx.transaction {
        TransactionSubstate::Idle
        | TransactionSubstate::AwaitingExternalTurn { .. }
        | TransactionSubstate::AwaitingInternalTurn { .. } => turn.drains.is_none(),
        TransactionSubstate::AwaitingDrain { ticket } => match turn.drains {
            Some(d) => d == ticket,
            None => false,
        },
        TransactionSubstate::InFlight { .. } => false,
    };
    advances && drains
}

/// The number of replay barriers among the facts.
fn count_barriers(events: &Vec<PolicyFact>) -> (n: usize)
    ensures
        n == barrier_count(events@),
{
    let mut barriers: usize = 0;
    let mut i: usize = 0;
    while i < events.len()
        invariant
            i <= events@.len(),
            barriers as nat == barrier_count(events@.take(i as int)),
            barriers <= i,
        decreases events.len() - i,
    {
        proof {
            assert(events@.take(i + 1).drop_last() =~= events@.take(i as int));
        }
        if let PolicyFact::InitialReplayComplete = &events[i] {
            barriers = barriers + 1;
        }
        i = i + 1;
    }
    proof {
        assert(events@.take(events@.len() as int) =~= events@);
    }
    barriers
}

/// Whether a nonempty fact list ends in the replay barrier.
fn ends_in_barrier(events: &Vec<PolicyFact>) -> (r: bool)
    ensures
        r == (events@.len() > 0 && events@.last() is InitialReplayComplete),
{
    let n = events.len();
    n > 0 && match &events[n - 1] {
        PolicyFact::InitialReplayComplete => true,
        _ => false,
    }
}

/// Screen an initial-replay batch.
fn screen_replay(events: &Vec<PolicyFact>) -> (r: Result<(), SessionEventError>)
    ensures
        match replay_screen(events@) {
            Ok(_) => r is Ok,
            Err(PolicyRefusal::Error(err)) => r == Err::<(), SessionEventError>(err),
            Err(PolicyRefusal::UnexpectedAt(k)) => 0 <= k < events@.len() && (r matches Err(
                SessionEventError::UnexpectedInitialReplayEvent(f),
            ) && f@ == events@[k]@),
        },
{
    let n = events.len();
    let mut focus: usize = 0;
    let mut exclusive: usize = 0;
    let mut i: usize = 0;
    proof {
        assert(events@.take(0) =~= Seq::<PolicyFact>::empty());
    }
    while i < n
        invariant
            i <= n,
            n == events@.len(),
            replay_screen(events@.take(i as int)) == Ok::<(nat, nat), PolicyRefusal>((focus as nat, exclusive as nat)),
            focus <= 1,
            exclusive <= 1,
        decreases n - i,
    {
        proof {
            assert(events@.take(i + 1).drop_last() =~= events@.take(i as int));
            assert(events@.take(i + 1).last() == events@[i as int]);
        }
        match &events[i] {
            PolicyFact::WindowOpened { .. } | PolicyFact::InitialReplayComplete => {},
            PolicyFact::FocusChanged(_) => {
                if focus + 1 > 1 {
                    proof {
                        lemma_screen_sticky(events@, i + 1);
                    }
                    return Err(contract_error(BackendContractError::InvalidPolicySequence));
                }
                focus = focus + 1;
            },
            PolicyFact::ExclusiveFocusChanged(_) => {
                if exclusive + 1 > 1 {
                    proof {
                        lemma_screen_sticky(events@, i + 1);
                    }
                    return Err(contract_error(BackendContractError::InvalidPolicySequence));
                }
                exclusive = exclusive + 1;
            },
            _ => {
                proof {
                    lemma_screen_sticky(events@, i + 1);
                }
                return Err(SessionEventError::UnexpectedInitialReplayEvent(events[i].copy()));
            },
        }
        i = i + 1;
    }
    proof {
        assert(events@.take(n as int) =~= events@);
    }
    Ok(())
}

/// Scan every fact in order; on success the saturated text bytes and
/// effect count.
fn scan_turn(ctx: &PolicyContext, replay: bool, events: &Vec<PolicyFact>) -> (r: Result<(usize, usize), SessionEventError>)
    ensures
        match scan_events(ctx, replay, events@) {
            Ok(s) => s.text_bytes >= 0 && s.effects >= 0 && r == Ok::<(usize, usize), SessionEventError>(
                (saturated(s.text_bytes) as usize, saturated(s.effects) as usize),
            ),
            Err(PolicyRefusal::Error(err)) => r == Err::<(usize, usize), SessionEventError>(err),
            Err(PolicyRefusal::UnexpectedAt(k)) => 0 <= k < events@.len() && (r matches Err(
                SessionEventError::UnexpectedInitialReplayEvent(f),
            ) && f@ == events@[k]@),
        },
{
    let n = events.len();
    let windows = ctx.windows.len();
    let mut st = initial_state(ctx, replay);
    let ghost mut s = initial_scan(ctx, replay);
    proof {
        assert(events@.take(0) =~= Seq::<PolicyFact>::empty());
    }
    let mut k: usize = 0;
    while k < n
        invariant
            k <= n,
            n == events@.len(),
            scan_events(ctx, replay, events@.take(k as int)) == Ok::<PolicyScan, PolicyRefusal>(s),
            st.models(s),
            windows == ctx.windows@.len(),
            st.live_count <= windows + k,
        decreases n - k,
    {
        proof {
            assert(events@.take(k + 1).drop_last() =~= events@.take(k as int));
            assert(events@.take(k + 1).last() == events@[k as int]);
        }
        let step = scan_fact(ctx, replay, &mut st, &events[k], k, Ghost(s));
        match step {
            Err(err) => {
                proof {
                    lemma_scan_sticky(ctx, replay, events@, k + 1);
                }
                return Err(err);
            },
            Ok(()) => {
                proof {
                    s = scan_step(ctx, replay, s, events@[k as int], k as int)->Ok_0;
                }
            },
        }
        k = k + 1;
    }
    proof {
        assert(events@.take(n as int) =~= events@);
    }
    Ok((st.text_bytes, st.effects))
}

/// Decide whether a backend policy turn may be reduced.
///
/// Refused when its identity does not advance or it does not match the open
/// transaction; during the initial replay when it is not exactly one batch
/// ending in the one replay barrier, with at most one focus and one
/// exclusive-focus fact and only window openings besides; outside the replay
/// when it repeats the barrier; when it holds more facts than allowed; when a
/// fact names an unknown window or binding, a binding fact arrives outside
/// the live phase, modifiers are not canonical, window ids run out or too
/// many windows are live; and finally when its text or the staged effects
/// exceed their capacities.
pub fn validate_policy_turn(ctx: &PolicyContext, turn: &PolicyTurn) -> (r: Result<(), SessionEventError>)
    ensures
        match spec_validate_policy_turn(ctx, turn) {
            Ok(()) => r is Ok,
            Err(PolicyRefusal::Error(err)) => r == Err::<(), SessionEventError>(err),
            Err(PolicyRefusal::UnexpectedAt(k)) => 0 <= k < turn.events@.len() && (r matches Err(
                SessionEventError::UnexpectedInitialReplayEvent(f),
            ) && f@ == turn.events@[k]@),
        },
{
    if !sequence_ok(ctx, turn) {
        return Err(contract_error(BackendContractError::InvalidPolicySequence));
    }
    let replay = ctx.phase == RecoveryPhase::InitialReplay;
    let barriers = count_barriers(&turn.events);
    if replay {
        if barriers != 1 || !ends_in_barrier(&turn.events) {
            return Err(contract_error(BackendContractError::InvalidPolicySequence));
        }
        match screen_replay(&turn.events) {
            Err(e) => return Err(e),
            Ok(()) => {},
        }
    } else if barriers > 0 {
        return Err(SessionEventError::RepeatedInitialReplayComplete);
    }
    let limit = if replay { MAX_REPLAY_POLICY_EVENTS } else { MAX_POLICY_EVENTS };
    if turn.events.len() > limit {
        return Err(capacity_error(BackendCapacityResource::PolicyFacts, limit));
    }
    let (text_bytes, effects) = match scan_turn(ctx, replay, &turn.events) {
        Err(e) => return Err(e),
        Ok(totals) => totals,
    };
    proof {
        assert(usize::MAX >= MAX_POLICY_TEXT_BYTES);
    }
    if text_bytes > MAX_POLICY_TEXT_BYTES {
        return Err(capacity_error(BackendCapacityResource::PolicyTextBytes, MAX_POLICY_TEXT_BYTES));
    }
    if effects > MAX_STAGED_EFFECTS {
        return Err(capacity_error(BackendCapacityResource::PolicyEffects, MAX_STAGED_EFFECTS));
    }
    Ok(())
}

/// Text bytes a fact reports.
pub open spec fn fact_text_bytes(e: PolicyFact) -> int {
    match e {
        PolicyFact::WindowOpened { backend_id, app_id, title } => byte_len(backend_id@) + byte_len(app_id@)
            + byte_len(title@),
        PolicyFact::WindowClosed(backend_id) => byte_len(backend_id@),
        PolicyFact::GeometryDrifted { backend_id } => byte_len(backend_id@),
        PolicyFact::TitleChanged { backend_id, title } => byte_len(backend_id@) + byte_len(title@),
        PolicyFact::FocusChanged(Some(backend_id)) => byte_len(backend_id@),
        _ => 0,
    }
}

/// Text bytes of a prefix of facts.
pub open spec fn facts_text_bytes(events: Seq<PolicyFact>) -> int
    decreases events.len(),
{
    if events.len() == 0 {
        0
    } else {
        facts_text_bytes(events.drop_last()) + fact_text_bytes(events.last())
    }
}

/// Text bytes one fact reports, saturated at `usize::MAX`.
pub fn event_text_bytes(e: &PolicyFact) -> (n: usize)
    ensures
        n as int == saturated(fact_text_bytes(*e)),
{
    match e {
        PolicyFact::WindowOpened { backend_id, app_id, title } => {
            let a = backend_id.as_str().len();
            let b = app_id.as_str().len();
            let c = title.as_str().len();
            proof {
                lemma_sat_add(a as int, b as int);
                lemma_sat_add(a + b, c as int);
            }
            a.saturating_add(b).saturating_add(c)
        },
        PolicyFact::WindowClosed(backend_id) => backend_id.as_str().len(),
        PolicyFact::GeometryDrifted { backend_id } => backend_id.as_str().len(),
        PolicyFact::TitleChanged { backend_id, title } => {
            let a = backend_id.as_str().len();
            let b = title.as_str().len();
            proof {
                lemma_sat_add(a as int, b as int);
            }
            a.saturating_add(b)
        },
        PolicyFact::FocusChanged(Some(backend_id)) => backend_id.as_str().len(),
        _ => 0,
    }
}

/// The backend's own capacity check of a turn it is about to emit: the
/// number of facts, then their text bytes.
pub open spec fn spec_policy_capacity(replay: bool, events: Seq<PolicyFact>) -> Result<(), BackendError> {
    let limit = if replay { MAX_REPLAY_POLICY_EVENTS } else { MAX_POLICY_EVENTS };
    if events.len() > limit {
        Err(BackendError::Capacity { resource: BackendCapacityResource::PolicyFacts, limit: limit as u64 })
    } else if facts_text_bytes(events) > MAX_POLICY_TEXT_BYTES {
        Err(BackendError::Capacity {
            resource: BackendCapacityResource::PolicyTextBytes,
            limit: MAX_POLICY_TEXT_BYTES as u64,
        })
    } else {
        Ok(())
    }
}

/// Check a turn against the fact and text capacities before emitting it.
pub fn validate_policy_capacity(replay: bool, events: &Vec<PolicyFact>) -> (r: Result<(), BackendError>)
    ensures
        r == spec_policy_capacity(replay, events@),
{
    let limit = if replay { MAX_REPLAY_POLICY_EVENTS } else { MAX_POLICY_EVENTS };
    if events.len() > limit {
        return Err(BackendError::Capacity { resource: BackendCapacityResource::PolicyFacts, limit: limit as u64 });
    }
    let mut total: usize = 0;
    let mut i: usize = 0;
    proof {
        assert(events@.take(0) =~= Seq::<PolicyFact>::empty());
    }
    while i < events.len()
        invariant
            i <= events@.len(),
            facts_text_bytes(events@.take(i as int)) >= 0,
            total as int == saturated(facts_text_bytes(events@.take(i as int))),
        decreases events.len() - i,
    {
        proof {
            assert(events@.take(i + 1).drop_last() =~= events@.take(i as int));
            assert(events@.take(i + 1).last() == events@[i as int]);
            lemma_fact_bytes_nonneg(events@[i as int]);
        }
        let n = event_text_bytes(&events[i]);
        proof {
            lemma_sat_sum(facts_text_bytes(events@.take(i as int)), fact_text_bytes(events@[i as int]));
        }
        total = total.saturating_add(n);
        i = i + 1;
    }
    proof {
        assert(events@.take(events@.len() as int) =~= events@);
        assert(usize::MAX >= MAX_POLICY_TEXT_BYTES);
    }
    if total > MAX_POLICY_TEXT_BYTES {
        return Err(BackendError::Capacity {
            resource: BackendCapacityResource::PolicyTextBytes,
            limit: MAX_POLICY_TEXT_BYTES as u64,
        });
    }
    Ok(())
}

/// A fact reports a nonnegative number of text bytes.
proof fn lemma_fact_bytes_nonneg(e: PolicyFact)
    ensures
        fact_text_bytes(e) >= 0,
{
}

/// Adding two saturated nonnegative amounts saturates their sum.
proof fn lemma_sat_sum(x: int, y: int)
    requires
        x >= 0,
        y >= 0,
    ensures
        (if saturated(x) + saturated(y) > usize::MAX { usize::MAX as int } else { saturated(x) + saturated(y) })
            == saturated(x + y),
{
}

} // verus!
