//! Compositor-independent window-management contract types.
use vstd::prelude::*;

use crate::text::{decimal, push_decimal};

pub mod input;
pub mod objects;
pub mod render;
pub mod response;
pub mod river;
pub mod table;

verus! {

/// True for the printable ASCII characters `' '..='~'`.
pub open spec fn printable_ascii(c: char) -> bool {
    0x20 <= (c as u32) <= 0x7e
}

/// A valid backend window identity: 1..=32 printable ASCII characters.
///
/// Printable ASCII characters encode as one byte each, so the character count
/// is also the byte length.
pub open spec fn valid_backend_window_id(text: Seq<char>) -> bool {
    &&& 1 <= text.len() <= 32
    &&& forall|i: int| 0 <= i < text.len() ==> printable_ascii(#[trigger] text[i])
}

/// Stable compositor-owned identity used to recover Realm window ids.
#[derive(Debug, PartialEq, Eq, PartialOrd, Ord, Hash)]
pub struct BackendWindowId(String);

impl Clone for BackendWindowId {
    fn clone(&self) -> (c: Self)
        ensures
            c == *self,
    {
        proof {
            use_type_invariant(self);
        }
        BackendWindowId(self.0.clone())
    }
}

impl View for BackendWindowId {
    type V = Seq<char>;

    open spec fn view(&self) -> Seq<char> {
        self.text()
    }
}

impl BackendWindowId {
    /// The identity's characters.
    pub closed spec fn text(&self) -> Seq<char> {
        self.0@
    }

    #[verifier::type_invariant]
    spec fn well_formed(&self) -> bool {
        valid_backend_window_id(self.0@)
    }

    /// Construct an identity from 1..=32 printable ASCII bytes.
    pub fn new(text: String) -> (id: Option<Self>)
        ensures
            id is Some <==> valid_backend_window_id(text@),
            id matches Some(id) ==> id@ == text@,
    {
        let chars = crate::text::chars_of(text.as_str());
        if chars.len() == 0 || chars.len() > 32 {
            return None;
        }
        let mut i: usize = 0;
        while i < chars.len()
            invariant
                chars@ == text@,
                i <= chars.len(),
                forall|j: int| 0 <= j < i ==> printable_ascii(#[trigger] chars@[j]),
            decreases chars.len() - i,
        {
            let code = chars[i] as u32;
            if code < 0x20 || code > 0x7e {
                assert(!printable_ascii(chars@[i as int]));
                return None;
            }
            i = i + 1;
        }
        Some(BackendWindowId(text))
    }

    /// Return the validated identity text.
    pub fn as_str(&self) -> (s: &str)
        ensures
            s@ == self@,
            valid_backend_window_id(s@),
    {
        proof {
            use_type_invariant(self);
        }
        self.0.as_str()
    }
}

/// Opaque nonzero identity allocated once by Session for one backend operation.
#[derive(Debug, Clone, Copy, PartialEq, Eq, Structural, PartialOrd, Ord, Hash)]
pub struct BackendTicket(u64);

impl View for BackendTicket {
    type V = u64;

    open spec fn view(&self) -> u64 {
        self.raw()
    }
}

impl BackendTicket {
    /// The nonzero raw identity.
    pub closed spec fn raw(&self) -> u64 {
        self.0
    }

    #[verifier::type_invariant]
    spec fn nonzero(&self) -> bool {
        self.0 != 0
    }

    /// Construct the opaque identity, rejecting zero.
    pub fn new(raw: u64) -> (id: Option<Self>)
        ensures
            id is Some <==> raw != 0,
            id matches Some(id) ==> id@ == raw,
    {
        if raw == 0 {
            None
        } else {
            Some(BackendTicket(raw))
        }
    }

    /// Return the nonzero integer identity.
    pub fn get(self) -> (raw: u64)
        ensures
            raw == self@,
            raw != 0,
    {
        proof {
            use_type_invariant(&self);
        }
        self.0
    }
}

/// Opaque nonzero identity of one compositor policy boundary.
#[derive(Debug, Clone, Copy, PartialEq, Eq, Structural, PartialOrd, Ord, Hash)]
pub struct BackendPolicyTurnId(u64);

impl View for BackendPolicyTurnId {
    type V = u64;

    open spec fn view(&self) -> u64 {
        self.raw()
    }
}

impl BackendPolicyTurnId {
    /// The nonzero raw identity.
    pub closed spec fn raw(&self) -> u64 {
        self.0
    }

    #[verifier::type_invariant]
    spec fn nonzero(&self) -> bool {
        self.0 != 0
    }

    /// Construct the opaque identity, rejecting zero.
    pub fn new(raw: u64) -> (id: Option<Self>)
        ensures
            id is Some <==> raw != 0,
            id matches Some(id) ==> id@ == raw,
    {
        if raw == 0 {
            None
        } else {
            Some(BackendPolicyTurnId(raw))
        }
    }

    /// Return the nonzero integer identity.
    pub fn get(self) -> (raw: u64)
        ensures
            raw == self@,
            raw != 0,
    {
        proof {
            use_type_invariant(&self);
        }
        self.0
    }
}

/// Stable Session-selected identity for one configured binding mechanism.
#[derive(Debug, Clone, Copy, PartialEq, Eq, Structural, PartialOrd, Ord, Hash)]
pub struct BackendBindingId(u32);

impl View for BackendBindingId {
    type V = u32;

    open spec fn view(&self) -> u32 {
        self.raw()
    }
}

impl BackendBindingId {
    /// The nonzero raw identity.
    pub closed spec fn raw(&self) -> u32 {
        self.0
    }

    #[verifier::type_invariant]
    spec fn nonzero(&self) -> bool {
        self.0 != 0
    }

    /// Construct the opaque identity, rejecting zero.
    pub fn new(raw: u32) -> (id: Option<Self>)
        ensures
            id is Some <==> raw != 0,
            id matches Some(id) ==> id@ == raw,
    {
        if raw == 0 {
            None
        } else {
            Some(BackendBindingId(raw))
        }
    }

    /// Return the nonzero integer identity.
    pub fn get(self) -> (raw: u32)
        ensures
            raw == self@,
            raw != 0,
    {
        proof {
            use_type_invariant(&self);
        }
        self.0
    }
}

/// Modifier names used by compositor binding mechanisms.
#[derive(Debug, Clone, Copy, PartialEq, Eq, Structural, PartialOrd, Ord, Hash)]
pub enum BackendModifier {
    /// Shift.
    Shift,
    /// Control.
    Control,
    /// Alt.
    Alt,
    /// Super/logo.
    Super,
}

/// Canonical rank of a modifier; canonical vectors are strictly increasing in it.
pub open spec fn modifier_rank(m: BackendModifier) -> int {
    match m {
        BackendModifier::Shift => 0,
        BackendModifier::Control => 1,
        BackendModifier::Alt => 2,
        BackendModifier::Super => 3,
    }
}

/// Executable rank of a modifier.
pub fn modifier_order(m: BackendModifier) -> (r: u8)
    ensures
        r as int == modifier_rank(m),
{
    match m {
        BackendModifier::Shift => 0,
        BackendModifier::Control => 1,
        BackendModifier::Alt => 2,
        BackendModifier::Super => 3,
    }
}

/// Maximum number of managed windows.
pub const MAX_MANAGED_WINDOWS: usize = 256;
/// Maximum number of configured binding mechanisms.
pub const MAX_CONFIGURED_BINDINGS: usize = 64;
/// Maximum number of facts in one live or draining policy turn.
pub const MAX_POLICY_EVENTS: usize = 256;
/// Maximum number of staged effects across one transaction.
pub const MAX_STAGED_EFFECTS: usize = 256;
/// Maximum total UTF-8 payload bytes in one policy turn.
pub const MAX_POLICY_TEXT_BYTES: usize = 65_535;
/// Maximum live production-backend output objects.
pub const MAX_BACKEND_OUTPUTS: usize = 16;
/// Maximum live production-backend seat objects.
pub const MAX_BACKEND_SEATS: usize = 16;
/// Maximum live production-backend input device objects.
pub const MAX_BACKEND_INPUT_DEVICES: usize = 64;
/// Maximum live production-backend libinput device objects.
pub const MAX_BACKEND_LIBINPUT_DEVICES: usize = 64;
/// Maximum JSON-encoded content bytes for a visible application id.
pub const MAX_VISIBLE_APP_ID_JSON_BYTES: usize = 40;
/// Maximum JSON-encoded content bytes for a visible window title.
pub const MAX_VISIBLE_TITLE_JSON_BYTES: usize = 80;
/// Key-repeat rate in hertz.
pub const KEY_REPEAT_RATE_HZ: u32 = 25;
/// Initial key-repeat delay in milliseconds.
pub const KEY_REPEAT_DELAY_MS: u64 = 600;
/// Maximum admitted process jobs, excluding the replaceable snapshot slot.
pub const MAX_WORKER_JOBS: usize = 256;
/// Maximum queued worker results.
pub const MAX_WORKER_RESULTS: usize = 256;
/// Maximum retained snapshot bytes.
pub const MAX_SNAPSHOT_BYTES: usize = 65_535;
/// Degraded-shutdown worker fence timeout in milliseconds.
pub const WORKER_SHUTDOWN_TIMEOUT_MS: u64 = 2_000;
/// Maximum number of events in the one initial replay turn.
pub const MAX_REPLAY_POLICY_EVENTS: usize = 259;

/// Worker queue whose accepted capacity was exceeded.
#[derive(Debug, Clone, Copy, PartialEq, Eq, Structural)]
pub enum WorkerCapacityResource {
    /// Submitted jobs.
    Jobs,
    /// Completed results.
    Results,
}

/// A bounded worker queue reached its accepted capacity.
#[derive(Debug, Clone, Copy, PartialEq, Eq, Structural)]
pub struct WorkerCapacityError {
    /// Queue whose capacity was exceeded.
    pub resource: WorkerCapacityResource,
    /// Accepted queue limit.
    pub limit: usize,
}

impl WorkerCapacityError {
    /// The error's message.
    pub open spec fn spec_message(self) -> Seq<char> {
        "worker capacity exceeded for "@ + (match self.resource {
            WorkerCapacityResource::Jobs => "Jobs"@,
            WorkerCapacityResource::Results => "Results"@,
        }) + ": limit "@ + decimal(self.limit as nat)
    }

    /// Render the error's message.
    pub fn message(&self) -> (m: String)
        ensures
            m@ == self.spec_message(),
    {
        let mut m = String::from_str("worker capacity exceeded for ");
        match self.resource {
            WorkerCapacityResource::Jobs => m.append("Jobs"),
            WorkerCapacityResource::Results => m.append("Results"),
        }
        m.append(": limit ");
        push_decimal(&mut m, self.limit as u64);
        m
    }
}

/// One configured binding mechanism, without Realm policy.
#[derive(Debug, Clone, PartialEq, Eq)]
pub struct BackendBindingSpec {
    /// Stable mechanism identity.
    pub id: BackendBindingId,
    /// Canonical xkbcommon keysym name.
    pub keysym: String,
    /// Canonical sorted unique modifiers.
    pub modifiers: Vec<BackendModifier>,
}

/// One-shot next-key policy edge.
#[derive(Debug, Clone, Copy, PartialEq, Eq, Structural)]
pub enum BackendNextKeyEdge {
    /// Preserve current compositor state.
    Preserve,
    /// Ensure the next otherwise-unbound key is consumed.
    Ensure,
    /// Cancel a prior ensure operation.
    Cancel,
}

/// Complete desired binding state for one response.
#[derive(Debug, Clone, PartialEq, Eq)]
pub struct BackendBindingState {
    /// Complete canonical sorted unique enabled mechanisms.
    pub enabled: Vec<BackendBindingId>,
    /// Complete canonical sorted unique watched modifiers.
    pub watched_modifiers: Vec<BackendModifier>,
    /// Explicit one-shot next-key edge.
    pub next_key_edge: BackendNextKeyEdge,
}

/// Where policy places one Realm window.
#[derive(Debug, Clone, Copy, PartialEq, Eq)]
pub struct Placement {
    /// The Realm window.
    pub win: u64,
    /// Its rectangle: x, y, width, height.
    pub rect: (i32, i32, i32, i32),
    /// Whether it holds keyboard focus.
    pub focused: bool,
    /// Whether another window covers part of it.
    pub occluded: bool,
}

/// Complete policy answer to one turn.
#[derive(Debug, Clone, PartialEq, Eq)]
pub struct BackendPolicyResponse {
    /// `None` preserves a clean projection; `Some(empty)` hides every window.
    pub projection: Option<Vec<Placement>>,
    /// Unique close edges in first-occurrence report order.
    pub closes: Vec<u64>,
    /// Complete binding policy.
    pub bindings: BackendBindingState,
}

/// Fixed Session-authorized policy for terminal exit sequences.
#[derive(Debug, Clone, PartialEq, Eq)]
pub struct BackendExitPolicy {
    /// Complete canonical sorted unique enabled mechanisms.
    pub enabled: Vec<BackendBindingId>,
    /// Complete canonical sorted unique watched modifiers.
    pub watched_modifiers: Vec<BackendModifier>,
}

/// Result of one nonblocking backend submission.
#[derive(Debug, Clone, Copy, PartialEq, Eq, Structural)]
pub enum BackendSubmission {
    /// The response and its admitted observation epoch are final.
    Complete,
    /// Exactly one matching terminal event will arrive later.
    Pending,
}

/// Dynamic poll interest for the backend's descriptor.
#[derive(Debug, Clone, Copy, PartialEq, Eq, Structural)]
pub struct BackendPollInterest {
    /// Internal work is already queued.
    pub immediate: bool,
    /// Read readiness is useful.
    pub readable: bool,
    /// A protocol flush needs write readiness.
    pub writable: bool,
}

/// Readiness reported by the outer event loop.
#[derive(Debug, Clone, Copy, PartialEq, Eq, Structural)]
pub struct BackendReady {
    /// Read readiness was observed while enabled.
    pub readable: bool,
    /// Error or hangup readiness was observed.
    pub terminal: bool,
    /// Write readiness was observed.
    pub writable: bool,
}

/// Closed backend protocol failure classification.
#[derive(Debug, Clone, Copy, PartialEq, Eq, Structural)]
pub enum BackendProtocolErrorKind {
    /// A payload ended before its declared boundary.
    TruncatedPayload,
    /// Ancillary data was truncated.
    TruncatedAncillary,
    /// Transport framing was invalid.
    InvalidFraming,
    /// Protocol objects arrived in an invalid order.
    InvalidObjectOrder,
}

/// The variant name of a protocol failure class.
pub open spec fn protocol_kind_name(kind: BackendProtocolErrorKind) -> Seq<char> {
    match kind {
        BackendProtocolErrorKind::TruncatedPayload => "TruncatedPayload"@,
        BackendProtocolErrorKind::TruncatedAncillary => "TruncatedAncillary"@,
        BackendProtocolErrorKind::InvalidFraming => "InvalidFraming"@,
        BackendProtocolErrorKind::InvalidObjectOrder => "InvalidObjectOrder"@,
    }
}

/// Closed backend capacity resource classification.
#[derive(Debug, Clone, Copy, PartialEq, Eq, Structural)]
pub enum BackendCapacityResource {
    /// Managed windows.
    ManagedWindows,
    /// Configured bindings.
    ConfiguredBindings,
    /// Output objects.
    Outputs,
    /// Seat objects.
    Seats,
    /// Input device objects.
    InputDevices,
    /// Libinput device objects.
    LibinputDevices,
    /// Never-reused object ordinals.
    ObjectOrdinals,
    /// Policy facts.
    PolicyFacts,
    /// Transaction policy effects.
    PolicyEffects,
    /// Policy text bytes.
    PolicyTextBytes,
    /// Retained transport bytes.
    RetainedBytes,
    /// Retained transport descriptors.
    RetainedDescriptors,
    /// Policy-turn identities.
    PolicyTurnIds,
}

/// The variant name of a capacity resource.
pub open spec fn capacity_resource_name(resource: BackendCapacityResource) -> Seq<char> {
    match resource {
        BackendCapacityResource::ManagedWindows => "ManagedWindows"@,
        BackendCapacityResource::ConfiguredBindings => "ConfiguredBindings"@,
        BackendCapacityResource::Outputs => "Outputs"@,
        BackendCapacityResource::Seats => "Seats"@,
        BackendCapacityResource::InputDevices => "InputDevices"@,
        BackendCapacityResource::LibinputDevices => "LibinputDevices"@,
        BackendCapacityResource::ObjectOrdinals => "ObjectOrdinals"@,
        BackendCapacityResource::PolicyFacts => "PolicyFacts"@,
        BackendCapacityResource::PolicyEffects => "PolicyEffects"@,
        BackendCapacityResource::PolicyTextBytes => "PolicyTextBytes"@,
        BackendCapacityResource::RetainedBytes => "RetainedBytes"@,
        BackendCapacityResource::RetainedDescriptors => "RetainedDescriptors"@,
        BackendCapacityResource::PolicyTurnIds => "PolicyTurnIds"@,
    }
}

fn push_protocol_kind_name(m: &mut String, kind: BackendProtocolErrorKind)
    ensures
        final(m)@ == old(m)@ + protocol_kind_name(kind),
{
    match kind {
        BackendProtocolErrorKind::TruncatedPayload => m.append("TruncatedPayload"),
        BackendProtocolErrorKind::TruncatedAncillary => m.append("TruncatedAncillary"),
        BackendProtocolErrorKind::InvalidFraming => m.append("InvalidFraming"),
        BackendProtocolErrorKind::InvalidObjectOrder => m.append("InvalidObjectOrder"),
    }
}

fn push_capacity_resource_name(m: &mut String, resource: BackendCapacityResource)
    ensures
        final(m)@ == old(m)@ + capacity_resource_name(resource),
{
    match resource {
        BackendCapacityResource::ManagedWindows => m.append("ManagedWindows"),
        BackendCapacityResource::ConfiguredBindings => m.append("ConfiguredBindings"),
        BackendCapacityResource::Outputs => m.append("Outputs"),
        BackendCapacityResource::Seats => m.append("Seats"),
        BackendCapacityResource::InputDevices => m.append("InputDevices"),
        BackendCapacityResource::LibinputDevices => m.append("LibinputDevices"),
        BackendCapacityResource::ObjectOrdinals => m.append("ObjectOrdinals"),
        BackendCapacityResource::PolicyFacts => m.append("PolicyFacts"),
        BackendCapacityResource::PolicyEffects => m.append("PolicyEffects"),
        BackendCapacityResource::PolicyTextBytes => m.append("PolicyTextBytes"),
        BackendCapacityResource::RetainedBytes => m.append("RetainedBytes"),
        BackendCapacityResource::RetainedDescriptors => m.append("RetainedDescriptors"),
        BackendCapacityResource::PolicyTurnIds => m.append("PolicyTurnIds"),
    }
}

/// A compositor backend failure with enough structure to report it honestly.
#[derive(Debug, Clone, PartialEq, Eq)]
pub enum BackendError {
    /// The backend cannot honour the named Realm capability.
    Unsupported {
        /// Stable capability name.
        capability: String,
    },
    /// The compositor connection was lost after it had been established.
    Disconnected,
    /// The backend could not become the active window manager.
    Unavailable {
        /// Human-readable refusal reason from the backend.
        message: String,
    },
    /// The backend transport failed without a clean disconnect.
    Io {
        /// Human-readable transport failure.
        message: String,
    },
    /// The backend transport violated its closed protocol contract.
    Protocol {
        /// Machine-readable protocol failure class.
        kind: BackendProtocolErrorKind,
    },
    /// The backend exceeded an accepted finite capacity.
    Capacity {
        /// Machine-readable exhausted resource.
        resource: BackendCapacityResource,
        /// Accepted limit for the resource.
        limit: u64,
    },
}

impl BackendError {
    /// The error's human-readable message.
    pub open spec fn spec_message(&self) -> Seq<char> {
        match self {
            BackendError::Unsupported { capability } =>
                "backend cannot honour capability "@ + capability@,
            BackendError::Disconnected => "backend disconnected"@,
            BackendError::Unavailable { message } => "backend unavailable: "@ + message@,
            BackendError::Io { message } => "backend I/O failed: "@ + message@,
            BackendError::Protocol { kind } =>
                "backend protocol violation: "@ + protocol_kind_name(*kind),
            BackendError::Capacity { resource, limit } =>
                "backend capacity exceeded for "@ + capacity_resource_name(*resource)
                    + ": limit "@ + decimal(*limit as nat),
        }
    }

    /// Render the error's human-readable message.
    pub fn message(&self) -> (m: String)
        ensures
            m@ == self.spec_message(),
    {
        match self {
            BackendError::Unsupported { capability } => {
                let mut m = String::from_str("backend cannot honour capability ");
                m.append(capability.as_str());
                m
            },
            BackendError::Disconnected => String::from_str("backend disconnected"),
            BackendError::Unavailable { message } => {
                let mut m = String::from_str("backend unavailable: ");
                m.append(message.as_str());
                m
            },
            BackendError::Io { message } => {
                let mut m = String::from_str("backend I/O failed: ");
                m.append(message.as_str());
                m
            },
            BackendError::Protocol { kind } => {
                let mut m = String::from_str("backend protocol violation: ");
                push_protocol_kind_name(&mut m, *kind);
                m
            },
            BackendError::Capacity { resource, limit } => {
                let mut m = String::from_str("backend capacity exceeded for ");
                push_capacity_resource_name(&mut m, *resource);
                m.append(": limit ");
                push_decimal(&mut m, *limit);
                m
            },
        }
    }
}

/// Local identity-map or exposed policy contract violation.
#[derive(Debug, Clone, PartialEq, Eq)]
pub enum BackendContractError {
    /// Assignment named a backend window not live in this incarnation.
    UnknownWindow {
        /// Unknown compositor identity.
        backend_id: BackendWindowId,
    },
    /// A backend identity already has a different Realm assignment.
    ConflictingBackendIdentity,
    /// A Realm window already has a different backend identity.
    ConflictingRealmIdentity,
    /// A policy fact referenced a window before a current-incarnation open.
    UnknownWindowReference,
    /// A policy fact named an unconfigured binding.
    UnknownBinding {
        /// Unconfigured mechanism identity.
        id: BackendBindingId,
    },
    /// A modifier vector was not a canonical sorted unique subset.
    NonCanonicalModifiers,
    /// A policy transaction sequence was invalid.
    InvalidPolicySequence,
}

/// The debug spelling of a window identity: its text quoted, with `"` and `\` escaped.
pub open spec fn quoted(text: Seq<char>) -> Seq<char>
    decreases text.len(),
{
    if text.len() == 0 {
        Seq::empty()
    } else {
        let c = text.last();
        quoted(text.drop_last()) + (if c == '"' || c == '\\' { seq!['\\', c] } else { seq![c] })
    }
}

fn push_quoted(m: &mut String, text: &str)
    ensures
        final(m)@ == old(m)@ + seq!['"'] + quoted(text@) + seq!['"'],
{
    let chars = crate::text::chars_of(text);
    let ghost start = m@;
    crate::text::push_char(m, '"');
    let mut i: usize = 0;
    while i < chars.len()
        invariant
            chars@ == text@,
            i <= chars.len(),
            m@ == start + seq!['"'] + quoted(chars@.take(i as int)),
        decreases chars.len() - i,
    {
        let c = chars[i];
        if c == '"' || c == '\\' {
            crate::text::push_char(m, '\\');
        }
        crate::text::push_char(m, c);
        proof {
            assert(chars@.take(i + 1).drop_last() =~= chars@.take(i as int));
        }
        i = i + 1;
    }
    assert(chars@.take(chars.len() as int) =~= chars@);
    crate::text::push_char(m, '"');
}

impl BackendContractError {
    /// The error's human-readable message.
    pub open spec fn spec_message(&self) -> Seq<char> {
        match self {
            BackendContractError::UnknownWindow { backend_id } =>
                "backend window is not live in this incarnation: BackendWindowId("@
                    + seq!['"'] + quoted(backend_id@) + seq!['"'] + ")"@,
            BackendContractError::ConflictingBackendIdentity =>
                "backend identity already has a different Realm assignment"@,
            BackendContractError::ConflictingRealmIdentity =>
                "Realm window id already has a different backend identity"@,
            BackendContractError::UnknownWindowReference =>
                "backend identity was referenced before current-incarnation open"@,
            BackendContractError::UnknownBinding { id } =>
                "backend reported an unconfigured binding id: BackendBindingId("@
                    + decimal(id@ as nat) + ")"@,
            BackendContractError::NonCanonicalModifiers =>
                "backend modifier vectors are not canonical sorted unique subsets"@,
            BackendContractError::InvalidPolicySequence =>
                "backend emitted an invalid policy transaction sequence"@,
        }
    }

    /// Render the error's human-readable message.
    pub fn message(&self) -> (m: String)
        ensures
            m@ == self.spec_message(),
    {
        match self {
            BackendContractError::UnknownWindow { backend_id } => {
                let mut m = String::from_str(
                    "backend window is not live in this incarnation: BackendWindowId(",
                );
                push_quoted(&mut m, backend_id.as_str());
                m.append(")");
                m
            },
            BackendContractError::ConflictingBackendIdentity => String::from_str(
                "backend identity already has a different Realm assignment",
            ),
            BackendContractError::ConflictingRealmIdentity => String::from_str(
                "Realm window id already has a different backend identity",
            ),
            BackendContractError::UnknownWindowReference => String::from_str(
                "backend identity was referenced before current-incarnation open",
            ),
            BackendContractError::UnknownBinding { id } => {
                let mut m = String::from_str(
                    "backend reported an unconfigured binding id: BackendBindingId(",
                );
                push_decimal(&mut m, id.get() as u64);
                m.append(")");
                m
            },
            BackendContractError::NonCanonicalModifiers => String::from_str(
                "backend modifier vectors are not canonical sorted unique subsets",
            ),
            BackendContractError::InvalidPolicySequence => String::from_str(
                "backend emitted an invalid policy transaction sequence",
            ),
        }
    }
}

} // verus!
