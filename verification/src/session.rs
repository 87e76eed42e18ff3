//! Session persistence records, lifecycle vocabulary and visible-text normalisation.
use vstd::prelude::*;

use crate::backend::{BackendTicket, BackendWindowId};

verus! {

// ---------------------------------------------------------------------------
// Snapshot records
// ---------------------------------------------------------------------------

/// Number of orbits in every ledger.
pub const ORBIT_COUNT: usize = 6;

/// Snapshot schema version written and accepted.
pub const SNAPSHOT_SCHEMA_VERSION: u32 = 1;

/// Control protocol version recorded in snapshots.
pub const PROTOCOL_VERSION: u32 = 1;

/// Canonical orbit names, by orbit index.
pub open spec fn orbit_name(index: int) -> Seq<char> {
    if index == 0 {
        "triptych"@
    } else if index == 1 {
        "scriptorium"@
    } else if index == 2 {
        "observatory"@
    } else if index == 3 {
        "forge"@
    } else if index == 4 {
        "athenaeum"@
    } else {
        "crypt"@
    }
}

fn orbit_name_str(index: usize) -> (s: &'static str)
    requires
        index < ORBIT_COUNT,
    ensures
        s@ == orbit_name(index as int),
{
    if index == 0 {
        "triptych"
    } else if index == 1 {
        "scriptorium"
    } else if index == 2 {
        "observatory"
    } else if index == 3 {
        "forge"
    } else if index == 4 {
        "athenaeum"
    } else {
        "crypt"
    }
}

/// Tiling layout of one orbit.
#[derive(Debug, Clone, Copy, PartialEq, Eq, Structural)]
pub enum Layout {
    /// Three-column layout.
    Triptych,
    /// One window at a time.
    Mono,
    /// Equal columns.
    Even,
}

/// One persisted orbit.
#[derive(Debug, Clone, PartialEq, Eq)]
pub struct SnapshotOrbit {
    /// Orbit index.
    pub id: u8,
    /// Window ids in ledger order.
    pub windows: Vec<u64>,
    /// Index of the focused window.
    pub focus: Option<usize>,
    /// Stowed window ids.
    pub stowed: Vec<u64>,
    /// Layout.
    pub layout: Layout,
    /// Fullscreen window id.
    pub fullscreen: Option<u64>,
    /// Orbit name.
    pub name: String,
}

/// Plain value of a persisted orbit.
pub struct OrbitValue {
    /// Orbit index.
    pub id: u8,
    /// Window ids in ledger order.
    pub windows: Seq<u64>,
    /// Index of the focused window.
    pub focus: Option<usize>,
    /// Stowed window ids.
    pub stowed: Seq<u64>,
    /// Layout.
    pub layout: Layout,
    /// Fullscreen window id.
    pub fullscreen: Option<u64>,
    /// Orbit name.
    pub name: Seq<char>,
}

impl View for SnapshotOrbit {
    type V = OrbitValue;

    open spec fn view(&self) -> OrbitValue {
        OrbitValue {
            id: self.id,
            windows: self.windows@,
            focus: self.focus,
            stowed: self.stowed@,
            layout: self.layout,
            fullscreen: self.fullscreen,
            name: self.name@,
        }
    }
}

/// One persisted ledger: six orbits and the active orbit.
#[derive(Debug, Clone, PartialEq, Eq)]
pub struct SnapshotLedger {
    /// The orbits, by index.
    pub orbits: Vec<SnapshotOrbit>,
    /// Active orbit index.
    pub active: u8,
}

/// The plain orbits of a ledger.
pub open spec fn orbit_values(orbits: Seq<SnapshotOrbit>) -> Seq<OrbitValue> {
    orbits.map_values(|o: SnapshotOrbit| o@)
}

impl SnapshotLedger {
    /// A fresh ledger: six empty canonical orbits in the triptych layout, orbit 0 active.
    pub fn new() -> (l: Self)
        ensures
            l.active == 0,
            l.orbits@.len() == ORBIT_COUNT,
            forall|i: int| 0 <= i < ORBIT_COUNT ==> {
                let o = #[trigger] l.orbits@[i]@;
                &&& o.id == i
                &&& o.windows.len() == 0
                &&& o.focus is None
                &&& o.stowed.len() == 0
                &&& o.layout == Layout::Triptych
                &&& o.fullscreen is None
                &&& o.name == orbit_name(i)
            },
    {
        let mut orbits: Vec<SnapshotOrbit> = Vec::new();
        let mut i: usize = 0;
        while i < ORBIT_COUNT
            invariant
                i <= ORBIT_COUNT,
                orbits@.len() == i,
                forall|j: int| 0 <= j < i ==> {
                    let o = #[trigger] orbits@[j]@;
                    &&& o.id == j
                    &&& o.windows.len() == 0
                    &&& o.focus is None
                    &&& o.stowed.len() == 0
                    &&& o.layout == Layout::Triptych
                    &&& o.fullscreen is None
                    &&& o.name == orbit_name(j)
                },
            decreases ORBIT_COUNT - i,
        {
            orbits.push(SnapshotOrbit {
                id: i as u8,
                windows: Vec::new(),
                focus: None,
                stowed: Vec::new(),
                layout: Layout::Triptych,
                fullscreen: None,
                name: String::from_str(orbit_name_str(i)),
            });
            i = i + 1;
        }
        SnapshotLedger { orbits, active: 0 }
    }

    /// Set the active orbit's layout.
    pub fn set_layout(&mut self, layout: Layout)
        requires
            (old(self).active as int) < old(self).orbits@.len(),
        ensures
            final(self).active == old(self).active,
            final(self).orbits@.len() == old(self).orbits@.len(),
            forall|i: int| 0 <= i < final(self).orbits@.len() && i != old(self).active
                ==> #[trigger] final(self).orbits@[i] == old(self).orbits@[i],
            final(self).orbits@[old(self).active as int]@ == (OrbitValue {
                layout,
                ..old(self).orbits@[old(self).active as int]@
            }),
    {
        let k = self.active as usize;
        let o = &self.orbits[k];
        let orbit = SnapshotOrbit {
            id: o.id,
            windows: copy_ids(&o.windows),
            focus: o.focus,
            stowed: copy_ids(&o.stowed),
            layout,
            fullscreen: o.fullscreen,
            name: o.name.clone(),
        };
        self.orbits.set(k, orbit);
    }
}

/// Stable binding between one persisted Realm id and a compositor identity.
#[derive(Debug, Clone, PartialEq, Eq)]
pub struct SnapshotBinding {
    /// Realm-owned numeric window id.
    pub win_id: u64,
    /// Stable compositor-owned identity.
    pub backend_id: BackendWindowId,
}

/// The plain bindings.
pub open spec fn binding_values(b: Seq<SnapshotBinding>) -> Seq<(u64, Seq<char>)> {
    b.map_values(|x: SnapshotBinding| (x.win_id, x.backend_id@))
}

/// Plain value of a snapshot.
pub struct SnapshotValue {
    /// Schema version.
    pub schema_version: u32,
    /// Protocol version.
    pub protocol_version: u32,
    /// Orbits of the ledger.
    pub orbits: Seq<OrbitValue>,
    /// The ledger's active orbit.
    pub ledger_active: u8,
    /// Window bindings.
    pub bindings: Seq<(u64, Seq<char>)>,
    /// Next window id watermark.
    pub next_win_id: u64,
    /// Recorded active orbit.
    pub active_orbit: u8,
}

/// Closed, versioned persistence record for one authoritative live session.
#[derive(Debug)]
pub struct SessionSnapshotV1 {
    schema_version: u32,
    protocol_version: u32,
    ledger: SnapshotLedger,
    bindings: Vec<SnapshotBinding>,
    next_win_id: u64,
    active_orbit: u8,
}

impl View for SessionSnapshotV1 {
    type V = SnapshotValue;

    open spec fn view(&self) -> SnapshotValue {
        self.value()
    }
}

/// Failure to decode or validate a persisted session snapshot.
#[derive(Debug, Clone, PartialEq, Eq)]
pub enum SessionSnapshotError {
    /// The record is not valid JSON or does not match the closed schema.
    Encoding(String),
    /// The record violates a snapshot invariant.
    Invalid(&'static str),
}

impl SessionSnapshotError {
    /// The error's message.
    pub open spec fn spec_message(&self) -> Seq<char> {
        match self {
            SessionSnapshotError::Encoding(m) => "invalid session snapshot encoding: "@ + m@,
            SessionSnapshotError::Invalid(m) => "invalid session snapshot: "@ + m@,
        }
    }

    /// Render the error's message.
    pub fn message(&self) -> (m: String)
        ensures
            m@ == self.spec_message(),
    {
        match self {
            SessionSnapshotError::Encoding(detail) => {
                let mut m = String::from_str("invalid session snapshot encoding: ");
                m.append(detail.as_str());
                m
            },
            SessionSnapshotError::Invalid(detail) => {
                let mut m = String::from_str("invalid session snapshot: ");
                m.append(detail);
                m
            },
        }
    }
}

/// Whether `x` occurs in `s`.
pub open spec fn occurs(s: Seq<u64>, x: u64) -> bool {
    exists|i: int| 0 <= i < s.len() && s[i] == x
}

/// The first invalid window id of an orbit, given the windows of earlier orbits.
pub open spec fn window_ids_invalid(w: Seq<u64>, seen: Seq<u64>, next_win_id: u64) -> bool {
    exists|j: int| 0 <= j < w.len() && (w[j] >= next_win_id || occurs(seen, #[trigger] w[j]) || occurs(w.take(j), w[j]))
}

/// Whether an orbit's stowed list is not a unique subset of its windows.
pub open spec fn stowed_invalid(w: Seq<u64>, st: Seq<u64>) -> bool {
    exists|j: int| 0 <= j < st.len() && (!occurs(w, #[trigger] st[j]) || occurs(st.take(j), st[j]))
}

/// The message of the first invariant an orbit violates, given earlier windows.
pub open spec fn orbit_error(o: OrbitValue, index: int, seen: Seq<u64>, next_win_id: u64) -> Option<Seq<char>> {
    if o.id != index {
        Some("orbit ids are not canonical"@)
    } else if o.name != orbit_name(index) {
        Some("orbit names are not canonical"@)
    } else if o.focus is None && o.windows.len() > 0 {
        Some("occupied orbit has no focus"@)
    } else if o.focus is Some && o.windows.len() == 0 {
        Some("empty orbit has a focus"@)
    } else if o.focus is Some && o.focus.unwrap() >= o.windows.len() {
        Some("orbit focus is out of range"@)
    } else if window_ids_invalid(o.windows, seen, next_win_id) {
        Some("window ids must be unique and below the watermark"@)
    } else if stowed_invalid(o.windows, o.stowed) {
        Some("stowed windows must be a unique subset of the orbit"@)
    } else if o.fullscreen is Some && !occurs(o.windows, o.fullscreen.unwrap()) {
        Some("fullscreen window must belong to the orbit"@)
    } else {
        None
    }
}

/// All windows of the first `n` orbits, in ledger order.
pub open spec fn windows_before(orbits: Seq<OrbitValue>, n: int) -> Seq<u64>
    decreases n,
{
    if n <= 0 {
        Seq::empty()
    } else {
        windows_before(orbits, n - 1) + orbits[n - 1].windows
    }
}

/// The first orbit error among orbits `0..n`.
pub open spec fn orbits_error(orbits: Seq<OrbitValue>, n: int, next_win_id: u64) -> Option<Seq<char>>
    decreases n,
{
    if n <= 0 {
        None
    } else {
        match orbits_error(orbits, n - 1, next_win_id) {
            Some(m) => Some(m),
            None => orbit_error(orbits[n - 1], n - 1, windows_before(orbits, n - 1), next_win_id),
        }
    }
}

/// The first binding error among bindings `0..n`.
pub open spec fn bindings_error(b: Seq<(u64, Seq<char>)>, n: int) -> Option<Seq<char>>
    decreases n,
{
    if n <= 0 {
        None
    } else {
        match bindings_error(b, n - 1) {
            Some(m) => Some(m),
            None => {
                let x = b[n - 1];
                if exists|k: int| #![trigger b[k]] 0 <= k < n - 1 && (b[k].0 == x.0 || b[k].1 == x.1) {
                    Some("bindings must be a one-to-one mapping"@)
                } else if n >= 2 && b[n - 2].0 >= x.0 {
                    Some("bindings must be strictly sorted by window id"@)
                } else {
                    None
                }
            },
        }
    }
}

/// Whether some binding names window `x`.
pub open spec fn is_bound(b: Seq<(u64, Seq<char>)>, x: u64) -> bool {
    exists|k: int| 0 <= k < b.len() && #[trigger] b[k].0 == x
}

/// Whether the bound windows are exactly the ledger's windows.
pub open spec fn bindings_cover(b: Seq<(u64, Seq<char>)>, ledger_windows: Seq<u64>) -> bool {
    &&& forall|k: int| 0 <= k < b.len() ==> occurs(ledger_windows, #[trigger] b[k].0)
    &&& forall|j: int| 0 <= j < ledger_windows.len() ==> is_bound(b, #[trigger] ledger_windows[j])
}

/// The first invariant a snapshot violates, in check order, or `None` when it is valid.
pub open spec fn snapshot_error(v: SnapshotValue) -> Option<Seq<char>> {
    if v.schema_version != SNAPSHOT_SCHEMA_VERSION {
        Some("unsupported schema version"@)
    } else if v.protocol_version != PROTOCOL_VERSION {
        Some("protocol version mismatch"@)
    } else if v.active_orbit != v.ledger_active {
        Some("active orbit disagrees with ledger"@)
    } else if v.active_orbit >= ORBIT_COUNT {
        Some("active orbit is out of range"@)
    } else if v.orbits.len() != ORBIT_COUNT {
        Some("ledger must contain six orbits"@)
    } else if orbits_error(v.orbits, ORBIT_COUNT as int, v.next_win_id) is Some {
        orbits_error(v.orbits, ORBIT_COUNT as int, v.next_win_id)
    } else if bindings_error(v.bindings, v.bindings.len() as int) is Some {
        bindings_error(v.bindings, v.bindings.len() as int)
    } else if !bindings_cover(v.bindings, windows_before(v.orbits, ORBIT_COUNT as int)) {
        Some("bindings must cover the ledger exactly"@)
    } else {
        None
    }
}

} // verus!

verus! {

/// An element-wise copy of a list of window ids.
pub fn copy_ids(v: &Vec<u64>) -> (r: Vec<u64>)
    ensures
        r@ == v@,
{
    let mut r: Vec<u64> = Vec::new();
    let mut i: usize = 0;
    while i < v.len()
        invariant
            i <= v@.len(),
            r@ == v@.take(i as int),
        decreases v.len() - i,
    {
        r.push(v[i]);
        assert(v@.take(i + 1) =~= v@.take(i as int).push(v@[i as int]));
        i = i + 1;
    }
    assert(v@.take(i as int) =~= v@);
    r
}

fn occurs_in(v: &Vec<u64>, hi: usize, x: u64) -> (r: bool)
    requires
        hi <= v@.len(),
    ensures
        r == occurs(v@.take(hi as int), x),
{
    let mut i: usize = 0;
    while i < hi
        invariant
            hi <= v@.len(),
            i <= hi,
            forall|k: int| 0 <= k < i ==> v@[k] != x,
        decreases hi - i,
    {
        if v[i] == x {
            assert(v@.take(hi as int)[i as int] == x);
            return true;
        }
        i = i + 1;
    }
    false
}

#[verifier::loop_isolation(false)]
fn orbit_check(o: &SnapshotOrbit, index: usize, seen: &Vec<u64>, next_win_id: u64) -> (r: Option<&'static str>)
    requires
        index < ORBIT_COUNT,
    ensures
        match r {
            Some(m) => orbit_error(o@, index as int, seen@, next_win_id) == Some(m@),
            None => orbit_error(o@, index as int, seen@, next_win_id) is None,
        },
{
    if o.id as usize != index {
        return Some("orbit ids are not canonical");
    }
    if !crate::text::str_equal(o.name.as_str(), orbit_name_str(index)) {
        return Some("orbit names are not canonical");
    }
    match o.focus {
        None => {
            if o.windows.len() > 0 {
                return Some("occupied orbit has no focus");
            }
        },
        Some(focus) => {
            if o.windows.len() == 0 {
                return Some("empty orbit has a focus");
            }
            if focus >= o.windows.len() {
                return Some("orbit focus is out of range");
            }
        },
    }
    let w = &o.windows;
    let mut j: usize = 0;
    while j < w.len()
        invariant
            j <= w@.len(),
            w@ == o.windows@,
            forall|k: int| 0 <= k < j ==> !(w@[k] >= next_win_id || occurs(seen@, #[trigger] w@[k]) || occurs(w@.take(k), w@[k])),
        decreases w.len() - j,
    {
        let x = w[j];
        let in_seen = occurs_in(seen, seen.len(), x);
        assert(seen@.take(seen@.len() as int) =~= seen@);
        if x >= next_win_id || in_seen || occurs_in(w, j, x) {
            assert(window_ids_invalid(o.windows@, seen@, next_win_id));
            return Some("window ids must be unique and below the watermark");
        }
        j = j + 1;
    }
    assert(!window_ids_invalid(o.windows@, seen@, next_win_id));
    let st = &o.stowed;
    let mut j: usize = 0;
    while j < st.len()
        invariant
            j <= st@.len(),
            st@ == o.stowed@,
            forall|k: int| 0 <= k < j ==> !(!occurs(o.windows@, #[trigger] st@[k]) || occurs(st@.take(k), st@[k])),
        decreases st.len() - j,
    {
        let x = st[j];
        let in_windows = occurs_in(&o.windows, o.windows.len(), x);
        assert(o.windows@.take(o.windows@.len() as int) =~= o.windows@);
        if !in_windows || occurs_in(st, j, x) {
            assert(stowed_invalid(o.windows@, o.stowed@));
            return Some("stowed windows must be a unique subset of the orbit");
        }
        j = j + 1;
    }
    assert(!stowed_invalid(o.windows@, o.stowed@));
    if let Some(f) = o.fullscreen {
        let present = occurs_in(&o.windows, o.windows.len(), f);
        assert(o.windows@.take(o.windows@.len() as int) =~= o.windows@);
        if !present {
            return Some("fullscreen window must belong to the orbit");
        }
    }
    None
}

impl SessionSnapshotV1 {
    /// The snapshot's plain value.
    pub closed spec fn value(&self) -> SnapshotValue {
        SnapshotValue {
            schema_version: self.schema_version,
            protocol_version: self.protocol_version,
            orbits: orbit_values(self.ledger.orbits@),
            ledger_active: self.ledger.active,
            bindings: binding_values(self.bindings@),
            next_win_id: self.next_win_id,
            active_orbit: self.active_orbit,
        }
    }

    /// Check every snapshot invariant, reporting the first violation.
    #[verifier::loop_isolation(false)]
    pub fn validate(&self) -> (r: Result<(), SessionSnapshotError>)
        ensures
            match r {
                Ok(()) => snapshot_error(self@) is None,
                Err(SessionSnapshotError::Invalid(m)) => snapshot_error(self@) == Some(m@),
                Err(SessionSnapshotError::Encoding(_)) => false,
            },
    {
        let ghost v = self@;
        if self.schema_version != SNAPSHOT_SCHEMA_VERSION {
            return Err(SessionSnapshotError::Invalid("unsupported schema version"));
        }
        if self.protocol_version != PROTOCOL_VERSION {
            return Err(SessionSnapshotError::Invalid("protocol version mismatch"));
        }
        if self.active_orbit != self.ledger.active {
            return Err(SessionSnapshotError::Invalid("active orbit disagrees with ledger"));
        }
        if self.active_orbit as usize >= ORBIT_COUNT {
            return Err(SessionSnapshotError::Invalid("active orbit is out of range"));
        }
        let orbits = &self.ledger.orbits;
        if orbits.len() != ORBIT_COUNT {
            return Err(SessionSnapshotError::Invalid("ledger must contain six orbits"));
        }
        let mut seen: Vec<u64> = Vec::new();
        let mut index: usize = 0;
        while index < ORBIT_COUNT
            invariant
                index <= ORBIT_COUNT,
                orbits@.len() == ORBIT_COUNT,
                v == self@,
                v.orbits == orbit_values(orbits@),
                seen@ == windows_before(v.orbits, index as int),
                orbits_error(v.orbits, index as int, v.next_win_id) is None,
            decreases ORBIT_COUNT - index,
        {
            let o = &orbits[index];
            assert(v.orbits[index as int] == o@);
            match orbit_check(o, index, &seen, self.next_win_id) {
                Some(m) => {
                    assert(orbits_error(v.orbits, index + 1, v.next_win_id) == Some(m@));
                    proof {
                        lemma_orbits_error_sticky(v.orbits, index + 1, ORBIT_COUNT as int, v.next_win_id);
                    }
                    return Err(SessionSnapshotError::Invalid(m));
                },
                None => {},
            }
            let mut k: usize = 0;
            let ghost base = seen@;
            while k < o.windows.len()
                invariant
                    k <= o.windows@.len(),
                    seen@ == base + o.windows@.take(k as int),
                decreases o.windows.len() - k,
            {
                seen.push(o.windows[k]);
                assert(o.windows@.take(k + 1) =~= o.windows@.take(k as int).push(o.windows@[k as int]));
                k = k + 1;
            }
            assert(o.windows@.take(k as int) =~= o.windows@);
            index = index + 1;
        }
        let b = &self.bindings;
        let mut n: usize = 0;
        while n < b.len()
            invariant
                n <= b@.len(),
                v == self@,
                v.bindings == binding_values(b@),
                bindings_error(v.bindings, n as int) is None,
            decreases b.len() - n,
        {
            let x = &b[n];
            let mut k: usize = 0;
            while k < n
                invariant
                    k <= n < b@.len(),
                    v.bindings == binding_values(b@),
                    forall|m: int| 0 <= m < k ==> !(#[trigger] v.bindings[m].0 == v.bindings[n as int].0
                        || v.bindings[m].1 == v.bindings[n as int].1),
                decreases n - k,
            {
                if b[k].win_id == x.win_id || crate::text::str_equal(b[k].backend_id.as_str(), x.backend_id.as_str()) {
                    assert(v.bindings[k as int] == (b@[k as int].win_id, b@[k as int].backend_id@));
                    assert(v.bindings[n as int] == (b@[n as int].win_id, b@[n as int].backend_id@));
                    assert(v.bindings[k as int].0 == v.bindings[n as int].0 || v.bindings[k as int].1 == v.bindings[n as int].1);
                    assert(bindings_error(v.bindings, n + 1) is Some);
                    proof {
                        lemma_bindings_error_sticky(v.bindings, n + 1, v.bindings.len() as int);
                    }
                    return Err(SessionSnapshotError::Invalid("bindings must be a one-to-one mapping"));
                }
                k = k + 1;
            }
            assert(forall|m: int| 0 <= m < n ==> !(#[trigger] v.bindings[m].0 == v.bindings[n as int].0
                || v.bindings[m].1 == v.bindings[n as int].1));
            assert(v.bindings[n as int] == (b@[n as int].win_id, b@[n as int].backend_id@));
            if n >= 1 && b[n - 1].win_id >= x.win_id {
                assert(v.bindings[n - 1] == (b@[n - 1].win_id, b@[n - 1].backend_id@));
                assert(bindings_error(v.bindings, n + 1) is Some);
                proof {
                    lemma_bindings_error_sticky(v.bindings, n + 1, v.bindings.len() as int);
                }
                return Err(SessionSnapshotError::Invalid("bindings must be strictly sorted by window id"));
            }
            n = n + 1;
        }
        let mut k: usize = 0;
        while k < b.len()
            invariant
                k <= b@.len(),
                v.bindings == binding_values(b@),
                seen@ == windows_before(v.orbits, ORBIT_COUNT as int),
                forall|m: int| 0 <= m < k ==> occurs(seen@, #[trigger] v.bindings[m].0),
            decreases b.len() - k,
        {
            let present = occurs_in(&seen, seen.len(), b[k].win_id);
            assert(seen@.take(seen@.len() as int) =~= seen@);
            if !present {
                assert(!occurs(seen@, v.bindings[k as int].0));
                return Err(SessionSnapshotError::Invalid("bindings must cover the ledger exactly"));
            }
            k = k + 1;
        }
        let mut j: usize = 0;
        while j < seen.len()
            invariant
                j <= seen@.len(),
                v.bindings == binding_values(b@),
                seen@ == windows_before(v.orbits, ORBIT_COUNT as int),
                forall|m: int| 0 <= m < b@.len() ==> occurs(seen@, #[trigger] v.bindings[m].0),
                forall|i: int| 0 <= i < j ==> is_bound(v.bindings, #[trigger] seen@[i]),
            decreases seen.len() - j,
        {
            let mut m: usize = 0;
            let mut found = false;
            while m < b.len()
                invariant
                    m <= b@.len(),
                    j < seen@.len(),
                    v.bindings == binding_values(b@),
                    found ==> is_bound(v.bindings, seen@[j as int]),
                    !found ==> forall|q: int| 0 <= q < m ==> #[trigger] v.bindings[q].0 != seen@[j as int],
                decreases b.len() - m,
            {
                if b[m].win_id == seen[j] {
                    found = true;
                    assert(v.bindings[m as int].0 == seen@[j as int]);
                }
                m = m + 1;
            }
            if !found {
                assert(!bindings_cover(v.bindings, seen@));
                return Err(SessionSnapshotError::Invalid("bindings must cover the ledger exactly"));
            }
            j = j + 1;
        }
        Ok(())
    }
}

proof fn lemma_orbits_error_sticky(orbits: Seq<OrbitValue>, m: int, n: int, next: u64)
    requires
        0 <= m <= n,
        orbits_error(orbits, m, next) is Some,
    ensures
        orbits_error(orbits, n, next) == orbits_error(orbits, m, next),
    decreases n - m,
{
    if m < n {
        lemma_orbits_error_sticky(orbits, m, n - 1, next);
    }
}

proof fn lemma_bindings_error_sticky(b: Seq<(u64, Seq<char>)>, m: int, n: int)
    requires
        0 <= m <= n,
        bindings_error(b, m) is Some,
    ensures
        bindings_error(b, n) == bindings_error(b, m),
    decreases n - m,
{
    if m < n {
        lemma_bindings_error_sticky(b, m, n - 1);
    }
}

} // verus!

verus! {

/// The plain value of a snapshot built from a ledger, bindings and watermark.
pub open spec fn candidate_value(ledger: SnapshotLedger, bindings: Seq<SnapshotBinding>, next_win_id: u64) -> SnapshotValue {
    SnapshotValue {
        schema_version: SNAPSHOT_SCHEMA_VERSION,
        protocol_version: PROTOCOL_VERSION,
        orbits: orbit_values(ledger.orbits@),
        ledger_active: ledger.active,
        bindings: binding_values(bindings),
        next_win_id,
        active_orbit: ledger.active,
    }
}

fn same_ids(a: &Vec<u64>, b: &Vec<u64>) -> (r: bool)
    ensures
        r == (a@ == b@),
{
    if a.len() != b.len() {
        return false;
    }
    let mut i: usize = 0;
    while i < a.len()
        invariant
            a@.len() == b@.len(),
            i <= a@.len(),
            forall|j: int| 0 <= j < i ==> a@[j] == b@[j],
        decreases a.len() - i,
    {
        if a[i] != b[i] {
            return false;
        }
        i = i + 1;
    }
    assert(a@ =~= b@);
    true
}

fn same_orbit(a: &SnapshotOrbit, b: &SnapshotOrbit) -> (r: bool)
    ensures
        r == (a@ == b@),
{
    let same_scalars = a.id == b.id && a.focus == b.focus && a.layout == b.layout
        && a.fullscreen == b.fullscreen;
    if !same_scalars {
        return false;
    }
    let r = same_ids(&a.windows, &b.windows) && same_ids(&a.stowed, &b.stowed)
        && crate::text::str_equal(a.name.as_str(), b.name.as_str());
    r
}

impl SessionSnapshotV1 {
    /// Construct and validate a version-one snapshot of a ledger.
    pub fn new(ledger: SnapshotLedger, bindings: Vec<SnapshotBinding>, next_win_id: u64) -> (r: Result<Self, SessionSnapshotError>)
        ensures
            match r {
                Ok(s) => s@ == candidate_value(ledger, bindings@, next_win_id)
                    && snapshot_error(s@) is None,
                Err(SessionSnapshotError::Invalid(m)) =>
                    snapshot_error(candidate_value(ledger, bindings@, next_win_id)) == Some(m@),
                Err(SessionSnapshotError::Encoding(_)) => false,
            },
    {
        let active_orbit = ledger.active;
        let snapshot = SessionSnapshotV1 {
            schema_version: SNAPSHOT_SCHEMA_VERSION,
            protocol_version: PROTOCOL_VERSION,
            ledger,
            bindings,
            next_win_id,
            active_orbit,
        };
        match snapshot.validate() {
            Ok(()) => Ok(snapshot),
            Err(e) => Err(e),
        }
    }

    /// Rebuild a snapshot from its six decoded fields, accepting it only if
    /// every snapshot invariant holds.
    pub fn decode(
        schema_version: u32,
        protocol_version: u32,
        ledger: SnapshotLedger,
        bindings: Vec<SnapshotBinding>,
        next_win_id: u64,
        active_orbit: u8,
    ) -> (r: Result<Self, SessionSnapshotError>)
        ensures
            ({
                let v = SnapshotValue {
                    schema_version,
                    protocol_version,
                    orbits: orbit_values(ledger.orbits@),
                    ledger_active: ledger.active,
                    bindings: binding_values(bindings@),
                    next_win_id,
                    active_orbit,
                };
                match r {
                    Ok(s) => s@ == v && snapshot_error(v) is None,
                    Err(SessionSnapshotError::Invalid(m)) => snapshot_error(v) == Some(m@),
                    Err(SessionSnapshotError::Encoding(_)) => false,
                }
            }),
    {
        let snapshot = SessionSnapshotV1 {
            schema_version,
            protocol_version,
            ledger,
            bindings,
            next_win_id,
            active_orbit,
        };
        match snapshot.validate() {
            Ok(()) => Ok(snapshot),
            Err(e) => Err(e),
        }
    }

    /// Schema version of the record.
    pub fn schema_version(&self) -> (v: u32)
        ensures
            v == self@.schema_version,
    {
        self.schema_version
    }

    /// Protocol version the record was written under.
    pub fn protocol_version(&self) -> (v: u32)
        ensures
            v == self@.protocol_version,
    {
        self.protocol_version
    }

    /// Recorded active orbit.
    pub fn active_orbit(&self) -> (a: u8)
        ensures
            a == self@.active_orbit,
    {
        self.active_orbit
    }

    /// Sorted persisted bindings.
    pub fn bindings(&self) -> (b: &[SnapshotBinding])
        ensures
            binding_values(b@) == self@.bindings,
    {
        self.bindings.as_slice()
    }

    /// Next numeric id, or the exhausted sentinel.
    pub fn next_win_id(&self) -> (n: u64)
        ensures
            n == self@.next_win_id,
    {
        self.next_win_id
    }

    /// The persisted ledger.
    pub fn ledger(&self) -> (l: &SnapshotLedger)
        ensures
            orbit_values(l.orbits@) == self@.orbits,
            l.active == self@.ledger_active,
    {
        &self.ledger
    }

    /// Whether two snapshots hold the same value.
    pub fn same_as(&self, other: &Self) -> (r: bool)
        ensures
            r == (self@ == other@),
    {
        let ghost a = self@;
        let ghost b = other@;
        if self.schema_version != other.schema_version || self.protocol_version != other.protocol_version
            || self.next_win_id != other.next_win_id || self.active_orbit != other.active_orbit
            || self.ledger.active != other.ledger.active {
            return false;
        }
        if self.ledger.orbits.len() != other.ledger.orbits.len() {
            assert(a.orbits.len() != b.orbits.len());
            return false;
        }
        if self.bindings.len() != other.bindings.len() {
            assert(a.bindings.len() != b.bindings.len());
            return false;
        }
        let mut i: usize = 0;
        while i < self.ledger.orbits.len()
            invariant
                i <= self.ledger.orbits@.len(),
                self.ledger.orbits@.len() == other.ledger.orbits@.len(),
                a == self@,
                b == other@,
                forall|j: int| 0 <= j < i ==> a.orbits[j] == b.orbits[j],
            decreases self.ledger.orbits.len() - i,
        {
            if !same_orbit(&self.ledger.orbits[i], &other.ledger.orbits[i]) {
                assert(a.orbits[i as int] != b.orbits[i as int]);
                return false;
            }
            i = i + 1;
        }
        let mut k: usize = 0;
        while k < self.bindings.len()
            invariant
                k <= self.bindings@.len(),
                self.bindings@.len() == other.bindings@.len(),
                a == self@,
                b == other@,
                forall|j: int| 0 <= j < k ==> a.bindings[j] == b.bindings[j],
            decreases self.bindings.len() - k,
        {
            if self.bindings[k].win_id != other.bindings[k].win_id
                || !crate::text::str_equal(self.bindings[k].backend_id.as_str(), other.bindings[k].backend_id.as_str()) {
                assert(a.bindings[k as int] != b.bindings[k as int]);
                return false;
            }
            k = k + 1;
        }
        assert(a.orbits =~= b.orbits);
        assert(a.bindings =~= b.bindings);
        true
    }
}

/// The value of an optional snapshot.
pub open spec fn opt_value(o: Option<SessionSnapshotV1>) -> Option<SnapshotValue> {
    match o {
        Some(s) => Some(s@),
        None => None,
    }
}

/// Whether two optional snapshots hold the same value.
pub fn same_snapshot(a: &Option<SessionSnapshotV1>, b: &Option<SessionSnapshotV1>) -> (r: bool)
    ensures
        r == (opt_value(*a) == opt_value(*b)),
{
    match (a, b) {
        (Some(a), Some(b)) => a.same_as(b),
        (None, None) => true,
        _ => false,
    }
}

/// The later snapshot when its value differs from the earlier one.
pub fn changed_snapshot(before: Option<SessionSnapshotV1>, after: Option<SessionSnapshotV1>) -> (r: Option<SessionSnapshotV1>)
    ensures
        opt_value(r) == (if opt_value(before) != opt_value(after) {
            opt_value(after)
        } else {
            None
        }),
{
    if same_snapshot(&before, &after) {
        None
    } else {
        after
    }
}

} // verus!

verus! {

fn copy_orbit(o: &SnapshotOrbit) -> (r: SnapshotOrbit)
    ensures
        r@ == o@,
{
    SnapshotOrbit {
        id: o.id,
        windows: copy_ids(&o.windows),
        focus: o.focus,
        stowed: copy_ids(&o.stowed),
        layout: o.layout,
        fullscreen: o.fullscreen,
        name: o.name.clone(),
    }
}

impl Clone for SessionSnapshotV1 {
    fn clone(&self) -> (c: Self)
        ensures
            c@ == self@,
    {
        let mut orbits: Vec<SnapshotOrbit> = Vec::new();
        let mut i: usize = 0;
        while i < self.ledger.orbits.len()
            invariant
                i <= self.ledger.orbits@.len(),
                orbits@.len() == i,
                forall|j: int| 0 <= j < i ==> #[trigger] orbits@[j]@ == self.ledger.orbits@[j]@,
            decreases self.ledger.orbits.len() - i,
        {
            orbits.push(copy_orbit(&self.ledger.orbits[i]));
            i = i + 1;
        }
        let mut bindings: Vec<SnapshotBinding> = Vec::new();
        let mut k: usize = 0;
        while k < self.bindings.len()
            invariant
                k <= self.bindings@.len(),
                bindings@.len() == k,
                forall|j: int| 0 <= j < k ==> (#[trigger] bindings@[j]).win_id == self.bindings@[j].win_id
                    && bindings@[j].backend_id@ == self.bindings@[j].backend_id@,
            decreases self.bindings.len() - k,
        {
            let b = &self.bindings[k];
            bindings.push(SnapshotBinding { win_id: b.win_id, backend_id: b.backend_id.clone() });
            k = k + 1;
        }
        let c = SessionSnapshotV1 {
            schema_version: self.schema_version,
            protocol_version: self.protocol_version,
            ledger: SnapshotLedger { orbits, active: self.ledger.active },
            bindings,
            next_win_id: self.next_win_id,
            active_orbit: self.active_orbit,
        };
        assert(c@.orbits =~= self@.orbits);
        assert(c@.bindings =~= self@.bindings);
        c
    }
}

} // verus!

verus! {

// ---------------------------------------------------------------------------
// Lifecycle vocabulary
// ---------------------------------------------------------------------------

/// Recovery position relative to the backend's explicit replay barrier.
#[derive(Debug, Clone, Copy, PartialEq, Eq, Structural)]
pub enum RecoveryPhase {
    /// Initial compositor windows are being accumulated without side effects.
    InitialReplay,
    /// Reconciliation is installed and backend work must finish before events continue.
    FinalizingReplay,
    /// The session is authoritative and accepts live events and desired actions.
    Live,
    /// A finalized Quit has stopped ordinary admission.
    QuitPending,
    /// Shutdown has discarded ordinary transaction semantics.
    ShuttingDown,
    /// The backend accepted the one terminal exit request.
    Exiting,
    /// The expected post-flush disconnect completed the session.
    ExitComplete,
}

/// Metadata retained for a window independently of the ledger's ordering.
#[derive(Debug, Clone, PartialEq, Eq)]
pub struct WindowMetadata {
    /// Application identifier reported by the compositor.
    pub app_id: String,
    /// Latest non-null title reported by the compositor.
    pub title: String,
}

/// Immediate programming edge for the sole key-repeat timer.
#[derive(Debug, Clone, Copy, PartialEq, Eq, Structural)]
pub enum RepeatTimerDirective {
    /// Preserve the current timer programming.
    Preserve,
    /// Arm or restart the timer with the fixed policy.
    Arm {
        /// Delay before the first expiry, in nanoseconds.
        delay_nanos: u64,
        /// Interval between later expiries, in nanoseconds.
        interval_nanos: u64,
    },
    /// Disarm the timer immediately.
    Disarm,
}

impl Default for RepeatTimerDirective {
    fn default() -> (d: Self)
        ensures
            d == RepeatTimerDirective::Preserve,
    {
        RepeatTimerDirective::Preserve
    }
}

/// The fixed arming edge: the initial repeat delay, then one expiry per repeat period.
pub fn repeat_arm() -> (d: RepeatTimerDirective)
    ensures
        d == (RepeatTimerDirective::Arm {
            delay_nanos: (crate::backend::KEY_REPEAT_DELAY_MS * 1_000_000) as u64,
            interval_nanos: ((1_000int / crate::backend::KEY_REPEAT_RATE_HZ as int) * 1_000_000) as u64,
        }),
{
    RepeatTimerDirective::Arm {
        delay_nanos: crate::backend::KEY_REPEAT_DELAY_MS * 1_000_000,
        interval_nanos: (1_000 / crate::backend::KEY_REPEAT_RATE_HZ as u64) * 1_000_000,
    }
}

/// The completion barrier required after a derived Quit.
#[derive(Debug, Clone, Copy, PartialEq, Eq, Structural)]
pub enum QuitAfter {
    /// A key-only Quit has no requester.
    NoRequester,
    /// Quit shares the original external action's completion.
    OriginalAction(BackendTicket),
    /// Direct control Quit owns the current request.
    CurrentControlRequest,
}

/// Ordered work released only at a clean transaction boundary.
#[derive(Debug, Clone, PartialEq, Eq)]
pub enum SessionEffect {
    /// Launch one argv vector through the worker owner.
    Spawn(Vec<String>),
    /// Open the launcher.
    Launcher,
    /// Open the full binding sheet.
    Grimoire,
    /// Retained legacy theme action.
    ReloadTheme,
    /// Stop admission and apply the matching Quit barrier.
    QuitPending {
        /// Barrier owner that must settle before shutdown begins.
        after: QuitAfter,
    },
}

/// Failure of a caller-requested session action.
#[derive(Debug, Clone, PartialEq, Eq)]
pub enum SessionActionError {
    /// The session is not live or another backend transaction is active.
    NotReady,
    /// Spawn requires a nonempty argv and program.
    InvalidSpawnCommand,
    /// Every nonzero response ticket has been consumed.
    BackendTicketExhausted,
    /// The action reached the compositor backend and it failed.
    Backend(crate::backend::BackendError),
}

impl SessionActionError {
    /// The error's message.
    pub open spec fn spec_message(&self) -> Seq<char> {
        match self {
            SessionActionError::NotReady => "session is not ready for actions"@,
            SessionActionError::InvalidSpawnCommand => "spawn command requires a nonempty program"@,
            SessionActionError::BackendTicketExhausted => "backend response ticket space is exhausted"@,
            SessionActionError::Backend(e) => e.spec_message(),
        }
    }

    /// Render the error's message.
    pub fn message(&self) -> (m: String)
        ensures
            m@ == self.spec_message(),
    {
        match self {
            SessionActionError::NotReady => String::from_str("session is not ready for actions"),
            SessionActionError::InvalidSpawnCommand => String::from_str("spawn command requires a nonempty program"),
            SessionActionError::BackendTicketExhausted => String::from_str("backend response ticket space is exhausted"),
            SessionActionError::Backend(e) => e.message(),
        }
    }
}

/// Final result for one externally admitted action.
#[derive(Debug, PartialEq, Eq)]
pub struct ActionCompletion {
    /// Original external ticket, never a follow-up response ticket.
    pub ticket: BackendTicket,
    /// Final clean result.
    pub result: Result<(), SessionActionError>,
}

/// Whether a modifier list is a canonical strictly increasing subset.
pub open spec fn spec_canonical_modifiers(m: Seq<crate::backend::BackendModifier>) -> bool {
    m.len() <= 4 && forall|i: int| 0 <= i < m.len() - 1 ==> #[trigger] increasing_at(m, i)
}

/// Whether the modifier at `i` ranks strictly below its successor.
pub open spec fn increasing_at(m: Seq<crate::backend::BackendModifier>, i: int) -> bool {
    crate::backend::modifier_rank(m[i]) < crate::backend::modifier_rank(m[i + 1])
}

/// Check that modifiers are canonical: at most four, strictly increasing.
pub fn canonical_modifiers(modifiers: &[crate::backend::BackendModifier]) -> (r: bool)
    ensures
        r == spec_canonical_modifiers(modifiers@),
{
    if modifiers.len() > 4 {
        return false;
    }
    if modifiers.len() == 0 {
        return true;
    }
    let mut i: usize = 1;
    while i < modifiers.len()
        invariant
            1 <= i <= modifiers@.len(),
            modifiers@.len() <= 4,
            forall|k: int| 0 <= k < i - 1 ==> #[trigger] increasing_at(modifiers@, k),
        decreases modifiers.len() - i,
    {
        if crate::backend::modifier_order(modifiers[i - 1]) >= crate::backend::modifier_order(modifiers[i]) {
            assert(!increasing_at(modifiers@, i - 1));
            return false;
        }
        assert(increasing_at(modifiers@, i - 1));
        i = i + 1;
    }
    true
}

/// Append a window id unless it is already present.
pub fn push_unique(values: &mut Vec<u64>, value: u64)
    ensures
        occurs(old(values)@, value) ==> final(values)@ == old(values)@,
        !occurs(old(values)@, value) ==> final(values)@ == old(values)@.push(value),
{
    let mut i: usize = 0;
    while i < values.len()
        invariant
            i <= values@.len(),
            forall|k: int| 0 <= k < i ==> values@[k] != value,
        decreases values.len() - i,
    {
        if values[i] == value {
            return;
        }
        i = i + 1;
    }
    values.push(value);
}

// ---------------------------------------------------------------------------
// Visible text normalisation
// ---------------------------------------------------------------------------

/// Bytes a character occupies inside a JSON string literal.
pub open spec fn json_len(c: char) -> nat {
    let u = c as u32;
    if c == '"' || c == '\\' || u == 0x08 || u == 0x09 || u == 0x0a || u == 0x0c || u == 0x0d {
        2
    } else if u <= 0x1f {
        6
    } else if u < 0x80 {
        1
    } else if u < 0x800 {
        2
    } else if u < 0x10000 {
        3
    } else {
        4
    }
}

/// JSON-encoded content bytes of a character sequence.
pub open spec fn json_total(s: Seq<char>) -> nat
    decreases s.len(),
{
    if s.len() == 0 {
        0
    } else {
        json_total(s.drop_last()) + json_len(s.last())
    }
}

/// Number of leading characters kept when truncating to `cap` bytes with a trailing ellipsis.
pub open spec fn kept_prefix(s: Seq<char>, used: nat, cap: nat) -> nat
    decreases s.len(),
{
    if s.len() == 0 || used + json_len(s[0]) + 3 > cap {
        0
    } else {
        1 + kept_prefix(s.drop_first(), used + json_len(s[0]), cap)
    }
}

/// Visible text bounded to `cap` JSON content bytes: unchanged when it fits,
/// otherwise its longest fitting prefix followed by `…`.
pub open spec fn spec_normalize_visible(s: Seq<char>, cap: nat) -> Seq<char> {
    if json_total(s) <= cap {
        s
    } else {
        s.take(kept_prefix(s, 0, cap) as int).push('…')
    }
}

/// JSON content bytes of one character.
pub fn json_content_char_len(c: char) -> (n: usize)
    ensures
        n == json_len(c),
{
    let u = c as u32;
    if c == '"' || c == '\\' || u == 0x08 || u == 0x09 || u == 0x0a || u == 0x0c || u == 0x0d {
        2
    } else if u <= 0x1f {
        6
    } else if u < 0x80 {
        1
    } else if u < 0x800 {
        2
    } else if u < 0x10000 {
        3
    } else {
        4
    }
}

proof fn lemma_kept_prefix_shift(s: Seq<char>, i: int, used: nat, cap: nat)
    requires
        0 <= i < s.len(),
        used + json_len(s[i]) + 3 <= cap,
    ensures
        kept_prefix(s.skip(i), used, cap) == 1 + kept_prefix(s.skip(i + 1), used + json_len(s[i]), cap),
{
    assert(s.skip(i).drop_first() =~= s.skip(i + 1));
}

/// Bound visible text to `cap` JSON content bytes.
pub fn normalize_visible(source: &str, cap: usize) -> (r: String)
    ensures
        r@ == spec_normalize_visible(source@, cap as nat),
{
    let chars = crate::text::chars_of(source);
    let mut encoded: u128 = 0;
    let mut i: usize = 0;
    while i < chars.len()
        invariant
            i <= chars@.len(),
            chars@ == source@,
            encoded == json_total(chars@.take(i as int)),
            encoded <= 6 * i,
        decreases chars.len() - i,
    {
        assert(chars@.take(i + 1).drop_last() =~= chars@.take(i as int));
        encoded = encoded + json_content_char_len(chars[i]) as u128;
        i = i + 1;
    }
    assert(chars@.take(i as int) =~= chars@);
    if encoded <= cap as u128 {
        return crate::text::string_of_chars(&chars);
    }
    let mut normalized = String::new();
    let mut used: u128 = 0;
    let mut k: usize = 0;
    assert(chars@.skip(0) =~= chars@);
    while k < chars.len()
        invariant
            k <= chars@.len(),
            chars@ == source@,
            used <= cap,
            normalized@ == chars@.take(k as int),
            kept_prefix(chars@, 0, cap as nat) == k + kept_prefix(chars@.skip(k as int), used as nat, cap as nat),
        ensures
            k == chars@.len() || used + json_len(chars@[k as int]) + 3 > cap,
        decreases chars.len() - k,
    {
        let width = json_content_char_len(chars[k]) as u128;
        if used + width + 3 > cap as u128 {
            break;
        }
        proof {
            lemma_kept_prefix_shift(chars@, k as int, used as nat, cap as nat);
        }
        crate::text::push_char(&mut normalized, chars[k]);
        assert(chars@.take(k + 1) =~= chars@.take(k as int).push(chars@[k as int]));
        used = used + width;
        k = k + 1;
    }
    proof {
        if k < chars@.len() {
            assert(chars@.skip(k as int)[0] == chars@[k as int]);
        }
        assert(kept_prefix(chars@.skip(k as int), used as nat, cap as nat) == 0);
    }
    crate::text::push_char(&mut normalized, '…');
    normalized
}

} // verus!

verus! {

proof fn lemma_json_total_prepend(c: char, t: Seq<char>)
    ensures
        json_total(seq![c] + t) == json_len(c) + json_total(t),
    decreases t.len(),
{
    if t.len() > 0 {
        assert((seq![c] + t).drop_last() =~= seq![c] + t.drop_last());
        assert((seq![c] + t).last() == t.last());
        lemma_json_total_prepend(c, t.drop_last());
    } else {
        assert(seq![c] + t =~= seq![c]);
        assert(seq![c].drop_last() =~= Seq::<char>::empty());
        assert(json_total(Seq::<char>::empty()) == 0);
        assert(json_total(seq![c]) == json_total(seq![c].drop_last()) + json_len(seq![c].last()));
    }
}

proof fn lemma_kept_prefix_fits(s: Seq<char>, used: nat, cap: nat)
    requires
        used + 3 <= cap,
    ensures
        kept_prefix(s, used, cap) <= s.len(),
        used + json_total(s.take(kept_prefix(s, used, cap) as int)) + 3 <= cap,
    decreases s.len(),
{
    if s.len() == 0 || used + json_len(s[0]) + 3 > cap {
        assert(s.take(0) =~= Seq::<char>::empty());
        assert(json_total(Seq::<char>::empty()) == 0);
    } else {
        let rest = s.drop_first();
        let k = kept_prefix(rest, used + json_len(s[0]), cap);
        lemma_kept_prefix_fits(rest, used + json_len(s[0]), cap);
        assert(s.take(1 + k as int) =~= seq![s[0]] + rest.take(k as int));
        lemma_json_total_prepend(s[0], rest.take(k as int));
    }
}

/// Normalized visible text always fits its budget of JSON content bytes,
/// provided the budget can hold the ellipsis itself.
pub proof fn lemma_normalized_text_fits(s: Seq<char>, cap: nat)
    requires
        cap >= 3,
    ensures
        json_total(spec_normalize_visible(s, cap)) <= cap,
{
    if json_total(s) > cap {
        let k = kept_prefix(s, 0, cap);
        lemma_kept_prefix_fits(s, 0, cap);
        let t = s.take(k as int);
        assert(t.push('…').drop_last() =~= t);
        assert(json_len('…') == 3);
    }
}

/// Normalizing twice changes nothing more than normalizing once.
pub proof fn lemma_normalize_idempotent(s: Seq<char>, cap: nat)
    requires
        cap >= 3,
    ensures
        spec_normalize_visible(spec_normalize_visible(s, cap), cap) == spec_normalize_visible(s, cap),
{
    lemma_normalized_text_fits(s, cap);
}

} // verus!
