//! The manage phase of a policy response on the River objects: the selected
//! output becomes the default, placements become window states, focus
//! follows the focused placement, and binding and modifier policy is brought
//! to what the response asks.
use vstd::prelude::*;

use crate::backend::objects::{
    find_binding_object, Link, window_ordinals, PendingResponse, ResponseStage,
    find_realm, find_seat, find_window, find_window_id, id_views, no_requests, refuse,
    window_index, window_objects, ObjectRequest, RiverObjects, RuntimeOutcome, WindowRecord,
    find_output, output_index, refused, spec_protocol_error,
};
use crate::backend::river::{modifier_mask, modifiers_bits, protocol_error};
use crate::backend::table::{
    ids_unique, increasing, key_index, keys_unique, lemma_id_index_finds, lemma_key_index_finds,
};
use crate::session::{canonical_modifiers, spec_canonical_modifiers};
use crate::backend::river::capacity;
use crate::backend::{
    BackendBindingState, BackendExitPolicy, BackendCapacityResource, BackendError, BackendPolicyTurnId, BackendSubmission, BackendTicket,
    MAX_STAGED_EFFECTS, BackendBindingId, BackendModifier, BackendNextKeyEdge, BackendPolicyResponse, BackendWindowId,
    Placement,
};

verus! {

/// The window slot Realm window `win` resolves to through the identity
/// tables, or -1.
pub open spec fn resolve(
    ws: Seq<WindowRecord>,
    realm: Seq<(u64, BackendWindowId)>,
    ids: Seq<(BackendWindowId, u32)>,
    win: u64,
) -> int {
    let r = key_index(realm, win);
    if r < 0 {
        -1
    } else {
        let k = key_index(id_views(ids), realm[r].1@);
        if k < 0 {
            -1
        } else {
            window_index(ws, ids[k].1)
        }
    }
}

/// A window placed by a response, with the requests that place it.
pub open spec fn placed(w: WindowRecord, pl: Placement, fullscreen: bool, output: u32) -> (WindowRecord, Seq<ObjectRequest>) {
    let obj = w.object;
    let init = if w.initialized {
        Seq::<ObjectRequest>::empty()
    } else {
        seq![ObjectRequest::SetTiled(obj), ObjectRequest::SetCapabilities(obj)]
    };
    let w1 = WindowRecord { initialized: true, ..w };
    if fullscreen {
        if w.fullscreen {
            (w1, init)
        } else {
            (
                WindowRecord { fullscreen: true, awaiting_dimensions: false, ..w1 },
                init + seq![ObjectRequest::Fullscreen { window: obj, output }, ObjectRequest::InformFullscreen(obj)],
            )
        }
    } else {
        let w2 = if w.fullscreen {
            WindowRecord { fullscreen: false, proposed_size: None, awaiting_dimensions: false, position: None, ..w1 }
        } else {
            w1
        };
        let r2 = if w.fullscreen {
            init + seq![ObjectRequest::ExitFullscreen(obj), ObjectRequest::InformNotFullscreen(obj)]
        } else {
            init
        };
        let size = (pl.rect.2, pl.rect.3);
        if w2.proposed_size == Some(size) {
            (w2, r2)
        } else {
            (
                WindowRecord { proposed_size: Some(size), awaiting_dimensions: true, ..w2 },
                r2.push(ObjectRequest::ProposeDimensions { window: obj, width: size.0, height: size.1 }),
            )
        }
    }
}

/// Placing windows in order: the windows, the requests, and false at the
/// first placement that names no live window.
pub open spec fn place_all(
    ws: Seq<WindowRecord>,
    realm: Seq<(u64, BackendWindowId)>,
    ids: Seq<(BackendWindowId, u32)>,
    ps: Seq<Placement>,
    fullscreen: bool,
    output: u32,
) -> (Seq<WindowRecord>, Seq<ObjectRequest>, bool)
    decreases ps.len(),
{
    if ps.len() == 0 {
        (ws, Seq::empty(), true)
    } else {
        let prev = place_all(ws, realm, ids, ps.drop_last(), fullscreen, output);
        if !prev.2 {
            prev
        } else {
            let i = resolve(prev.0, realm, ids, ps.last().win);
            if i < 0 {
                (prev.0, prev.1, false)
            } else {
                let step = placed(prev.0[i], ps.last(), fullscreen, output);
                (prev.0.update(i, step.0), prev.1 + step.1, true)
            }
        }
    }
}

/// The Realm window of the first focused placement.
pub open spec fn first_focused(ps: Seq<Placement>) -> Option<u64>
    decreases ps.len(),
{
    if ps.len() == 0 {
        None
    } else if ps[0].focused {
        Some(ps[0].win)
    } else {
        first_focused(ps.drop_first())
    }
}

/// Binding objects enabled exactly as `enabled` lists them.
pub open spec fn synced(objs: Seq<(BackendBindingId, bool)>, enabled: Seq<BackendBindingId>) -> Seq<(BackendBindingId, bool)> {
    objs.map_values(|b: (BackendBindingId, bool)| (b.0, enabled.contains(b.0)))
}

/// The requests bringing binding objects to `enabled`, in order.
pub open spec fn sync_requests(objs: Seq<(BackendBindingId, bool)>, enabled: Seq<BackendBindingId>) -> Seq<ObjectRequest>
    decreases objs.len(),
{
    if objs.len() == 0 {
        Seq::empty()
    } else {
        let b = objs.last();
        let want = enabled.contains(b.0);
        sync_requests(objs.drop_last(), enabled) + (if b.1 == want {
            Seq::<ObjectRequest>::empty()
        } else if want {
            seq![ObjectRequest::EnableBinding(b.0)]
        } else {
            seq![ObjectRequest::DisableBinding(b.0)]
        })
    }
}

/// Whether a response asks nothing of the compositor.
pub open spec fn quiet(response: BackendPolicyResponse) -> bool {
    &&& response.projection is None
    &&& response.bindings.enabled@.len() == 0
    &&& response.bindings.watched_modifiers@.len() == 0
    &&& response.bindings.next_key_edge == BackendNextKeyEdge::Preserve
}

/// Whether an outcome sends `requests` and is accepted.
pub open spec fn done(o: RuntimeOutcome, requests: Seq<ObjectRequest>) -> bool {
    o.requests@ == requests && o.result is Ok
}

/// The binding, modifier and next-key stage of a manage response, after
/// `requests` were sent and the windows became `ws` with focus `focus`.
#[verifier::opaque]
pub open spec fn spec_binding_stage(
    old: RiverObjects,
    new: RiverObjects,
    o: RuntimeOutcome,
    response: BackendPolicyResponse,
    requests: Seq<ObjectRequest>,
    ws: Seq<WindowRecord>,
    focus: Option<u64>,
) -> bool {
    let enabled = response.bindings.enabled@;
    let watched = response.bindings.watched_modifiers@;
    let rb = requests + sync_requests(old.binding_objects@, enabled);
    let watch_change = old.watched_modifiers@ != watched;
    let base = RiverObjects {
        windows: new.windows,
        binding_objects: new.binding_objects,
        default_output: old.selected_output,
        focused_window: focus,
        ..old
    };
    &&& new.windows@ == ws
    &&& new.binding_objects@ == synced(old.binding_objects@, enabled)
    &&& if watch_change && !old.xkb_seat {
        refused(o, rb, spec_protocol_error()) && new == base
    } else {
        let rw = rb + (if watch_change { seq![ObjectRequest::ModifiersWatch(modifier_mask(watched))] } else { seq![] });
        &&& new == (RiverObjects { watched_modifiers: new.watched_modifiers, ..base })
        &&& new.watched_modifiers@ == (if watch_change { watched } else { old.watched_modifiers@ })
        &&& match response.bindings.next_key_edge {
            BackendNextKeyEdge::Preserve => done(o, rw),
            BackendNextKeyEdge::Ensure => if old.xkb_seat {
                done(o, rw.push(ObjectRequest::EnsureNextKeyEaten))
            } else {
                refused(o, rw, spec_protocol_error())
            },
            BackendNextKeyEdge::Cancel => if old.xkb_seat {
                done(o, rw.push(ObjectRequest::CancelEnsureNextKeyEaten))
            } else {
                refused(o, rw, spec_protocol_error())
            },
        }
    }
}

/// The binding stage reads only the bindings, watched modifiers, seat key
/// bindings and selected output of the state it starts from.
proof fn lemma_binding_stage_rebase(
    start: RiverObjects,
    orig: RiverObjects,
    new: RiverObjects,
    o: RuntimeOutcome,
    response: BackendPolicyResponse,
    requests: Seq<ObjectRequest>,
)
    requires
        start == (RiverObjects {
            windows: start.windows,
            default_output: orig.selected_output,
            focused_window: start.focused_window,
            ..orig
        }),
        spec_binding_stage(start, new, o, response, requests, start.windows@, start.focused_window),
    ensures
        spec_binding_stage(orig, new, o, response, requests, start.windows@, start.focused_window),
{
    reveal(spec_binding_stage);
}

/// What applying a response's manage phase does.
pub open spec fn spec_apply_manage_response(
    old: RiverObjects,
    new: RiverObjects,
    o: RuntimeOutcome,
    response: BackendPolicyResponse,
) -> bool {
    let sel = old.selected_output->0;
    let oi = output_index(old.outputs@, sel);
    if old.selected_output is None {
        &&& new == old
        &&& o.requests@.len() == 0
        &&& o.result == (if quiet(response) { Ok::<(), crate::backend::BackendError>(()) } else { Err(spec_protocol_error()) })
    } else if oi < 0 || old.outputs@[oi].position is None || old.outputs@[oi].dimensions is None {
        refused(o, seq![], spec_protocol_error()) && new == old
    } else {
        let out = old.outputs@[oi];
        let pos = out.position->0;
        let dims = out.dimensions->0;
        let out_rect = (pos.0, pos.1, dims.0, dims.1);
        let r0 = if old.default_output == Some(sel) {
            Seq::<ObjectRequest>::empty()
        } else {
            seq![ObjectRequest::SetDefaultOutput(sel)]
        };
        match response.projection {
            None => spec_binding_stage(old, new, o, response, r0, old.windows@, old.focused_window),
            Some(p) => {
                let fs = p@.len() == 1 && p@[0].rect == out_rect;
                let pr = projected(old, p@, fs, sel);
                if !pr.2 {
                    &&& refused(o, r0 + pr.1, spec_protocol_error())
                    &&& new == (RiverObjects { windows: new.windows, default_output: Some(sel), ..old })
                    &&& new.windows@ == pr.0
                } else {
                    spec_binding_stage(old, new, o, response, r0 + pr.1, pr.0, pr.3)
                }
            },
        }
    }
}

/// Placing projected windows and moving focus: the windows, the requests,
/// whether every step succeeded, and the focus afterwards.
#[verifier::opaque]
pub open spec fn projected(old: RiverObjects, ps: Seq<Placement>, fullscreen: bool, sel: u32) -> (
    Seq<WindowRecord>,
    Seq<ObjectRequest>,
    bool,
    Option<u64>,
) {
    let pa = place_all(old.windows@, old.realm_ids@, old.window_ids@, ps, fullscreen, sel);
    if !pa.2 {
        (pa.0, pa.1, false, old.focused_window)
    } else {
        let focused = first_focused(ps);
        let change = !old.exclusive_focus && old.focused_window != focused;
        let seat_ok = old.selected_seat is Some && key_index(old.seats@, old.selected_seat->0) >= 0;
        let target = if focused is Some {
            resolve(pa.0, old.realm_ids@, old.window_ids@, focused->0)
        } else {
            -1
        };
        if !change {
            (pa.0, pa.1, true, old.focused_window)
        } else if !seat_ok || (focused is Some && target < 0) {
            (pa.0, pa.1, false, old.focused_window)
        } else if focused is Some {
            (pa.0, pa.1.push(ObjectRequest::FocusWindow { seat: old.selected_seat->0, window: pa.0[target].object }), true, focused)
        } else {
            (pa.0, pa.1.push(ObjectRequest::ClearFocus(old.selected_seat->0)), true, focused)
        }
    }
}

/// `resolve` names a slot of the table it resolves in.
pub proof fn lemma_resolve_bounds(
    ws: Seq<WindowRecord>,
    realm: Seq<(u64, BackendWindowId)>,
    ids: Seq<(BackendWindowId, u32)>,
    win: u64,
)
    ensures
        -1 <= resolve(ws, realm, ids, win) < ws.len(),
{
    lemma_key_index_finds(realm, win);
    let r = key_index(realm, win);
    if r >= 0 {
        lemma_key_index_finds(id_views(ids), realm[r].1@);
        let k = key_index(id_views(ids), realm[r].1@);
        if k >= 0 {
            lemma_id_index_finds(window_objects(ws), ids[k].1);
        }
    }
}

/// Placing windows changes neither their objects nor their number.
pub proof fn lemma_place_all_objects(
    ws: Seq<WindowRecord>,
    realm: Seq<(u64, BackendWindowId)>,
    ids: Seq<(BackendWindowId, u32)>,
    ps: Seq<Placement>,
    fullscreen: bool,
    output: u32,
)
    ensures
        window_objects(place_all(ws, realm, ids, ps, fullscreen, output).0) == window_objects(ws),
        place_all(ws, realm, ids, ps, fullscreen, output).0.len() == ws.len(),
        forall|j: int| 0 <= j < ws.len() ==> (#[trigger] place_all(ws, realm, ids, ps, fullscreen, output).0[j]).ordinal == ws[j].ordinal,
    decreases ps.len(),
{
    if ps.len() > 0 {
        lemma_place_all_objects(ws, realm, ids, ps.drop_last(), fullscreen, output);
        let prev = place_all(ws, realm, ids, ps.drop_last(), fullscreen, output);
        if prev.2 {
            let i = resolve(prev.0, realm, ids, ps.last().win);
            lemma_resolve_bounds(prev.0, realm, ids, ps.last().win);
            if i >= 0 {
                let step = placed(prev.0[i], ps.last(), fullscreen, output);
                assert(window_objects(prev.0.update(i, step.0)) =~= window_objects(prev.0));
                assert forall|j: int| 0 <= j < ws.len() implies (#[trigger] prev.0.update(i, step.0)[j]).ordinal == ws[j].ordinal by {
                    assert(prev.0[j].ordinal == ws[j].ordinal);
                }
            }
        }
    }
}

/// The slot Realm window `win` resolves to.
pub(crate) fn resolve_window(
    ws: &Vec<WindowRecord>,
    realm: &Vec<(u64, BackendWindowId)>,
    ids: &Vec<(BackendWindowId, u32)>,
    win: u64,
) -> (r: Option<usize>)
    ensures
        match r {
            Some(i) => i < ws@.len() && i as int == resolve(ws@, realm@, ids@, win),
            None => resolve(ws@, realm@, ids@, win) < 0,
        },
{
    proof {
        lemma_resolve_bounds(ws@, realm@, ids@, win);
    }
    let r = match find_realm(realm, win) {
        Some(r) => r,
        None => {
            return None;
        },
    };
    let k = match find_window_id(ids, &realm[r].1) {
        Some(k) => k,
        None => {
            return None;
        },
    };
    find_window(ws, ids[k].1)
}

/// Whether `enabled` lists binding `id`.
fn lists_binding(enabled: &Vec<BackendBindingId>, id: BackendBindingId) -> (r: bool)
    ensures
        r == enabled@.contains(id),
{
    let mut i: usize = 0;
    while i < enabled.len()
        invariant
            i <= enabled@.len(),
            forall|j: int| 0 <= j < i ==> enabled@[j] != id,
        decreases enabled@.len() - i,
    {
        if enabled[i] == id {
            proof {
                assert(enabled@[i as int] == id);
            }
            return true;
        }
        i = i + 1;
    }
    false
}

/// Whether two modifier lists are equal.
fn same_modifiers(a: &Vec<BackendModifier>, b: &Vec<BackendModifier>) -> (r: bool)
    ensures
        r == (a@ == b@),
{
    if a.len() != b.len() {
        return false;
    }
    let mut i: usize = 0;
    while i < a.len()
        invariant
            i <= a@.len(),
            a@.len() == b@.len(),
            forall|j: int| 0 <= j < i ==> a@[j] == b@[j],
        decreases a@.len() - i,
    {
        if a[i] != b[i] {
            return false;
        }
        i = i + 1;
    }
    proof {
        assert(a@ =~= b@);
    }
    true
}

/// The first focused placement's window.
fn find_focused(ps: &Vec<Placement>) -> (r: Option<u64>)
    ensures
        r == first_focused(ps@),
{
    let mut i: usize = 0;
    proof {
        assert(ps@.skip(0) =~= ps@);
    }
    while i < ps.len()
        invariant
            i <= ps@.len(),
            first_focused(ps@) == first_focused(ps@.skip(i as int)),
        decreases ps@.len() - i,
    {
        proof {
            assert(ps@.skip(i as int).drop_first() =~= ps@.skip(i as int + 1));
        }
        if ps[i].focused {
            return Some(ps[i].win);
        }
        i = i + 1;
    }
    None
}

/// Bring binding objects to `enabled`, sending one request per change.
fn sync_bindings(
    objs: &mut Vec<(BackendBindingId, bool)>,
    enabled: &Vec<BackendBindingId>,
    requests: &mut Vec<ObjectRequest>,
)
    ensures
        final(objs)@ == synced(old(objs)@, enabled@),
        final(requests)@ == old(requests)@ + sync_requests(old(objs)@, enabled@),
{
    let ghost o0 = objs@;
    let ghost r0 = requests@;
    let mut i: usize = 0;
    while i < objs.len()
        invariant
            o0 == old(objs)@,
            r0 == old(requests)@,
            i <= o0.len(),
            objs@.len() == o0.len(),
            forall|j: int| 0 <= j < i ==> objs@[j] == (o0[j].0, enabled@.contains(o0[j].0)),
            forall|j: int| i <= j < o0.len() ==> objs@[j] == o0[j],
            requests@ == r0 + sync_requests(o0.take(i as int), enabled@),
        decreases o0.len() - i,
    {
        let (id, on) = objs[i];
        let want = lists_binding(enabled, id);
        if on != want {
            if want {
                requests.push(ObjectRequest::EnableBinding(id));
            } else {
                requests.push(ObjectRequest::DisableBinding(id));
            }
            objs.set(i, (id, want));
        }
        proof {
            let t = o0.take(i as int + 1);
            assert(t.drop_last() =~= o0.take(i as int));
            assert(t.last() == o0[i as int]);
        }
        i = i + 1;
    }
    proof {
        assert(o0.take(o0.len() as int) =~= o0);
        assert(objs@ =~= synced(o0, enabled@));
    }
}

/// Once a placement fails, later placements change nothing.
pub proof fn lemma_place_all_stops(
    ws: Seq<WindowRecord>,
    realm: Seq<(u64, BackendWindowId)>,
    ids: Seq<(BackendWindowId, u32)>,
    ps: Seq<Placement>,
    j: int,
    fullscreen: bool,
    output: u32,
)
    requires
        0 <= j <= ps.len(),
        !place_all(ws, realm, ids, ps.take(j), fullscreen, output).2,
    ensures
        place_all(ws, realm, ids, ps, fullscreen, output) == place_all(ws, realm, ids, ps.take(j), fullscreen, output),
    decreases ps.len(),
{
    if ps.len() == j {
        assert(ps.take(j) =~= ps);
    } else {
        assert(ps.drop_last().take(j) =~= ps.take(j));
        lemma_place_all_stops(ws, realm, ids, ps.drop_last(), j, fullscreen, output);
    }
}

/// Place one window.
fn place_one(w: WindowRecord, pl: Placement, fullscreen: bool, output: u32, requests: &mut Vec<ObjectRequest>) -> (r: WindowRecord)
    ensures
        r == placed(w, pl, fullscreen, output).0,
        final(requests)@ == old(requests)@ + placed(w, pl, fullscreen, output).1,
{
    let ghost r0 = requests@;
    let ghost w0 = w;
    let mut w = w;
    let obj = w.object;
    if !w.initialized {
        requests.push(ObjectRequest::SetTiled(obj));
        requests.push(ObjectRequest::SetCapabilities(obj));
        w.initialized = true;
    }
    if fullscreen {
        if !w.fullscreen {
            requests.push(ObjectRequest::Fullscreen { window: obj, output });
            requests.push(ObjectRequest::InformFullscreen(obj));
            w.fullscreen = true;
            w.awaiting_dimensions = false;
        }
    } else {
        if w.fullscreen {
            requests.push(ObjectRequest::ExitFullscreen(obj));
            requests.push(ObjectRequest::InformNotFullscreen(obj));
            w.fullscreen = false;
            w.proposed_size = None;
            w.awaiting_dimensions = false;
            w.position = None;
        }
        let width = pl.rect.2;
        let height = pl.rect.3;
        let same = match w.proposed_size {
            Some((a, b)) => a == width && b == height,
            None => false,
        };
        if !same {
            requests.push(ObjectRequest::ProposeDimensions { window: obj, width, height });
            w.proposed_size = Some((width, height));
            w.awaiting_dimensions = true;
        }
    }
    proof {
        assert(requests@ =~= r0 + placed(w0, pl, fullscreen, output).1);
    }
    w
}

/// Place windows in order; false at the first placement naming no live
/// window.
fn place_windows(
    ws: &mut Vec<WindowRecord>,
    realm: &Vec<(u64, BackendWindowId)>,
    ids: &Vec<(BackendWindowId, u32)>,
    ps: &Vec<Placement>,
    fullscreen: bool,
    output: u32,
    requests: &mut Vec<ObjectRequest>,
) -> (ok: bool)
    ensures
        final(ws)@ == place_all(old(ws)@, realm@, ids@, ps@, fullscreen, output).0,
        final(requests)@ == old(requests)@ + place_all(old(ws)@, realm@, ids@, ps@, fullscreen, output).1,
        ok == place_all(old(ws)@, realm@, ids@, ps@, fullscreen, output).2,
{
    let ghost w0 = ws@;
    let ghost r0 = requests@;
    let mut j: usize = 0;
    proof {
        assert(ps@.take(0) =~= Seq::<Placement>::empty());
    }
    while j < ps.len()
        invariant
            w0 == old(ws)@,
            r0 == old(requests)@,
            j <= ps@.len(),
            place_all(w0, realm@, ids@, ps@.take(j as int), fullscreen, output).2,
            ws@ == place_all(w0, realm@, ids@, ps@.take(j as int), fullscreen, output).0,
            requests@ == r0 + place_all(w0, realm@, ids@, ps@.take(j as int), fullscreen, output).1,
        decreases ps@.len() - j,
    {
        let pl = ps[j];
        proof {
            let t = ps@.take(j as int + 1);
            assert(t.drop_last() =~= ps@.take(j as int));
            assert(t.last() == pl);
        }
        let i = match resolve_window(ws, realm, ids, pl.win) {
            Some(i) => i,
            None => {
                proof {
                    lemma_place_all_stops(w0, realm@, ids@, ps@, j as int + 1, fullscreen, output);
                }
                return false;
            },
        };
        let w = ws.remove(i);
        let placed_w = place_one(w, pl, fullscreen, output, requests);
        ws.insert(i, placed_w);
        proof {
            let prev = place_all(w0, realm@, ids@, ps@.take(j as int), fullscreen, output);
            assert(ws@ =~= prev.0.update(i as int, placed_w));
            assert(requests@ =~= r0 + place_all(w0, realm@, ids@, ps@.take(j as int + 1), fullscreen, output).1);
        }
        j = j + 1;
    }
    proof {
        assert(ps@.take(ps@.len() as int) =~= ps@);
    }
    true
}

/// A copy of a modifier list.
fn copy_modifiers(m: &Vec<BackendModifier>) -> (c: Vec<BackendModifier>)
    ensures
        c@ == m@,
{
    let mut c: Vec<BackendModifier> = Vec::new();
    let mut i: usize = 0;
    while i < m.len()
        invariant
            i <= m@.len(),
            c@ == m@.take(i as int),
        decreases m@.len() - i,
    {
        c.push(m[i]);
        proof {
            assert(c@ =~= m@.take(i as int + 1));
        }
        i = i + 1;
    }
    proof {
        assert(m@.take(m@.len() as int) =~= m@);
    }
    c
}

impl RiverObjects {
    /// Bring binding objects, watched modifiers and the next-key edge to
    /// what the response asks, after `requests` were sent.
    fn binding_stage(&mut self, response: &BackendPolicyResponse, requests: Vec<ObjectRequest>) -> (o: RuntimeOutcome)
        requires
            old(self).default_output == old(self).selected_output,
        ensures
            spec_binding_stage(
                *old(self),
                *final(self),
                o,
                *response,
                requests@,
                old(self).windows@,
                old(self).focused_window,
            ),
    {
        reveal(spec_binding_stage);
        let ghost requests0 = requests@;
        let mut requests = requests;
        sync_bindings(&mut self.binding_objects, &response.bindings.enabled, &mut requests);
        if !same_modifiers(&self.watched_modifiers, &response.bindings.watched_modifiers) {
            if !self.xkb_seat {
                return refuse(requests, protocol_error());
            }
            requests.push(ObjectRequest::ModifiersWatch(modifiers_bits(response.bindings.watched_modifiers.as_slice())));
            self.watched_modifiers = copy_modifiers(&response.bindings.watched_modifiers);
        }
        let ghost rw = requests@;
        proof {
            let watched = response.bindings.watched_modifiers@;
            let rb = requests0 + sync_requests(old(self).binding_objects@, response.bindings.enabled@);
            assert(rw =~= rb + (if old(self).watched_modifiers@ != watched {
                seq![ObjectRequest::ModifiersWatch(modifier_mask(watched))]
            } else {
                seq![]
            }));
        }
        match response.bindings.next_key_edge {
            BackendNextKeyEdge::Preserve => {},
            BackendNextKeyEdge::Ensure => {
                if !self.xkb_seat {
                    return refuse(requests, protocol_error());
                }
                requests.push(ObjectRequest::EnsureNextKeyEaten);
            },
            BackendNextKeyEdge::Cancel => {
                if !self.xkb_seat {
                    return refuse(requests, protocol_error());
                }
                requests.push(ObjectRequest::CancelEnsureNextKeyEaten);
            },
        }
        RuntimeOutcome { requests, result: Ok(()) }
    }

    /// Place the projected windows and move focus to the focused placement.
    fn project(&mut self, ps: &Vec<Placement>, fullscreen: bool, sel: u32, requests: &mut Vec<ObjectRequest>) -> (ok: bool)
        ensures
            ok == projected(*old(self), ps@, fullscreen, sel).2,
            !ok ==> projected(*old(self), ps@, fullscreen, sel).3 == old(self).focused_window,
            final(self).windows@ == projected(*old(self), ps@, fullscreen, sel).0,
            final(requests)@ == old(requests)@ + projected(*old(self), ps@, fullscreen, sel).1,
            *final(self) == (RiverObjects {
                windows: final(self).windows,
                focused_window: projected(*old(self), ps@, fullscreen, sel).3,
                ..*old(self)
            }),
    {
        reveal(projected);
        let ghost r0 = requests@;
        if !place_windows(&mut self.windows, &self.realm_ids, &self.window_ids, ps, fullscreen, sel, requests) {
            return false;
        }
        let focused = find_focused(ps);
        let same_focus = match (self.focused_window, focused) {
            (Some(a), Some(b)) => a == b,
            (None, None) => true,
            _ => false,
        };
        if !self.exclusive_focus && !same_focus {
            let seat = match self.selected_seat {
                Some(s) => s,
                None => {
                    return false;
                },
            };
            match focused {
                Some(win) => {
                    let i = match resolve_window(&self.windows, &self.realm_ids, &self.window_ids, win) {
                        Some(i) => i,
                        None => {
                            return false;
                        },
                    };
                    if find_seat(&self.seats, seat).is_none() {
                        return false;
                    }
                    requests.push(ObjectRequest::FocusWindow { seat, window: self.windows[i].object });
                },
                None => {
                    if find_seat(&self.seats, seat).is_none() {
                        return false;
                    }
                    requests.push(ObjectRequest::ClearFocus(seat));
                },
            }
            self.focused_window = focused;
        }
        proof {
            assert(requests@ =~= r0 + projected(*old(self), ps@, fullscreen, sel).1);
        }
        true
    }

    /// Apply a response's manage phase: make the selected output the
    /// default, place the projected windows, move focus, and bring bindings,
    /// watched modifiers and the next-key edge to the response.
    ///
    /// Without a selected output only a response that asks nothing is
    /// accepted; placements must name live windows, and focus changes need
    /// the selected seat.
    #[verifier::spinoff_prover]
    #[verifier::rlimit(100)]
    pub fn apply_manage_response(&mut self, response: &BackendPolicyResponse) -> (o: RuntimeOutcome)
        ensures
            spec_apply_manage_response(*old(self), *final(self), o, *response),
    {
        let sel = match self.selected_output {
            Some(s) => s,
            None => {
                let preserve = match response.bindings.next_key_edge {
                    BackendNextKeyEdge::Preserve => true,
                    _ => false,
                };
                if response.projection.is_none() && response.bindings.enabled.len() == 0
                    && response.bindings.watched_modifiers.len() == 0 && preserve {
                    return RuntimeOutcome { requests: no_requests(), result: Ok(()) };
                }
                return refuse(no_requests(), protocol_error());
            },
        };
        let oi = match find_output(&self.outputs, sel) {
            Some(i) => i,
            None => {
                return refuse(no_requests(), protocol_error());
            },
        };
        let out = self.outputs[oi];
        let (ox, oy) = match out.position {
            Some(p) => p,
            None => {
                return refuse(no_requests(), protocol_error());
            },
        };
        let (ow, oh) = match out.dimensions {
            Some(d) => d,
            None => {
                return refuse(no_requests(), protocol_error());
            },
        };
        let mut requests = no_requests();
        let is_default = match self.default_output {
            Some(d) => d == sel,
            None => false,
        };
        if !is_default {
            requests.push(ObjectRequest::SetDefaultOutput(sel));
        }
        proof {
            assert(requests@ =~= (if old(self).default_output == Some(sel) {
                Seq::<ObjectRequest>::empty()
            } else {
                seq![ObjectRequest::SetDefaultOutput(sel)]
            }));
        }
        match &response.projection {
            None => {},
            Some(p) => {
                let fullscreen = p.len() == 1 && p[0].rect.0 == ox && p[0].rect.1 == oy && p[0].rect.2 == ow
                    && p[0].rect.3 == oh;
                if !self.project(p, fullscreen, sel, &mut requests) {
                    self.default_output = Some(sel);
                    return refuse(requests, protocol_error());
                }
            },
        }
        self.default_output = Some(sel);
        let ghost start = *self;
        let o = self.binding_stage(response, requests);
        proof {
            lemma_binding_stage_rebase(start, *old(self), *self, o, *response, requests@);
        }
        o
    }
}

/// The Realm windows a response names: its closes, then its placements.
pub open spec fn response_wins(r: BackendPolicyResponse) -> Seq<u64> {
    r.closes@ + match r.projection {
        Some(p) => p@.map_values(|pl: Placement| pl.win),
        None => Seq::empty(),
    }
}

/// Whether Realm window `win` names a live window identity.
pub open spec fn names_live_identity(old: RiverObjects, win: u64) -> bool {
    let k = key_index(old.realm_ids@, win);
    k >= 0 && key_index(id_views(old.window_ids@), old.realm_ids@[k].1@) >= 0
}

/// Whether placements have positive sizes and name distinct windows.
pub open spec fn placements_valid(p: Seq<Placement>) -> bool {
    &&& forall|i: int| 0 <= i < p.len() ==> (#[trigger] p[i]).rect.2 > 0 && p[i].rect.3 > 0
    &&& ids_unique(p.map_values(|pl: Placement| pl.win))
}

/// Whether the binding at `i` is below its successor.
pub open spec fn binding_below_next(s: Seq<BackendBindingId>, i: int) -> bool {
    s[i]@ < s[i + 1]@
}

/// Whether bindings stand in strictly increasing order.
pub open spec fn bindings_increasing(s: Seq<BackendBindingId>) -> bool {
    forall|i: int| 0 <= i < s.len() - 1 ==> #[trigger] binding_below_next(s, i)
}

/// Whether every enabled binding has a binding object.
pub open spec fn bindings_bound(old: RiverObjects, enabled: Seq<BackendBindingId>) -> bool {
    forall|i: int| 0 <= i < enabled.len() ==> key_index(old.binding_objects@, #[trigger] enabled[i]) >= 0
}

/// The number of effects a response stages.
pub open spec fn effect_count(r: BackendPolicyResponse) -> int {
    r.closes@.len() + match r.projection {
        Some(p) => p@.len() as int,
        None => 0int,
    }
}

/// Why a response to `turn` is refused, if it is.
pub open spec fn response_error(old: RiverObjects, turn: BackendPolicyTurnId, r: BackendPolicyResponse) -> Option<BackendError> {
    let wins = response_wins(r);
    if old.open_turn != Some(turn) || old.pending_response is Some {
        Some(spec_protocol_error())
    } else if effect_count(r) > MAX_STAGED_EFFECTS {
        Some(BackendError::Capacity { resource: BackendCapacityResource::PolicyEffects, limit: MAX_STAGED_EFFECTS as u64 })
    } else if !(forall|i: int| 0 <= i < wins.len() ==> names_live_identity(old, #[trigger] wins[i]))
        || !ids_unique(r.closes@)
        || (r.projection matches Some(p) && !placements_valid(p@))
        || !bindings_increasing(r.bindings.enabled@)
        || !spec_canonical_modifiers(r.bindings.watched_modifiers@)
        || (old.terminal_after_response is None && !bindings_bound(old, r.bindings.enabled@)) {
        Some(spec_protocol_error())
    } else {
        None
    }
}

/// Whether Realm window `win` names a live window identity.
fn live_identity(realm: &Vec<(u64, BackendWindowId)>, ids: &Vec<(BackendWindowId, u32)>, win: u64) -> (r: bool)
    ensures
        r == {
            let k = key_index(realm@, win);
            k >= 0 && key_index(id_views(ids@), realm@[k].1@) >= 0
        },
{
    match find_realm(realm, win) {
        Some(k) => find_window_id(ids, &realm[k].1).is_some(),
        None => false,
    }
}

/// Whether no Realm window occurs twice.
fn wins_distinct(s: &Vec<u64>) -> (r: bool)
    ensures
        r == ids_unique(s@),
{
    let mut i: usize = 0;
    while i < s.len()
        invariant
            i <= s@.len(),
            forall|a: int, b: int| 0 <= a < b < s@.len() && a < i ==> s@[a] != s@[b],
        decreases s@.len() - i,
    {
        let mut j: usize = i + 1;
        while j < s.len()
            invariant
                i < s@.len(),
                i + 1 <= j <= s@.len(),
                forall|a: int, b: int| 0 <= a < b < s@.len() && a < i ==> s@[a] != s@[b],
                forall|b: int| i < b < j ==> s@[i as int] != s@[b],
            decreases s@.len() - j,
        {
            if s[i] == s[j] {
                return false;
            }
            j = j + 1;
        }
        i = i + 1;
    }
    true
}

/// The windows placements name.
pub(crate) fn placement_wins(p: &Vec<Placement>) -> (w: Vec<u64>)
    ensures
        w@ == p@.map_values(|pl: Placement| pl.win),
{
    let mut w: Vec<u64> = Vec::new();
    let mut i: usize = 0;
    while i < p.len()
        invariant
            i <= p@.len(),
            w@ == p@.take(i as int).map_values(|pl: Placement| pl.win),
        decreases p@.len() - i,
    {
        w.push(p[i].win);
        proof {
            assert(w@ =~= p@.take(i as int + 1).map_values(|pl: Placement| pl.win));
        }
        i = i + 1;
    }
    proof {
        assert(p@.take(p@.len() as int) =~= p@);
    }
    w
}

/// Whether placements have positive sizes and name distinct windows.
fn valid_placements(p: &Vec<Placement>) -> (r: bool)
    ensures
        r == placements_valid(p@),
{
    let mut i: usize = 0;
    while i < p.len()
        invariant
            i <= p@.len(),
            forall|j: int| 0 <= j < i ==> (#[trigger] p@[j]).rect.2 > 0 && p@[j].rect.3 > 0,
        decreases p@.len() - i,
    {
        if p[i].rect.2 <= 0 || p[i].rect.3 <= 0 {
            return false;
        }
        i = i + 1;
    }
    wins_distinct(&placement_wins(p))
}

/// Whether bindings stand in strictly increasing order.
fn increasing_bindings(s: &Vec<BackendBindingId>) -> (r: bool)
    ensures
        r == bindings_increasing(s@),
{
    if s.len() < 2 {
        return true;
    }
    let mut i: usize = 0;
    while i < s.len() - 1
        invariant
            s@.len() >= 2,
            i + 1 <= s@.len(),
            forall|j: int| 0 <= j < i ==> #[trigger] binding_below_next(s@, j),
        decreases s@.len() - i,
    {
        if s[i].get() >= s[i + 1].get() {
            proof {
                assert(!binding_below_next(s@, i as int));
            }
            return false;
        }
        i = i + 1;
    }
    true
}

/// Whether every enabled binding has a binding object.
fn bound_bindings(objs: &Vec<(BackendBindingId, bool)>, enabled: &Vec<BackendBindingId>) -> (r: bool)
    ensures
        r == forall|i: int| 0 <= i < enabled@.len() ==> key_index(objs@, #[trigger] enabled@[i]) >= 0,
{
    let mut i: usize = 0;
    while i < enabled.len()
        invariant
            i <= enabled@.len(),
            forall|j: int| 0 <= j < i ==> key_index(objs@, #[trigger] enabled@[j]) >= 0,
        decreases enabled@.len() - i,
    {
        if find_binding_object(objs, enabled[i]).is_none() {
            return false;
        }
        i = i + 1;
    }
    true
}

impl RiverObjects {
    /// Why a response to `turn` is refused, if it is.
    pub fn response_error(&self, turn: BackendPolicyTurnId, response: &BackendPolicyResponse) -> (r: Option<BackendError>)
        ensures
            r == response_error(*self, turn, *response),
    {
        let open = match self.open_turn {
            Some(t) => t == turn,
            None => false,
        };
        if !open || self.pending_response.is_some() {
            return Some(protocol_error());
        }
        let projection_len = match &response.projection {
            Some(p) => p.len(),
            None => 0,
        };
        if response.closes.len() > MAX_STAGED_EFFECTS || projection_len > MAX_STAGED_EFFECTS - response.closes.len() {
            return Some(capacity(BackendCapacityResource::PolicyEffects, MAX_STAGED_EFFECTS as u64));
        }
        let ghost wins = response_wins(*response);
        let mut i: usize = 0;
        while i < response.closes.len()
            invariant
                self.open_turn == Some(turn),
                self.pending_response is None,
                effect_count(*response) <= MAX_STAGED_EFFECTS,
                i <= response.closes@.len(),
                wins == response_wins(*response),
                forall|j: int| 0 <= j < i ==> names_live_identity(*self, #[trigger] wins[j]),
            decreases response.closes@.len() - i,
        {
            if !live_identity(&self.realm_ids, &self.window_ids, response.closes[i]) {
                proof {
                    assert(wins[i as int] == response.closes@[i as int]);
                }
                return Some(protocol_error());
            }
            proof {
                assert(wins[i as int] == response.closes@[i as int]);
            }
            i = i + 1;
        }
        if let Some(p) = &response.projection {
            let mut k: usize = 0;
            while k < p.len()
                invariant
                    self.open_turn == Some(turn),
                    self.pending_response is None,
                    effect_count(*response) <= MAX_STAGED_EFFECTS,
                    k <= p@.len(),
                    wins == response_wins(*response),
                    response.projection == Some(*p),
                    wins.len() == response.closes@.len() + p@.len(),
                    forall|j: int| 0 <= j < response.closes@.len() + k ==> names_live_identity(*self, #[trigger] wins[j]),
                decreases p@.len() - k,
            {
                let ghost at = response.closes@.len() + k;
                proof {
                    assert(wins[at] == p@[k as int].win);
                }
                if !live_identity(&self.realm_ids, &self.window_ids, p[k].win) {
                    return Some(protocol_error());
                }
                k = k + 1;
            }
        }
        if !wins_distinct(&response.closes) {
            return Some(protocol_error());
        }
        if let Some(p) = &response.projection {
            if !valid_placements(p) {
                return Some(protocol_error());
            }
        }
        if !increasing_bindings(&response.bindings.enabled) || !canonical_modifiers(response.bindings.watched_modifiers.as_slice()) {
            return Some(protocol_error());
        }
        if self.terminal_after_response.is_none() && !bound_bindings(&self.binding_objects, &response.bindings.enabled) {
            return Some(protocol_error());
        }
        None
    }
}

/// A submitted response's requests and verdict.
#[derive(Debug, PartialEq, Eq)]
pub struct SubmitOutcome {
    /// The requests to send, in order, even when the response is refused.
    pub requests: Vec<ObjectRequest>,
    /// The submission, or why it failed.
    pub result: Result<BackendSubmission, BackendError>,
}

/// The close requests for Realm windows `closes`, in order, and false at the
/// first that names no live window.
pub open spec fn close_requests(
    ws: Seq<WindowRecord>,
    realm: Seq<(u64, BackendWindowId)>,
    ids: Seq<(BackendWindowId, u32)>,
    closes: Seq<u64>,
) -> (Seq<ObjectRequest>, bool)
    decreases closes.len(),
{
    if closes.len() == 0 {
        (Seq::empty(), true)
    } else {
        let prev = close_requests(ws, realm, ids, closes.drop_last());
        let i = resolve(ws, realm, ids, closes.last());
        if !prev.1 {
            prev
        } else if i < 0 {
            (prev.0, false)
        } else {
            (prev.0.push(ObjectRequest::Close(ws[i].object)), true)
        }
    }
}

/// The size the last placement resolving to window `object` asks for.
pub open spec fn requested_size(
    realm: Seq<(u64, BackendWindowId)>,
    ids: Seq<(BackendWindowId, u32)>,
    p: Seq<Placement>,
    object: u32,
) -> Option<(i32, i32)>
    decreases p.len(),
{
    if p.len() == 0 {
        None
    } else {
        let pl = p.last();
        let k = key_index(realm, pl.win);
        let m = if k >= 0 { key_index(id_views(ids), realm[k].1@) } else { -1 };
        if k >= 0 && m >= 0 && ids[m].1 == object {
            Some((pl.rect.2, pl.rect.3))
        } else {
            requested_size(realm, ids, p.drop_last(), object)
        }
    }
}

/// Deferred corrections applied in order: the windows, the requests, and
/// whether any correction was proposed.
pub open spec fn correct_all(
    ws: Seq<WindowRecord>,
    deferred: Seq<(u32, ((i32, i32), (i32, i32)))>,
    projection: Option<Vec<Placement>>,
    realm: Seq<(u64, BackendWindowId)>,
    ids: Seq<(BackendWindowId, u32)>,
) -> (Seq<WindowRecord>, Seq<ObjectRequest>, bool)
    decreases deferred.len(),
{
    if deferred.len() == 0 {
        (ws, Seq::empty(), false)
    } else {
        let prev = correct_all(ws, deferred.drop_last(), projection, realm, ids);
        let (id, (target, corrected)) = deferred.last();
        let i = window_index(prev.0, id);
        if i < 0 || (projection matches Some(p) && requested_size(realm, ids, p@, id) != Some(target)) {
            prev
        } else {
            (
                prev.0.update(i, WindowRecord { proposed_size: Some(corrected), awaiting_dimensions: true, ..prev.0[i] }),
                prev.1.push(ObjectRequest::ProposeDimensions { window: id, width: corrected.0, height: corrected.1 }),
                true,
            )
        }
    }
}

/// What follows a successful manage phase: deferred corrections whose size
/// the response still asks for are proposed, and the response is submitted.
pub open spec fn spec_after_manage(
    mid: RiverObjects,
    new: RiverObjects,
    o: SubmitOutcome,
    ticket: BackendTicket,
    response: BackendPolicyResponse,
    requests: Seq<ObjectRequest>,
) -> bool {
    let c = correct_all(mid.windows@, mid.deferred_corrections@, response.projection, mid.realm_ids@, mid.window_ids@);
    &&& o.requests@ == requests + c.1.push(ObjectRequest::ManageFinish)
    &&& o.result == Ok::<BackendSubmission, BackendError>(BackendSubmission::Pending)
    &&& new == (RiverObjects {
        windows: new.windows,
        open_turn: None,
        pending_response: new.pending_response,
        deferred_corrections: new.deferred_corrections,
        flush_pending: true,
        ..mid
    })
    &&& new.windows@ == c.0
    &&& new.deferred_corrections@.len() == 0
    &&& new.pending_response matches Some(pr) && pr.ticket == ticket && pr.response == response
        && pr.stage == ResponseStage::AwaitRender && pr.terminal_error is None && pr.corrections@.len() == 0
        && pr.correction_round == c.2
}

/// What answering `turn` does: a valid response closes windows, applies its
/// manage phase and proposes deferred corrections, unless a failure awaits
/// it; either way it finishes the manage phase and waits for the render.
pub open spec fn spec_respond_policy_turn(
    old: RiverObjects,
    new: RiverObjects,
    o: SubmitOutcome,
    turn: BackendPolicyTurnId,
    ticket: BackendTicket,
    response: BackendPolicyResponse,
) -> bool {
    match response_error(old, turn, response) {
        Some(e) => o.requests@.len() == 0 && o.result == Err::<BackendSubmission, BackendError>(e) && new == old,
        None => if old.terminal_after_response is Some {
            &&& o.requests@ == seq![ObjectRequest::ManageFinish]
            &&& o.result == Ok::<BackendSubmission, BackendError>(BackendSubmission::Pending)
            &&& new == (RiverObjects {
                terminal_after_response: None,
                open_turn: None,
                pending_response: new.pending_response,
                flush_pending: true,
                ..old
            })
            &&& new.pending_response matches Some(pr) && pr.ticket == ticket && pr.response == response
                && pr.stage == ResponseStage::AwaitRender && pr.terminal_error == old.terminal_after_response
                && pr.corrections@.len() == 0 && !pr.correction_round
        } else {
            let cl = close_requests(old.windows@, old.realm_ids@, old.window_ids@, response.closes@);
            if !cl.1 {
                o.requests@ == cl.0 && o.result == Err::<BackendSubmission, BackendError>(spec_protocol_error()) && new == old
            } else {
                exists|mid: RiverObjects, mo: RuntimeOutcome| {
                    &&& #[trigger] spec_apply_manage_response(old, mid, mo, response)
                    &&& if mo.result is Err {
                        &&& o.requests@ == cl.0 + mo.requests@
                        &&& o.result == Err::<BackendSubmission, BackendError>(mo.result->Err_0)
                        &&& new == mid
                    } else {
                        spec_after_manage(mid, new, o, ticket, response, cl.0 + mo.requests@)
                    }
                }
            }
        },
    }
}

/// Send the close requests for `closes`, in order; false at the first that
/// names no live window.
fn close_windows(
    ws: &Vec<WindowRecord>,
    realm: &Vec<(u64, BackendWindowId)>,
    ids: &Vec<(BackendWindowId, u32)>,
    closes: &Vec<u64>,
    requests: &mut Vec<ObjectRequest>,
) -> (ok: bool)
    ensures
        final(requests)@ == old(requests)@ + close_requests(ws@, realm@, ids@, closes@).0,
        ok == close_requests(ws@, realm@, ids@, closes@).1,
{
    let ghost r0 = requests@;
    let mut j: usize = 0;
    proof {
        assert(closes@.take(0) =~= Seq::<u64>::empty());
    }
    while j < closes.len()
        invariant
            r0 == old(requests)@,
            j <= closes@.len(),
            close_requests(ws@, realm@, ids@, closes@.take(j as int)).1,
            requests@ == r0 + close_requests(ws@, realm@, ids@, closes@.take(j as int)).0,
        decreases closes@.len() - j,
    {
        proof {
            let t = closes@.take(j as int + 1);
            assert(t.drop_last() =~= closes@.take(j as int));
        }
        match resolve_window(ws, realm, ids, closes[j]) {
            Some(i) => {
                requests.push(ObjectRequest::Close(ws[i].object));
                proof {
                    assert(requests@ =~= r0 + close_requests(ws@, realm@, ids@, closes@.take(j as int + 1)).0);
                }
            },
            None => {
                proof {
                    lemma_close_requests_stop(ws@, realm@, ids@, closes@, j as int + 1);
                }
                return false;
            },
        }
        j = j + 1;
    }
    proof {
        assert(closes@.take(closes@.len() as int) =~= closes@);
    }
    true
}

/// Once a close fails, later closes change nothing.
pub proof fn lemma_close_requests_stop(
    ws: Seq<WindowRecord>,
    realm: Seq<(u64, BackendWindowId)>,
    ids: Seq<(BackendWindowId, u32)>,
    closes: Seq<u64>,
    j: int,
)
    requires
        0 <= j <= closes.len(),
        !close_requests(ws, realm, ids, closes.take(j)).1,
    ensures
        close_requests(ws, realm, ids, closes) == close_requests(ws, realm, ids, closes.take(j)),
    decreases closes.len(),
{
    if closes.len() == j {
        assert(closes.take(j) =~= closes);
    } else {
        assert(closes.drop_last().take(j) =~= closes.take(j));
        lemma_close_requests_stop(ws, realm, ids, closes.drop_last(), j);
    }
}

/// The size the last placement resolving to window `object` asks for.
fn find_requested_size(
    realm: &Vec<(u64, BackendWindowId)>,
    ids: &Vec<(BackendWindowId, u32)>,
    p: &Vec<Placement>,
    object: u32,
) -> (r: Option<(i32, i32)>)
    ensures
        r == requested_size(realm@, ids@, p@, object),
{
    let mut n: usize = p.len();
    proof {
        assert(p@.take(n as int) =~= p@);
    }
    while n > 0
        invariant
            n <= p@.len(),
            requested_size(realm@, ids@, p@, object) == requested_size(realm@, ids@, p@.take(n as int), object),
        decreases n,
    {
        let pl = p[n - 1];
        proof {
            let t = p@.take(n as int);
            assert(t.drop_last() =~= p@.take(n as int - 1));
            assert(t.last() == pl);
        }
        match find_realm(realm, pl.win) {
            Some(k) => match find_window_id(ids, &realm[k].1) {
                Some(m) => {
                    if ids[m].1 == object {
                        return Some((pl.rect.2, pl.rect.3));
                    }
                },
                None => {},
            },
            None => {},
        }
        n = n - 1;
    }
    None
}

/// Apply deferred corrections in order; true when any was proposed.
fn apply_corrections(
    ws: &mut Vec<WindowRecord>,
    deferred: &Vec<(u32, ((i32, i32), (i32, i32)))>,
    projection: &Option<Vec<Placement>>,
    realm: &Vec<(u64, BackendWindowId)>,
    ids: &Vec<(BackendWindowId, u32)>,
    requests: &mut Vec<ObjectRequest>,
) -> (round: bool)
    ensures
        final(ws)@ == correct_all(old(ws)@, deferred@, *projection, realm@, ids@).0,
        final(requests)@ == old(requests)@ + correct_all(old(ws)@, deferred@, *projection, realm@, ids@).1,
        round == correct_all(old(ws)@, deferred@, *projection, realm@, ids@).2,
{
    let ghost w0 = ws@;
    let ghost r0 = requests@;
    let mut round = false;
    let mut j: usize = 0;
    proof {
        assert(deferred@.take(0) =~= Seq::<(u32, ((i32, i32), (i32, i32)))>::empty());
    }
    while j < deferred.len()
        invariant
            w0 == old(ws)@,
            r0 == old(requests)@,
            j <= deferred@.len(),
            ws@ == correct_all(w0, deferred@.take(j as int), *projection, realm@, ids@).0,
            requests@ == r0 + correct_all(w0, deferred@.take(j as int), *projection, realm@, ids@).1,
            round == correct_all(w0, deferred@.take(j as int), *projection, realm@, ids@).2,
        decreases deferred@.len() - j,
    {
        let (id, (target, corrected)) = deferred[j];
        proof {
            let t = deferred@.take(j as int + 1);
            assert(t.drop_last() =~= deferred@.take(j as int));
            assert(t.last() == deferred@[j as int]);
        }
        let slot = find_window(ws, id);
        let wanted = match projection {
            Some(p) => match find_requested_size(realm, ids, p, id) {
                Some((w, h)) => w == target.0 && h == target.1,
                None => false,
            },
            None => true,
        };
        match slot {
            Some(i) => {
                if wanted {
                    let mut w = ws.remove(i);
                    w.proposed_size = Some(corrected);
                    w.awaiting_dimensions = true;
                    ws.insert(i, w);
                    requests.push(ObjectRequest::ProposeDimensions { window: id, width: corrected.0, height: corrected.1 });
                    round = true;
                    proof {
                        let prev = correct_all(w0, deferred@.take(j as int), *projection, realm@, ids@);
                        assert(ws@ =~= prev.0.update(
                            i as int,
                            WindowRecord { proposed_size: Some(corrected), awaiting_dimensions: true, ..prev.0[i as int] },
                        ));
                        assert(requests@ =~= r0 + prev.1.push(
                            ObjectRequest::ProposeDimensions { window: id, width: corrected.0, height: corrected.1 },
                        ));
                    }
                }
            },
            None => {},
        }
        j = j + 1;
    }
    proof {
        assert(deferred@.take(deferred@.len() as int) =~= deferred@);
    }
    round
}

/// Append `more` to `requests`.
fn append_requests(requests: &mut Vec<ObjectRequest>, more: &Vec<ObjectRequest>)
    ensures
        final(requests)@ == old(requests)@ + more@,
{
    let ghost r0 = requests@;
    let mut i: usize = 0;
    while i < more.len()
        invariant
            r0 == old(requests)@,
            i <= more@.len(),
            requests@ == r0 + more@.take(i as int),
        decreases more@.len() - i,
    {
        requests.push(more[i]);
        proof {
            assert(requests@ =~= r0 + more@.take(i as int + 1));
        }
        i = i + 1;
    }
    proof {
        assert(more@.take(more@.len() as int) =~= more@);
    }
}

impl RiverObjects {
    /// Answer the open policy turn with `response` for operation `ticket`.
    ///
    /// A valid response closes windows, applies its manage phase and
    /// proposes the deferred size corrections it still asks for, unless a
    /// failure awaits it; either way the manage phase is finished and the
    /// response waits for the render phase.
    #[verifier::spinoff_prover]
    #[verifier::rlimit(40)]
    pub fn respond_policy_turn(
        &mut self,
        turn: BackendPolicyTurnId,
        ticket: BackendTicket,
        response: BackendPolicyResponse,
    ) -> (o: SubmitOutcome)
        ensures
            spec_respond_policy_turn(*old(self), *final(self), o, turn, ticket, response),
    {
        if let Some(e) = self.response_error(turn, &response) {
            return SubmitOutcome { requests: no_requests(), result: Err(e) };
        }
        let mut requests = no_requests();
        let mut terminal_error: Option<BackendError> = None;
        std::mem::swap(&mut terminal_error, &mut self.terminal_after_response);
        let mut correction_round = false;
        if terminal_error.is_none() {
            if !close_windows(&self.windows, &self.realm_ids, &self.window_ids, &response.closes, &mut requests) {
                return SubmitOutcome { requests, result: Err(protocol_error()) };
            }
            let ghost before = *self;
            let mo = self.apply_manage_response(&response);
            let ghost mid = *self;
            append_requests(&mut requests, &mo.requests);
            match mo.result {
                Ok(()) => {},
                Err(e) => {
                    proof {
                        assert(spec_apply_manage_response(before, mid, mo, response));
                    }
                    return SubmitOutcome { requests, result: Err(e) };
                },
            }
            let mut deferred: Vec<(u32, ((i32, i32), (i32, i32)))> = Vec::new();
            std::mem::swap(&mut deferred, &mut self.deferred_corrections);
            correction_round = apply_corrections(
                &mut self.windows,
                &deferred,
                &response.projection,
                &self.realm_ids,
                &self.window_ids,
                &mut requests,
            );
            requests.push(ObjectRequest::ManageFinish);
            self.open_turn = None;
            self.pending_response = Some(PendingResponse {
                ticket,
                response,
                stage: ResponseStage::AwaitRender,
                terminal_error,
                corrections: Vec::new(),
                correction_round,
            });
            self.flush_pending = true;
            proof {
                assert(spec_apply_manage_response(before, mid, mo, response));
                assert(spec_after_manage(mid, *self, SubmitOutcome { requests, result: Ok(BackendSubmission::Pending) }, ticket, response, close_requests(before.windows@, before.realm_ids@, before.window_ids@, response.closes@).0 + mo.requests@));
            }
            return SubmitOutcome { requests, result: Ok(BackendSubmission::Pending) };
        }
        requests.push(ObjectRequest::ManageFinish);
        self.open_turn = None;
        self.pending_response = Some(PendingResponse {
            ticket,
            response,
            stage: ResponseStage::AwaitRender,
            terminal_error,
            corrections: Vec::new(),
            correction_round,
        });
        self.flush_pending = true;
        SubmitOutcome { requests, result: Ok(BackendSubmission::Pending) }
    }
}

/// Whether `r` is the response that closes the session: no projection, no
/// closes, the exit policy's bindings and a cancelled next-key edge.
pub open spec fn exit_response(r: BackendPolicyResponse, policy: BackendExitPolicy) -> bool {
    &&& r.projection is None
    &&& r.closes@.len() == 0
    &&& r.bindings.enabled == policy.enabled
    &&& r.bindings.watched_modifiers == policy.watched_modifiers
    &&& r.bindings.next_key_edge == BackendNextKeyEdge::Cancel
}

/// What asking for a policy turn does.
pub open spec fn spec_request_policy_turn(old: RiverObjects, new: RiverObjects, o: RuntimeOutcome) -> bool {
    if !old.link.connected || old.link.exit_started {
        refused(o, seq![], spec_protocol_error()) && new == old
    } else if old.turn_requested {
        done(o, seq![]) && new == old
    } else if !old.link.window_manager {
        refused(o, seq![], spec_protocol_error()) && new == old
    } else {
        done(o, seq![ObjectRequest::ManageDirty]) && new == (RiverObjects { turn_requested: true, flush_pending: true, ..old })
    }
}

/// The end of beginning the session exit, after `requests` were sent from
/// state `mid`.
pub open spec fn spec_exit_tail(mid: RiverObjects, new: RiverObjects, o: RuntimeOutcome, requests: Seq<ObjectRequest>) -> bool {
    if !mid.link.window_manager {
        refused(o, requests, spec_protocol_error()) && new == (RiverObjects { pending_response: None, ..mid })
    } else {
        &&& done(o, requests.push(ObjectRequest::ExitSession))
        &&& new == (RiverObjects {
            pending_response: None,
            flush_pending: true,
            link: Link { exit_started: true, ..mid.link },
            ..mid
        })
    }
}

/// What beginning the session exit does: an open turn is answered with the
/// exit policy when the output and seat allow it and its manage phase is
/// finished; the pending response is dropped and the compositor is asked
/// to end the session.
pub open spec fn spec_begin_exit_session(old: RiverObjects, new: RiverObjects, o: RuntimeOutcome, policy: BackendExitPolicy) -> bool {
    if !old.link.connected || old.link.exit_started {
        refused(o, seq![], spec_protocol_error()) && new == old
    } else if old.open_turn is None {
        spec_exit_tail(old, new, o, seq![])
    } else {
        let s1 = RiverObjects { open_turn: None, ..old };
        if old.selected_output is Some && old.xkb_seat {
            exists|mid: RiverObjects, mo: RuntimeOutcome, r: BackendPolicyResponse| {
                &&& exit_response(r, policy)
                &&& #[trigger] spec_apply_manage_response(s1, mid, mo, r)
                &&& if mo.result is Err {
                    o.requests@ == mo.requests@ && o.result == mo.result && new == mid
                } else if !mid.link.window_manager {
                    refused(o, mo.requests@, spec_protocol_error()) && new == mid
                } else {
                    spec_exit_tail(mid, new, o, mo.requests@.push(ObjectRequest::ManageFinish))
                }
            }
        } else if !old.link.window_manager {
            refused(o, seq![], spec_protocol_error()) && new == s1
        } else {
            spec_exit_tail(s1, new, o, seq![ObjectRequest::ManageFinish])
        }
    }
}

impl RiverObjects {
    /// Ask the compositor for a manage phase, once until it starts.
    pub fn request_policy_turn(&mut self) -> (o: RuntimeOutcome)
        ensures
            spec_request_policy_turn(*old(self), *final(self), o),
    {
        if !self.link.connected || self.link.exit_started {
            return refuse(no_requests(), protocol_error());
        }
        if self.turn_requested {
            return RuntimeOutcome { requests: no_requests(), result: Ok(()) };
        }
        if !self.link.window_manager {
            return refuse(no_requests(), protocol_error());
        }
        let mut requests = no_requests();
        requests.push(ObjectRequest::ManageDirty);
        proof {
            assert(requests@ =~= seq![ObjectRequest::ManageDirty]);
        }
        self.turn_requested = true;
        self.flush_pending = true;
        RuntimeOutcome { requests, result: Ok(()) }
    }

    /// Drop the pending response and ask the compositor to end the session.
    fn exit_tail(&mut self, requests: Vec<ObjectRequest>) -> (o: RuntimeOutcome)
        ensures
            spec_exit_tail(*old(self), *final(self), o, requests@),
    {
        self.pending_response = None;
        if !self.link.window_manager {
            return refuse(requests, protocol_error());
        }
        let mut requests = requests;
        requests.push(ObjectRequest::ExitSession);
        self.flush_pending = true;
        self.link = Link { exit_started: true, ..self.link };
        RuntimeOutcome { requests, result: Ok(()) }
    }

    /// Begin the session exit under the fixed exit policy.
    #[verifier::spinoff_prover]
    pub fn begin_exit_session(&mut self, policy: BackendExitPolicy) -> (o: RuntimeOutcome)
        ensures
            spec_begin_exit_session(*old(self), *final(self), o, policy),
    {
        if !self.link.connected || self.link.exit_started {
            return refuse(no_requests(), protocol_error());
        }
        if self.open_turn.is_none() {
            return self.exit_tail(no_requests());
        }
        self.open_turn = None;
        if self.selected_output.is_some() && self.xkb_seat {
            let ghost s1 = *self;
            let ghost pol = policy;
            let response = BackendPolicyResponse {
                projection: None,
                closes: Vec::new(),
                bindings: BackendBindingState {
                    enabled: policy.enabled,
                    watched_modifiers: policy.watched_modifiers,
                    next_key_edge: BackendNextKeyEdge::Cancel,
                },
            };
            let mo = self.apply_manage_response(&response);
            let ghost mid = *self;
            proof {
                assert(exit_response(response, pol));
                assert(spec_apply_manage_response(s1, mid, mo, response));
            }
            let mut requests = mo.requests;
            match mo.result {
                Ok(()) => {},
                Err(e) => {
                    return RuntimeOutcome { requests, result: Err(e) };
                },
            }
            if !self.link.window_manager {
                return refuse(requests, protocol_error());
            }
            requests.push(ObjectRequest::ManageFinish);
            return self.exit_tail(requests);
        }
        if !self.link.window_manager {
            return refuse(no_requests(), protocol_error());
        }
        let mut requests = no_requests();
        requests.push(ObjectRequest::ManageFinish);
        proof {
            assert(requests@ =~= seq![ObjectRequest::ManageFinish]);
        }
        self.exit_tail(requests)
    }
}

/// Bringing binding objects to a response keeps their keys.
pub proof fn lemma_synced_keys(objs: Seq<(BackendBindingId, bool)>, enabled: Seq<BackendBindingId>)
    requires
        keys_unique(objs),
    ensures
        keys_unique(synced(objs, enabled)),
        synced(objs, enabled).len() == objs.len(),
{
    let t = synced(objs, enabled);
    assert forall|a: int, b: int| 0 <= a < b < t.len() implies t[a].0 != t[b].0 by {
        assert(t[a].0 == objs[a].0 && t[b].0 == objs[b].0);
    }
}

/// Windows that keep their objects and ordinals keep the window invariants.
pub proof fn lemma_same_windows_wf(old: RiverObjects, new: RiverObjects)
    requires
        old.wf(),
        window_objects(new.windows@) == window_objects(old.windows@),
        new.windows@.len() == old.windows@.len(),
        forall|j: int| 0 <= j < old.windows@.len() ==> (#[trigger] new.windows@[j]).ordinal == old.windows@[j].ordinal,
        new.next_window_ordinal == old.next_window_ordinal,
    ensures
        ids_unique(window_objects(new.windows@)),
        new.windows@.len() <= crate::backend::MAX_MANAGED_WINDOWS,
        increasing(window_ordinals(new.windows@)),
        forall|j: int| 0 <= j < new.windows@.len() ==> new.windows@[j].ordinal <= new.next_window_ordinal,
{
    assert(window_ordinals(new.windows@) =~= window_ordinals(old.windows@));
}

/// Applying a response's manage phase keeps every object known once and in
/// creation order.
pub proof fn lemma_manage_response_keeps_wf(
    old: RiverObjects,
    new: RiverObjects,
    o: RuntimeOutcome,
    response: BackendPolicyResponse,
)
    requires
        old.wf(),
        spec_apply_manage_response(old, new, o, response),
    ensures
        new.wf(),
{
    reveal(spec_binding_stage);
    reveal(projected);
    let sel = old.selected_output->0;
    let oi = output_index(old.outputs@, sel);
    if old.selected_output is Some && oi >= 0 && old.outputs@[oi].position is Some && old.outputs@[oi].dimensions is Some {
        lemma_synced_keys(old.binding_objects@, response.bindings.enabled@);
        match response.projection {
            None => {},
            Some(p) => {
                let pos = old.outputs@[oi].position->0;
                let dims = old.outputs@[oi].dimensions->0;
                let fs = p@.len() == 1 && p@[0].rect == (pos.0, pos.1, dims.0, dims.1);
                lemma_place_all_objects(old.windows@, old.realm_ids@, old.window_ids@, p@, fs, sel);
            },
        }
        lemma_same_windows_wf(old, new);
    }
}

/// Proposing deferred corrections keeps window objects and ordinals.
pub proof fn lemma_correct_all_keeps(
    ws: Seq<WindowRecord>,
    deferred: Seq<(u32, ((i32, i32), (i32, i32)))>,
    projection: Option<Vec<Placement>>,
    realm: Seq<(u64, BackendWindowId)>,
    ids: Seq<(BackendWindowId, u32)>,
)
    ensures
        window_objects(correct_all(ws, deferred, projection, realm, ids).0) == window_objects(ws),
        correct_all(ws, deferred, projection, realm, ids).0.len() == ws.len(),
        forall|j: int| 0 <= j < ws.len() ==> (#[trigger] correct_all(ws, deferred, projection, realm, ids).0[j]).ordinal
            == ws[j].ordinal,
    decreases deferred.len(),
{
    if deferred.len() > 0 {
        lemma_correct_all_keeps(ws, deferred.drop_last(), projection, realm, ids);
        let prev = correct_all(ws, deferred.drop_last(), projection, realm, ids);
        let (id, (target, corrected)) = deferred.last();
        let i = window_index(prev.0, id);
        lemma_id_index_finds(window_objects(prev.0), id);
        if i >= 0 {
            let w = WindowRecord { proposed_size: Some(corrected), awaiting_dimensions: true, ..prev.0[i] };
            assert(window_objects(prev.0.update(i, w)) =~= window_objects(prev.0));
            assert forall|j: int| 0 <= j < ws.len() implies (#[trigger] prev.0.update(i, w)[j]).ordinal == ws[j].ordinal by {
                assert(prev.0[j].ordinal == ws[j].ordinal);
            }
        }
    }
}

/// Answering a turn keeps every object known once and in creation order.
pub proof fn lemma_respond_keeps_wf(
    old: RiverObjects,
    new: RiverObjects,
    o: SubmitOutcome,
    turn: BackendPolicyTurnId,
    ticket: BackendTicket,
    response: BackendPolicyResponse,
)
    requires
        old.wf(),
        spec_respond_policy_turn(old, new, o, turn, ticket, response),
    ensures
        new.wf(),
{
    if response_error(old, turn, response) is None && old.terminal_after_response is None {
        let cl = close_requests(old.windows@, old.realm_ids@, old.window_ids@, response.closes@);
        if cl.1 {
            let (mid, mo) = choose|mid: RiverObjects, mo: RuntimeOutcome| {
                &&& #[trigger] spec_apply_manage_response(old, mid, mo, response)
                &&& if mo.result is Err {
                    &&& o.requests@ == cl.0 + mo.requests@
                    &&& o.result == Err::<BackendSubmission, BackendError>(mo.result->Err_0)
                    &&& new == mid
                } else {
                    spec_after_manage(mid, new, o, ticket, response, cl.0 + mo.requests@)
                }
            };
            lemma_manage_response_keeps_wf(old, mid, mo, response);
            if mo.result is Ok {
                lemma_correct_all_keeps(mid.windows@, mid.deferred_corrections@, response.projection, mid.realm_ids@, mid.window_ids@);
                lemma_same_windows_wf(mid, new);
            }
        }
    }
}

/// Beginning the session exit keeps every object known once and in
/// creation order.
pub proof fn lemma_begin_exit_session_keeps_wf(
    old: RiverObjects,
    new: RiverObjects,
    o: RuntimeOutcome,
    policy: BackendExitPolicy,
)
    requires
        old.wf(),
        spec_begin_exit_session(old, new, o, policy),
    ensures
        new.wf(),
{
    if old.link.connected && !old.link.exit_started && old.open_turn is Some && old.selected_output is Some && old.xkb_seat {
        let s1 = RiverObjects { open_turn: None, ..old };
        let (mid, mo, r) = choose|mid: RiverObjects, mo: RuntimeOutcome, r: BackendPolicyResponse| {
            &&& exit_response(r, policy)
            &&& #[trigger] spec_apply_manage_response(s1, mid, mo, r)
            &&& if mo.result is Err {
                o.requests@ == mo.requests@ && o.result == mo.result && new == mid
            } else if !mid.link.window_manager {
                refused(o, mo.requests@, spec_protocol_error()) && new == mid
            } else {
                spec_exit_tail(mid, new, o, mo.requests@.push(ObjectRequest::ManageFinish))
            }
        };
        lemma_manage_response_keeps_wf(s1, mid, mo, r);
    }
}

/// Asking for a policy turn keeps every object known once and in creation
/// order.
pub proof fn lemma_request_policy_turn_keeps_wf(old: RiverObjects, new: RiverObjects, o: RuntimeOutcome)
    requires
        old.wf(),
        spec_request_policy_turn(old, new, o),
    ensures
        new.wf(),
{
}

} // verus!
