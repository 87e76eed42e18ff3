//! The render phase of a policy response on the River objects: windows no
//! placement shows are hidden, placed windows are moved, bordered, clipped
//! and shown, and windows smaller than asked get size corrections.
use vstd::prelude::*;

use crate::backend::objects::{
    Link, checked, no_requests, refuse, refused, spec_finish_policy_turn, spec_protocol_error,
    window_objects, ObjectRequest, PendingResponse, ResponseStage, RiverObjects, RuntimeOutcome,
    WindowRecord,
};
use crate::policy::{validate_policy_capacity, PolicyTurn};
use crate::backend::response::{lemma_resolve_bounds, lemma_same_windows_wf, resolve, resolve_window};
use crate::backend::objects::lemma_finish_policy_turn_keeps_wf;
use crate::backend::river::{border_rgba, protocol_error, spec_border_rgba};
use crate::backend::table::{keyed_insert, lemma_key_index};
use crate::backend::{BackendError, BackendTicket, BackendWindowId, Placement};

verus! {

/// A size correction: window, size asked, size to propose instead.
pub type Correction = (u32, ((i32, i32), (i32, i32)));

/// What drawing a projection asks of the compositor, and the size
/// corrections it calls for.
#[derive(Debug, PartialEq, Eq)]
pub struct RenderOutcome {
    /// The requests to send, in order, even when the phase fails.
    pub requests: Vec<ObjectRequest>,
    /// The corrections, or the failure.
    pub result: Result<Vec<Correction>, BackendError>,
}

/// Whether an assigned window no placement shows must be hidden.
pub open spec fn should_hide(w: WindowRecord, visible: Seq<u64>) -> bool {
    w.assigned matches Some(win) && !visible.contains(win) && w.hidden != Some(true)
}

/// A window after hiding it if no placement shows it.
pub open spec fn hidden_unless_visible(w: WindowRecord, visible: Seq<u64>) -> WindowRecord {
    if should_hide(w, visible) {
        WindowRecord { hidden: Some(true), ..w }
    } else {
        w
    }
}

/// The requests hiding the windows no placement shows, in order.
pub open spec fn hide_requests(ws: Seq<WindowRecord>, visible: Seq<u64>) -> Seq<ObjectRequest>
    decreases ws.len(),
{
    if ws.len() == 0 {
        Seq::empty()
    } else {
        let w = ws.last();
        hide_requests(ws.drop_last(), visible) + (if should_hide(w, visible) {
            seq![ObjectRequest::Hide(w.object)]
        } else {
            Seq::<ObjectRequest>::empty()
        })
    }
}

/// The larger of `v` and zero.
pub open spec fn at_least_zero(v: int) -> int {
    if v > 0 { v } else { 0 }
}

/// Whether the window's content is too small for the target, so that a
/// correction is computed.
pub open spec fn undersized(actual: (i32, i32), target: (i32, i32)) -> bool {
    !(actual.0 >= target.0 && actual.1 >= target.1) && actual != target
}

/// The size proposed to correct an undersized window: the target grown by
/// what it lacks.
pub open spec fn corrected_size(actual: (i32, i32), target: (i32, i32)) -> (int, int) {
    (target.0 + at_least_zero(target.0 - actual.0), target.1 + at_least_zero(target.1 - actual.1))
}

/// Whether computing a correction stays within `i32`.
pub open spec fn correction_fits(actual: (i32, i32), target: (i32, i32)) -> bool {
    let c = corrected_size(actual, target);
    &&& i32::MIN <= target.0 - actual.0 <= i32::MAX
    &&& i32::MIN <= target.1 - actual.1 <= i32::MAX
    &&& i32::MIN <= c.0 <= i32::MAX
    &&& i32::MIN <= c.1 <= i32::MAX
}

/// One placed window rendered: the window, its requests, and a correction
/// if it is too small and corrections are allowed.
pub open spec fn rendered(w: WindowRecord, pl: Placement, allow: bool, raise: bool) -> (
    WindowRecord,
    Seq<ObjectRequest>,
    Option<((i32, i32), (i32, i32))>,
) {
    let obj = w.object;
    if w.fullscreen {
        if w.hidden != Some(false) {
            (WindowRecord { hidden: Some(false), ..w }, seq![ObjectRequest::Show(obj)], None)
        } else {
            (w, Seq::empty(), None)
        }
    } else {
        let pos = (pl.rect.0, pl.rect.1);
        let w1 = WindowRecord { position: Some(pos), ..w };
        let r1 = if w.position != Some(pos) {
            seq![ObjectRequest::SetPosition { window: obj, x: pos.0, y: pos.1 }]
        } else {
            Seq::<ObjectRequest>::empty()
        };
        let c = spec_border_rgba(pl.focused);
        let w2 = WindowRecord { focused: Some(pl.focused), ..w1 };
        let r2 = if w.focused != Some(pl.focused) {
            r1.push(ObjectRequest::SetBorders { window: obj, r: c.0, g: c.1, b: c.2, a: c.3 })
        } else {
            r1
        };
        let target = (pl.rect.2, pl.rect.3);
        let r3 = match w.dimensions {
            Some(actual) => if actual.0 >= target.0 && actual.1 >= target.1 && actual != target {
                r2.push(ObjectRequest::SetContentClipBox { window: obj, width: target.0, height: target.1 })
            } else if actual == target {
                r2.push(ObjectRequest::SetContentClipBox { window: obj, width: 0, height: 0 })
            } else {
                r2
            },
            None => r2,
        };
        let corr = match w.dimensions {
            Some(actual) => if undersized(actual, target) && allow {
                let cs = corrected_size(actual, target);
                Some((target, (cs.0 as i32, cs.1 as i32)))
            } else {
                None
            },
            None => None,
        };
        let show = (w.dimensions matches Some(a) && a.0 >= target.0 && a.1 >= target.1) || (!allow
            && w.dimensions is Some);
        let w4 = if show && w.hidden != Some(false) { WindowRecord { hidden: Some(false), ..w2 } } else { w2 };
        let r4 = if show && w.hidden != Some(false) { r3.push(ObjectRequest::Show(obj)) } else { r3 };
        let r5 = if raise && pl.focused { r4.push(ObjectRequest::PlaceTop(obj)) } else { r4 };
        (w4, r5, corr)
    }
}

/// Rendering placements in order: the windows, the requests, the
/// corrections by window, and false at the first placement naming no live
/// window.
pub open spec fn render_all(
    ws: Seq<WindowRecord>,
    realm: Seq<(u64, BackendWindowId)>,
    ids: Seq<(BackendWindowId, u32)>,
    ps: Seq<Placement>,
    allow: bool,
    raise: bool,
) -> (Seq<WindowRecord>, Seq<ObjectRequest>, Seq<Correction>, bool)
    decreases ps.len(),
{
    if ps.len() == 0 {
        (ws, Seq::empty(), Seq::empty(), true)
    } else {
        let prev = render_all(ws, realm, ids, ps.drop_last(), allow, raise);
        if !prev.3 {
            prev
        } else {
            let i = resolve(prev.0, realm, ids, ps.last().win);
            if i < 0 {
                (prev.0, prev.1, prev.2, false)
            } else {
                let step = rendered(prev.0[i], ps.last(), allow, raise);
                (
                    prev.0.update(i, step.0),
                    prev.1 + step.1,
                    match step.2 {
                        Some(c) => keyed_insert(prev.2, prev.0[i].object, c),
                        None => prev.2,
                    },
                    true,
                )
            }
        }
    }
}

/// Whether every correction the placements can compute stays within `i32`.
pub open spec fn render_fits(
    ws: Seq<WindowRecord>,
    realm: Seq<(u64, BackendWindowId)>,
    ids: Seq<(BackendWindowId, u32)>,
    ps: Seq<Placement>,
) -> bool {
    forall|k: int| 0 <= k < ps.len() ==> {
        let j = resolve(ws, realm, ids, (#[trigger] ps[k]).win);
        j >= 0 && !ws[j].fullscreen && ws[j].dimensions is Some ==> correction_fits(
            ws[j].dimensions->0,
            (ps[k].rect.2, ps[k].rect.3),
        )
    }
}

/// What rendering a projection does: unplaced assigned windows are hidden,
/// then each placement is rendered in order.
pub open spec fn spec_apply_render_response(
    old: RiverObjects,
    new: RiverObjects,
    o: RenderOutcome,
    projection: Option<Seq<Placement>>,
    allow: bool,
) -> bool {
    match projection {
        None => {
            &&& new == old
            &&& o.requests@.len() == 0
            &&& o.result matches Ok(c) && c@.len() == 0
        },
        Some(p) => {
            let visible = p.map_values(|pl: Placement| pl.win);
            let hid = old.windows@.map_values(|w: WindowRecord| hidden_unless_visible(w, visible));
            let raise = exists|k: int| 0 <= k < p.len() && (#[trigger] p[k]).occluded;
            let ra = render_all(hid, old.realm_ids@, old.window_ids@, p, allow, raise);
            &&& new == (RiverObjects { windows: new.windows, ..old })
            &&& new.windows@ == ra.0
            &&& o.requests@ == hide_requests(old.windows@, visible) + ra.1
            &&& if ra.3 {
                o.result matches Ok(c) && c@ == ra.2
            } else {
                o.result == Err::<Vec<Correction>, BackendError>(spec_protocol_error())
            }
        },
    }
}

/// Rendering changes no window's object, ordinal, size or fullscreen state.
pub proof fn lemma_render_all_keeps(
    ws: Seq<WindowRecord>,
    realm: Seq<(u64, BackendWindowId)>,
    ids: Seq<(BackendWindowId, u32)>,
    ps: Seq<Placement>,
    allow: bool,
    raise: bool,
)
    ensures
        window_objects(render_all(ws, realm, ids, ps, allow, raise).0) == window_objects(ws),
        render_all(ws, realm, ids, ps, allow, raise).0.len() == ws.len(),
        forall|j: int| 0 <= j < ws.len() ==> {
            let w = #[trigger] render_all(ws, realm, ids, ps, allow, raise).0[j];
            w.ordinal == ws[j].ordinal && w.dimensions == ws[j].dimensions && w.fullscreen == ws[j].fullscreen
        },
    decreases ps.len(),
{
    if ps.len() > 0 {
        lemma_render_all_keeps(ws, realm, ids, ps.drop_last(), allow, raise);
        let prev = render_all(ws, realm, ids, ps.drop_last(), allow, raise);
        if prev.3 {
            let i = resolve(prev.0, realm, ids, ps.last().win);
            lemma_resolve_bounds(prev.0, realm, ids, ps.last().win);
            if i >= 0 {
                let step = rendered(prev.0[i], ps.last(), allow, raise);
                assert(window_objects(prev.0.update(i, step.0)) =~= window_objects(prev.0));
                assert forall|j: int| 0 <= j < ws.len() implies {
                    let w = #[trigger] prev.0.update(i, step.0)[j];
                    w.ordinal == ws[j].ordinal && w.dimensions == ws[j].dimensions && w.fullscreen == ws[j].fullscreen
                } by {
                    assert(prev.0[j].ordinal == ws[j].ordinal);
                }
            }
        }
    }
}

/// Once a placement fails, later placements change nothing.
pub proof fn lemma_render_all_stops(
    ws: Seq<WindowRecord>,
    realm: Seq<(u64, BackendWindowId)>,
    ids: Seq<(BackendWindowId, u32)>,
    ps: Seq<Placement>,
    j: int,
    allow: bool,
    raise: bool,
)
    requires
        0 <= j <= ps.len(),
        !render_all(ws, realm, ids, ps.take(j), allow, raise).3,
    ensures
        render_all(ws, realm, ids, ps, allow, raise) == render_all(ws, realm, ids, ps.take(j), allow, raise),
    decreases ps.len(),
{
    if ps.len() == j {
        assert(ps.take(j) =~= ps);
    } else {
        assert(ps.drop_last().take(j) =~= ps.take(j));
        lemma_render_all_stops(ws, realm, ids, ps.drop_last(), j, allow, raise);
    }
}

/// Hide the assigned windows no placement shows.
fn hide_unplaced(ws: &mut Vec<WindowRecord>, visible: &Vec<u64>, requests: &mut Vec<ObjectRequest>)
    ensures
        final(ws)@ == old(ws)@.map_values(|w: WindowRecord| hidden_unless_visible(w, visible@)),
        final(requests)@ == old(requests)@ + hide_requests(old(ws)@, visible@),
{
    let ghost w0 = ws@;
    let ghost r0 = requests@;
    let mut i: usize = 0;
    while i < ws.len()
        invariant
            w0 == old(ws)@,
            r0 == old(requests)@,
            i <= w0.len(),
            ws@.len() == w0.len(),
            forall|j: int| 0 <= j < i ==> ws@[j] == hidden_unless_visible(w0[j], visible@),
            forall|j: int| i <= j < w0.len() ==> ws@[j] == w0[j],
            requests@ == r0 + hide_requests(w0.take(i as int), visible@),
        decreases w0.len() - i,
    {
        let hide = match ws[i].assigned {
            Some(win) => {
                let mut seen = false;
                let mut k: usize = 0;
                while k < visible.len()
                    invariant
                        k <= visible@.len(),
                        seen == exists|x: int| 0 <= x < k && visible@[x] == win,
                    decreases visible@.len() - k,
                {
                    if visible[k] == win {
                        seen = true;
                    }
                    k = k + 1;
                }
                proof {
                    if seen {
                        let x = choose|x: int| 0 <= x < k && visible@[x] == win;
                        assert(visible@.contains(win));
                    } else {
                        assert(!visible@.contains(win));
                    }
                }
                let not_hidden = match ws[i].hidden {
                    Some(h) => !h,
                    None => true,
                };
                !seen && not_hidden
            },
            None => false,
        };
        let obj = ws[i].object;
        if hide {
            let mut w = ws.remove(i);
            w.hidden = Some(true);
            ws.insert(i, w);
            requests.push(ObjectRequest::Hide(obj));
        }
        proof {
            let t = w0.take(i as int + 1);
            assert(t.drop_last() =~= w0.take(i as int));
            assert(t.last() == w0[i as int]);
            assert(requests@ =~= r0 + hide_requests(t, visible@));
        }
        i = i + 1;
    }
    proof {
        assert(w0.take(w0.len() as int) =~= w0);
        assert(ws@ =~= w0.map_values(|w: WindowRecord| hidden_unless_visible(w, visible@)));
    }
}

/// Whether any placement is occluded.
fn any_occluded(p: &Vec<Placement>) -> (r: bool)
    ensures
        r == exists|k: int| 0 <= k < p@.len() && (#[trigger] p@[k]).occluded,
{
    let mut i: usize = 0;
    while i < p.len()
        invariant
            i <= p@.len(),
            forall|k: int| 0 <= k < i ==> !(#[trigger] p@[k]).occluded,
        decreases p@.len() - i,
    {
        if p[i].occluded {
            return true;
        }
        i = i + 1;
    }
    false
}

/// Render one placed window.
fn render_one(
    w: WindowRecord,
    pl: Placement,
    allow: bool,
    raise: bool,
    requests: &mut Vec<ObjectRequest>,
) -> (r: (WindowRecord, Option<((i32, i32), (i32, i32))>))
    requires
        !w.fullscreen && w.dimensions is Some ==> correction_fits(w.dimensions->0, (pl.rect.2, pl.rect.3)),
    ensures
        r.0 == rendered(w, pl, allow, raise).0,
        r.1 == rendered(w, pl, allow, raise).2,
        final(requests)@ == old(requests)@ + rendered(w, pl, allow, raise).1,
{
    let ghost r0 = requests@;
    let ghost w0 = w;
    let mut w = w;
    let obj = w.object;
    if w.fullscreen {
        let shown = match w.hidden {
            Some(h) => !h,
            None => false,
        };
        if !shown {
            requests.push(ObjectRequest::Show(obj));
            w.hidden = Some(false);
        }
        proof {
            assert(requests@ =~= r0 + rendered(w0, pl, allow, raise).1);
        }
        return (w, None);
    }
    let x = pl.rect.0;
    let y = pl.rect.1;
    let moved = match w.position {
        Some((a, b)) => a != x || b != y,
        None => true,
    };
    if moved {
        requests.push(ObjectRequest::SetPosition { window: obj, x, y });
        w.position = Some((x, y));
    }
    let refocus = match w.focused {
        Some(f) => f != pl.focused,
        None => true,
    };
    if refocus {
        let (r, g, b, a) = border_rgba(pl.focused);
        requests.push(ObjectRequest::SetBorders { window: obj, r, g, b, a });
        w.focused = Some(pl.focused);
    }
    let tw = pl.rect.2;
    let th = pl.rect.3;
    let mut correction: Option<((i32, i32), (i32, i32))> = None;
    let mut show = false;
    match w.dimensions {
        Some((aw, ah)) => {
            if aw >= tw && ah >= th && (aw != tw || ah != th) {
                requests.push(ObjectRequest::SetContentClipBox { window: obj, width: tw, height: th });
            } else if aw == tw && ah == th {
                requests.push(ObjectRequest::SetContentClipBox { window: obj, width: 0, height: 0 });
            } else if allow {
                let dw = tw - aw;
                let dh = th - ah;
                let gw = if dw > 0 { dw } else { 0 };
                let gh = if dh > 0 { dh } else { 0 };
                correction = Some(((tw, th), (tw + gw, th + gh)));
            }
            show = (aw >= tw && ah >= th) || !allow;
        },
        None => {},
    }
    let visible = match w.hidden {
        Some(h) => !h,
        None => false,
    };
    if show && !visible {
        requests.push(ObjectRequest::Show(obj));
        w.hidden = Some(false);
    }
    if raise && pl.focused {
        requests.push(ObjectRequest::PlaceTop(obj));
    }
    proof {
        assert(requests@ =~= r0 + rendered(w0, pl, allow, raise).1);
    }
    (w, correction)
}

/// Record a correction for window `object`, replacing an earlier one.
fn record_correction(corrections: &mut Vec<Correction>, object: u32, c: ((i32, i32), (i32, i32)))
    ensures
        final(corrections)@ == keyed_insert(old(corrections)@, object, c),
{
    let mut i: usize = 0;
    while i < corrections.len()
        invariant
            i <= corrections@.len(),
            corrections@ == old(corrections)@,
            forall|j: int| 0 <= j < i ==> corrections@[j].0 != object,
        decreases corrections@.len() - i,
    {
        if corrections[i].0 == object {
            proof {
                lemma_key_index(corrections@, object, i as int);
            }
            corrections.set(i, (object, c));
            return;
        }
        i = i + 1;
    }
    proof {
        lemma_key_index(corrections@, object, i as int);
    }
    corrections.push((object, c));
}

/// Render placements in order; false at the first placement naming no live
/// window.
fn render_windows(
    ws: &mut Vec<WindowRecord>,
    realm: &Vec<(u64, BackendWindowId)>,
    ids: &Vec<(BackendWindowId, u32)>,
    ps: &Vec<Placement>,
    allow: bool,
    raise: bool,
    requests: &mut Vec<ObjectRequest>,
    corrections: &mut Vec<Correction>,
) -> (ok: bool)
    requires
        render_fits(old(ws)@, realm@, ids@, ps@),
        old(corrections)@.len() == 0,
    ensures
        final(ws)@ == render_all(old(ws)@, realm@, ids@, ps@, allow, raise).0,
        final(requests)@ == old(requests)@ + render_all(old(ws)@, realm@, ids@, ps@, allow, raise).1,
        final(corrections)@ == render_all(old(ws)@, realm@, ids@, ps@, allow, raise).2,
        ok == render_all(old(ws)@, realm@, ids@, ps@, allow, raise).3,
{
    let ghost w0 = ws@;
    let ghost r0 = requests@;
    let mut j: usize = 0;
    proof {
        assert(ps@.take(0) =~= Seq::<Placement>::empty());
    }
    while j < ps.len()
        invariant
            w0 == old(ws)@,
            r0 == old(requests)@,
            render_fits(w0, realm@, ids@, ps@),
            j <= ps@.len(),
            render_all(w0, realm@, ids@, ps@.take(j as int), allow, raise).3,
            ws@ == render_all(w0, realm@, ids@, ps@.take(j as int), allow, raise).0,
            requests@ == r0 + render_all(w0, realm@, ids@, ps@.take(j as int), allow, raise).1,
            corrections@ == render_all(w0, realm@, ids@, ps@.take(j as int), allow, raise).2,
        decreases ps@.len() - j,
    {
        let pl = ps[j];
        proof {
            let t = ps@.take(j as int + 1);
            assert(t.drop_last() =~= ps@.take(j as int));
            assert(t.last() == pl);
            lemma_render_all_keeps(w0, realm@, ids@, ps@.take(j as int), allow, raise);
        }
        let i = match resolve_window(ws, realm, ids, pl.win) {
            Some(i) => i,
            None => {
                proof {
                    lemma_render_all_stops(w0, realm@, ids@, ps@, j as int + 1, allow, raise);
                }
                return false;
            },
        };
        proof {
            let prev = render_all(w0, realm@, ids@, ps@.take(j as int), allow, raise);
            assert(window_objects(prev.0) == window_objects(w0));
            assert(resolve(prev.0, realm@, ids@, pl.win) == resolve(w0, realm@, ids@, pl.win));
            assert(ps@[j as int] == pl);
            assert(prev.0[i as int].dimensions == w0[i as int].dimensions);
            assert(prev.0[i as int].fullscreen == w0[i as int].fullscreen);
        }
        let w = ws.remove(i);
        let obj = w.object;
        let (placed, correction) = render_one(w, pl, allow, raise, requests);
        ws.insert(i, placed);
        match correction {
            Some(c) => record_correction(corrections, obj, c),
            None => {},
        }
        proof {
            let prev = render_all(w0, realm@, ids@, ps@.take(j as int), allow, raise);
            assert(ws@ =~= prev.0.update(i as int, placed));
            assert(requests@ =~= r0 + render_all(w0, realm@, ids@, ps@.take(j as int + 1), allow, raise).1);
        }
        j = j + 1;
    }
    proof {
        assert(ps@.take(ps@.len() as int) =~= ps@);
    }
    true
}

impl RiverObjects {
    /// Render `projection`: hide the assigned windows it does not show, then
    /// move, border, clip and show each placed window, collecting size
    /// corrections for windows smaller than asked when `allow` holds.
    pub fn apply_render_response(&mut self, projection: &Option<Vec<Placement>>, allow: bool) -> (o: RenderOutcome)
        requires
            projection matches Some(p) ==> render_fits(old(self).windows@, old(self).realm_ids@, old(self).window_ids@, p@),
        ensures
            spec_apply_render_response(*old(self), *final(self), o, projection_view(*projection), allow),
    {
        let p = match projection {
            Some(p) => p,
            None => {
                return RenderOutcome { requests: no_requests(), result: Ok(Vec::new()) };
            },
        };
        let mut requests = no_requests();
        let visible = crate::backend::response::placement_wins(p);
        hide_unplaced(&mut self.windows, &visible, &mut requests);
        proof {
            let ws = old(self).windows@;
            let hid = self.windows@;
            assert(window_objects(hid) =~= window_objects(ws));
            assert forall|k: int| 0 <= k < p@.len() implies {
                let j = resolve(hid, self.realm_ids@, self.window_ids@, (#[trigger] p@[k]).win);
                j >= 0 && !hid[j].fullscreen && hid[j].dimensions is Some ==> correction_fits(
                    hid[j].dimensions->0,
                    (p@[k].rect.2, p@[k].rect.3),
                )
            } by {
                let j = resolve(ws, self.realm_ids@, self.window_ids@, p@[k].win);
                lemma_resolve_bounds(ws, self.realm_ids@, self.window_ids@, p@[k].win);
                assert(resolve(hid, self.realm_ids@, self.window_ids@, p@[k].win) == j);
                if j >= 0 {
                    assert(hid[j] == hidden_unless_visible(ws[j], visible@));
                }
            }
        }
        let raise = any_occluded(p);
        let mut corrections: Vec<Correction> = Vec::new();
        let ok = render_windows(
            &mut self.windows,
            &self.realm_ids,
            &self.window_ids,
            p,
            allow,
            raise,
            &mut requests,
            &mut corrections,
        );
        if !ok {
            return RenderOutcome { requests, result: Err(protocol_error()) };
        }
        RenderOutcome { requests, result: Ok(corrections) }
    }
}

/// What the start of a manage phase produced: the operation a corrected
/// response completed, and the next policy turn.
#[derive(Debug)]
pub struct ManageStartOutcome {
    /// The operation completed by a response whose corrections were answered.
    pub completed: Option<BackendTicket>,
    /// The next policy turn, or why it could not be closed.
    pub turn: Result<PolicyTurn, BackendError>,
}

/// What the start of a manage phase does: a response awaiting its
/// correction round completes, handing its corrections to the next
/// response, and the policy turn is closed.
pub open spec fn spec_manage_start(old: RiverObjects, new: RiverObjects, o: ManageStartOutcome) -> bool {
    match old.pending_response {
        Some(pr) => if pr.stage == ResponseStage::AwaitCorrectionManage {
            if pr.terminal_error is Some {
                &&& o.completed is None
                &&& o.turn is Err && o.turn->Err_0 == spec_protocol_error()
                &&& new == (RiverObjects { turn_requested: false, pending_response: None, ..old })
            } else {
                let mid = RiverObjects {
                    turn_requested: false,
                    pending_response: None,
                    last_projection: if pr.response.projection is Some {
                        pr.response.projection
                    } else {
                        old.last_projection
                    },
                    deferred_corrections: pr.corrections,
                    drain_ticket: Some(pr.ticket),
                    ..old
                };
                o.completed == Some(pr.ticket) && spec_finish_policy_turn(mid, new, o.turn)
            }
        } else {
            o.completed is None && spec_finish_policy_turn(RiverObjects { turn_requested: false, ..old }, new, o.turn)
        },
        None => o.completed is None && spec_finish_policy_turn(RiverObjects { turn_requested: false, ..old }, new, o.turn),
    }
}

/// An optional projection by value.
pub open spec fn projection_view(p: Option<Vec<Placement>>) -> Option<Seq<Placement>> {
    match p {
        Some(v) => Some(v@),
        None => None,
    }
}

/// The projection a render phase draws: the pending response's, else the
/// last one; none while a failure awaits the response.
pub open spec fn render_projection(old: RiverObjects) -> Option<Vec<Placement>> {
    match old.pending_response {
        Some(pr) => if pr.terminal_error is None {
            if pr.response.projection is Some {
                pr.response.projection
            } else {
                old.last_projection
            }
        } else {
            None
        },
        None => old.last_projection,
    }
}

/// Whether the pending response awaits its render.
pub open spec fn awaiting_render(old: RiverObjects) -> bool {
    old.pending_response matches Some(pr) && pr.stage == ResponseStage::AwaitRender
}

/// Whether the render may ask for size corrections: only a response
/// awaiting its first render may.
pub open spec fn render_allows(old: RiverObjects) -> bool {
    awaiting_render(old) && !old.pending_response->0.correction_round
}

/// What the start of a render phase does: the projection is drawn; a
/// response awaiting its render either finishes or asks for a correction
/// round with the corrections found.
pub open spec fn spec_render_start(old: RiverObjects, new: RiverObjects, o: RuntimeOutcome) -> bool {
    let awaiting_render = awaiting_render(old);
    let correcting = old.pending_response matches Some(pr) && pr.stage == ResponseStage::AwaitCorrectionManage;
    if old.pending_response is Some && !awaiting_render && !correcting {
        refused(o, seq![], spec_protocol_error()) && new == old
    } else {
        exists|mid: RiverObjects, ro: RenderOutcome| {
            &&& #[trigger] spec_apply_render_response(old, mid, ro, projection_view(render_projection(old)), render_allows(old))
            &&& match ro.result {
                Err(e) => o.requests@ == ro.requests@ && o.result == Err::<(), BackendError>(e) && new == mid,
                Ok(c) => if correcting {
                    &&& o.requests@ == ro.requests@.push(ObjectRequest::RenderFinish)
                    &&& o.result is Ok
                    &&& new == (RiverObjects { flush_pending: true, ..mid })
                } else if awaiting_render {
                    let pr = old.pending_response->0;
                    let updated = if c@.len() == 0 {
                        PendingResponse { stage: ResponseStage::FlushingRender, ..pr }
                    } else {
                        PendingResponse {
                            corrections: c,
                            correction_round: true,
                            stage: ResponseStage::AwaitCorrectionManage,
                            ..pr
                        }
                    };
                    let requests = ro.requests@.push(ObjectRequest::RenderFinish) + (if c@.len() == 0 {
                        seq![]
                    } else {
                        seq![ObjectRequest::ManageDirty]
                    });
                    &&& new == (RiverObjects { pending_response: Some(updated), flush_pending: true, ..mid })
                    &&& checked(o, requests, new)
                } else {
                    &&& new == (RiverObjects { flush_pending: true, ..mid })
                    &&& checked(o, ro.requests@.push(ObjectRequest::RenderFinish), new)
                },
            }
        }
    }
}

/// A copy of placements.
fn copy_placements(p: &Vec<Placement>) -> (c: Vec<Placement>)
    ensures
        c@ == p@,
{
    let mut c: Vec<Placement> = Vec::new();
    let mut i: usize = 0;
    while i < p.len()
        invariant
            i <= p@.len(),
            c@ == p@.take(i as int),
        decreases p@.len() - i,
    {
        c.push(p[i]);
        proof {
            assert(c@ =~= p@.take(i as int + 1));
        }
        i = i + 1;
    }
    proof {
        assert(p@.take(p@.len() as int) =~= p@);
    }
    c
}

/// A copy of an optional projection.
fn copy_projection(p: &Option<Vec<Placement>>) -> (c: Option<Vec<Placement>>)
    ensures
        match *p {
            Some(v) => c matches Some(w) && w@ == v@,
            None => c is None,
        },
{
    match p {
        Some(v) => Some(copy_placements(v)),
        None => None,
    }
}

impl RiverObjects {
    /// Start a manage phase: complete a response whose correction round was
    /// answered, then close the policy turn.
    pub fn manage_start(&mut self) -> (o: ManageStartOutcome)
        ensures
            spec_manage_start(*old(self), *final(self), o),
    {
        self.turn_requested = false;
        let correcting = match &self.pending_response {
            Some(pending) => match pending.stage {
                ResponseStage::AwaitCorrectionManage => true,
                _ => false,
            },
            None => false,
        };
        if !correcting {
            let turn = self.finish_policy_turn();
            return ManageStartOutcome { completed: None, turn };
        }
        let mut taken: Option<PendingResponse> = None;
        std::mem::swap(&mut taken, &mut self.pending_response);
        let pending = match taken {
            Some(pending) => pending,
            None => {
                return ManageStartOutcome { completed: None, turn: Err(protocol_error()) };
            },
        };
        if pending.terminal_error.is_some() {
            return ManageStartOutcome { completed: None, turn: Err(protocol_error()) };
        }
        let PendingResponse { ticket, response, corrections, .. } = pending;
        if response.projection.is_some() {
            self.last_projection = response.projection;
        }
        self.deferred_corrections = corrections;
        self.drain_ticket = Some(ticket);
        let turn = self.finish_policy_turn();
        ManageStartOutcome { completed: Some(ticket), turn }
    }

    /// Start a render phase: draw the pending or last projection and settle
    /// the pending response's render.
    #[verifier::spinoff_prover]
    #[verifier::rlimit(60)]
    pub fn render_start(&mut self) -> (o: RuntimeOutcome)
        requires
            render_projection(*old(self)) matches Some(p) ==> render_fits(
                old(self).windows@,
                old(self).realm_ids@,
                old(self).window_ids@,
                p@,
            ),
        ensures
            spec_render_start(*old(self), *final(self), o),
    {
        let (awaiting_render, correcting, allow, projection) = match &self.pending_response {
            Some(pending) => {
                let projection = if pending.terminal_error.is_none() {
                    if pending.response.projection.is_some() {
                        copy_projection(&pending.response.projection)
                    } else {
                        copy_projection(&self.last_projection)
                    }
                } else {
                    None
                };
                match pending.stage {
                    ResponseStage::AwaitRender => (true, false, !pending.correction_round, projection),
                    ResponseStage::AwaitCorrectionManage => (false, true, false, projection),
                    ResponseStage::FlushingRender => {
                        return refuse(no_requests(), protocol_error());
                    },
                }
            },
            None => (false, false, false, copy_projection(&self.last_projection)),
        };
        let ghost before = *self;
        let ghost sallow = render_allows(*old(self));
        proof {
            assert(before == *old(self));
            assert(allow == sallow);
            assert(projection_view(projection) == projection_view(render_projection(*old(self))));
        }
        let rendered = self.apply_render_response(&projection, allow);
        let ghost mid = *self;
        let mut requests = rendered.requests;
        let corrections = match rendered.result {
            Ok(c) => c,
            Err(e) => {
                proof {
                    assert(spec_apply_render_response(
                        *old(self),
                        mid,
                        rendered,
                        projection_view(render_projection(*old(self))),
                        render_allows(*old(self)),
                    ));
                }
                return RuntimeOutcome { requests, result: Err(e) };
            },
        };
        requests.push(ObjectRequest::RenderFinish);
        self.flush_pending = true;
        if correcting {
            proof {
                assert(spec_apply_render_response(*old(self), mid, rendered, projection_view(render_projection(*old(self))), render_allows(*old(self))));
            }
            return RuntimeOutcome { requests, result: Ok(()) };
        }
        let ghost cv = corrections@;
        let ghost base_requests = requests@;
        if awaiting_render {
            let mut taken: Option<PendingResponse> = None;
            std::mem::swap(&mut taken, &mut self.pending_response);
            let mut pending = match taken {
                Some(pending) => pending,
                None => {
                    return RuntimeOutcome { requests, result: Err(protocol_error()) };
                },
            };
            if corrections.len() == 0 {
                pending.stage = ResponseStage::FlushingRender;
            } else {
                pending.corrections = corrections;
                pending.correction_round = true;
                pending.stage = ResponseStage::AwaitCorrectionManage;
                requests.push(ObjectRequest::ManageDirty);
            }
            self.pending_response = Some(pending);
            proof {
                assert(requests@ =~= base_requests + (if cv.len() == 0 {
                    Seq::<ObjectRequest>::empty()
                } else {
                    seq![ObjectRequest::ManageDirty]
                }));
            }
        }
        proof {
            assert(spec_apply_render_response(*old(self), mid, rendered, projection_view(render_projection(*old(self))), render_allows(*old(self))));
            assert(base_requests == rendered.requests@.push(ObjectRequest::RenderFinish));
        }
        RuntimeOutcome { requests, result: validate_policy_capacity(self.replay, &self.policy_events) }
    }
}

/// Drawing a projection keeps every object known once and in creation
/// order.
pub proof fn lemma_render_keeps_wf(
    old: RiverObjects,
    new: RiverObjects,
    o: RenderOutcome,
    projection: Option<Seq<Placement>>,
    allow: bool,
)
    requires
        old.wf(),
        spec_apply_render_response(old, new, o, projection, allow),
    ensures
        new.wf(),
{
    match projection {
        None => {},
        Some(p) => {
            let visible = p.map_values(|pl: Placement| pl.win);
            let hid = old.windows@.map_values(|w: WindowRecord| hidden_unless_visible(w, visible));
            let raise = exists|k: int| 0 <= k < p.len() && (#[trigger] p[k]).occluded;
            lemma_render_all_keeps(hid, old.realm_ids@, old.window_ids@, p, allow, raise);
            assert(window_objects(hid) =~= window_objects(old.windows@));
            assert forall|j: int| 0 <= j < old.windows@.len() implies (#[trigger] new.windows@[j]).ordinal == old.windows@[j].ordinal by {
                assert(hid[j].ordinal == old.windows@[j].ordinal);
            }
            lemma_same_windows_wf(old, new);
        },
    }
}

/// Starting a manage phase keeps every object known once and in creation
/// order.
pub proof fn lemma_manage_start_keeps_wf(old: RiverObjects, new: RiverObjects, o: ManageStartOutcome)
    requires
        old.wf(),
        spec_manage_start(old, new, o),
    ensures
        new.wf(),
{
    match old.pending_response {
        Some(pr) => if pr.stage == ResponseStage::AwaitCorrectionManage {
            if pr.terminal_error is None {
                let mid = RiverObjects {
                    turn_requested: false,
                    pending_response: None,
                    last_projection: if pr.response.projection is Some {
                        pr.response.projection
                    } else {
                        old.last_projection
                    },
                    deferred_corrections: pr.corrections,
                    drain_ticket: Some(pr.ticket),
                    ..old
                };
                lemma_finish_policy_turn_keeps_wf(mid, new, o.turn);
            }
        } else {
            lemma_finish_policy_turn_keeps_wf(RiverObjects { turn_requested: false, ..old }, new, o.turn);
        },
        None => lemma_finish_policy_turn_keeps_wf(RiverObjects { turn_requested: false, ..old }, new, o.turn),
    }
}

/// Starting a render phase keeps every object known once and in creation
/// order.
pub proof fn lemma_render_start_keeps_wf(old: RiverObjects, new: RiverObjects, o: RuntimeOutcome)
    requires
        old.wf(),
        spec_render_start(old, new, o),
    ensures
        new.wf(),
{
    let correcting = old.pending_response matches Some(pr) && pr.stage == ResponseStage::AwaitCorrectionManage;
    if !(old.pending_response is Some && !awaiting_render(old) && !correcting) {
        let (mid, ro) = choose|mid: RiverObjects, ro: RenderOutcome| {
            &&& #[trigger] spec_apply_render_response(old, mid, ro, projection_view(render_projection(old)), render_allows(old))
            &&& match ro.result {
                Err(e) => o.requests@ == ro.requests@ && o.result == Err::<(), BackendError>(e) && new == mid,
                Ok(c) => if correcting {
                    &&& o.requests@ == ro.requests@.push(ObjectRequest::RenderFinish)
                    &&& o.result is Ok
                    &&& new == (RiverObjects { flush_pending: true, ..mid })
                } else if awaiting_render(old) {
                    let pr = old.pending_response->0;
                    let updated = if c@.len() == 0 {
                        PendingResponse { stage: ResponseStage::FlushingRender, ..pr }
                    } else {
                        PendingResponse {
                            corrections: c,
                            correction_round: true,
                            stage: ResponseStage::AwaitCorrectionManage,
                            ..pr
                        }
                    };
                    let requests = ro.requests@.push(ObjectRequest::RenderFinish) + (if c@.len() == 0 {
                        seq![]
                    } else {
                        seq![ObjectRequest::ManageDirty]
                    });
                    &&& new == (RiverObjects { pending_response: Some(updated), flush_pending: true, ..mid })
                    &&& checked(o, requests, new)
                } else {
                    &&& new == (RiverObjects { flush_pending: true, ..mid })
                    &&& checked(o, ro.requests@.push(ObjectRequest::RenderFinish), new)
                },
            }
        };
        lemma_render_keeps_wf(old, mid, ro, projection_view(render_projection(old)), render_allows(old));
    }
}

/// What a completed flush does: after the exit it marks the exit flushed
/// and drops the pending response; a response whose render was flushed
/// completes, reporting its awaited failure if it has one, and a successful
/// one becomes the last projection and the next turn's drain.
pub open spec fn spec_flush_completed(
    old: RiverObjects,
    new: RiverObjects,
    r: Option<(BackendTicket, Result<(), BackendError>)>,
) -> bool {
    if old.link.exit_started {
        &&& r is None
        &&& new == (RiverObjects {
            flush_pending: false,
            pending_response: None,
            link: Link { exit_flushed: true, ..old.link },
            ..old
        })
    } else if old.pending_response matches Some(pr) && pr.stage == ResponseStage::FlushingRender {
        let pr = old.pending_response->0;
        let ok = pr.terminal_error is None;
        &&& r == Some((pr.ticket, if ok { Ok::<(), BackendError>(()) } else { Err(pr.terminal_error->0) }))
        &&& new == (RiverObjects {
            flush_pending: false,
            pending_response: None,
            last_projection: if ok && pr.response.projection is Some {
                pr.response.projection
            } else {
                old.last_projection
            },
            drain_ticket: if ok { Some(pr.ticket) } else { old.drain_ticket },
            ..old
        })
    } else {
        r is None && new == (RiverObjects { flush_pending: false, ..old })
    }
}

impl RiverObjects {
    /// Note that everything sent has been flushed; returns the operation a
    /// flushed response completes, with its result.
    pub fn flush_completed(&mut self) -> (r: Option<(BackendTicket, Result<(), BackendError>)>)
        ensures
            spec_flush_completed(*old(self), *final(self), r),
    {
        self.flush_pending = false;
        if self.link.exit_started {
            self.link = Link { exit_flushed: true, ..self.link };
            self.pending_response = None;
            return None;
        }
        let flushing = match &self.pending_response {
            Some(pending) => match pending.stage {
                ResponseStage::FlushingRender => true,
                _ => false,
            },
            None => false,
        };
        if !flushing {
            return None;
        }
        let mut taken: Option<PendingResponse> = None;
        std::mem::swap(&mut taken, &mut self.pending_response);
        let pending = match taken {
            Some(pending) => pending,
            None => {
                return None;
            },
        };
        let PendingResponse { ticket, response, terminal_error, .. } = pending;
        match terminal_error {
            Some(e) => Some((ticket, Err(e))),
            None => {
                if response.projection.is_some() {
                    self.last_projection = response.projection;
                }
                self.drain_ticket = Some(ticket);
                Some((ticket, Ok(())))
            },
        }
    }
}

/// A completed flush keeps every object known once and in creation order.
pub proof fn lemma_flush_completed_keeps_wf(
    old: RiverObjects,
    new: RiverObjects,
    r: Option<(BackendTicket, Result<(), BackendError>)>,
)
    requires
        old.wf(),
        spec_flush_completed(old, new, r),
    ensures
        new.wf(),
{
}

} // verus!
