//! Realm window identities of compositor windows: which numeric window each
//! compositor identity was given, which compositor windows were already bound
//! to theirs, and the visible metadata kept per window.
//!
//! Each window fact of a policy turn updates these tables and says which
//! ledger edit (summoning or banishing a window) the caller applies.
use vstd::prelude::*;

use crate::backend::table::{id_index, ids_unique, key_index, keyed_insert, keyed_remove, keys_unique};
use crate::backend::{BackendContractError, BackendWindowId, MAX_VISIBLE_APP_ID_JSON_BYTES, MAX_VISIBLE_TITLE_JSON_BYTES};
use crate::policy::SessionEventError;
use crate::session::{normalize_visible, spec_normalize_visible, WindowMetadata};
use crate::text::str_equal;

verus! {

/// A ledger edit that a window fact asks of the caller.
#[derive(Debug, Clone, Copy, PartialEq, Eq, Structural)]
pub enum LedgerEdit {
    /// Summon the window into the active orbit.
    Summon(u64),
    /// Banish the window from the ledger.
    Banish(u64),
}

/// What an opened window asks of the caller.
#[derive(Debug)]
pub struct OpenedWindow {
    /// The Realm window the compositor window is known as.
    pub win: u64,
    /// The ledger edit to apply.
    pub edit: LedgerEdit,
    /// Whether the compositor window must now be bound to `win`.
    pub assign: bool,
}

/// The plain tables of [`WindowIdentities`].
pub struct IdentityTables {
    /// Realm window of each compositor identity.
    pub ids: Seq<(Seq<char>, u64)>,
    /// Compositor identities already bound to their Realm window.
    pub bound: Seq<Seq<char>>,
    /// Application id and title of each Realm window.
    pub windows: Seq<(u64, (Seq<char>, Seq<char>))>,
    /// The next Realm window number to hand out.
    pub next_win_id: u64,
}

/// Realm window identities, bindings and metadata of compositor windows.
#[derive(Debug)]
pub struct WindowIdentities {
    ids: Vec<(BackendWindowId, u64)>,
    bound: Vec<BackendWindowId>,
    windows: Vec<(u64, WindowMetadata)>,
    next_win_id: u64,
}

/// The identity table by value.
pub open spec fn id_table(s: Seq<(BackendWindowId, u64)>) -> Seq<(Seq<char>, u64)> {
    s.map_values(|e: (BackendWindowId, u64)| (e.0@, e.1))
}

/// The bound identities by value.
pub open spec fn bound_table(s: Seq<BackendWindowId>) -> Seq<Seq<char>> {
    s.map_values(|b: BackendWindowId| b@)
}

/// The metadata table by value.
pub open spec fn metadata_table(s: Seq<(u64, WindowMetadata)>) -> Seq<(u64, (Seq<char>, Seq<char>))> {
    s.map_values(|e: (u64, WindowMetadata)| (e.0, (e.1.app_id@, e.1.title@)))
}

impl View for WindowIdentities {
    type V = IdentityTables;

    open spec fn view(&self) -> IdentityTables {
        self.tables()
    }
}

/// The tables' invariant: each compositor identity, bound identity and
/// Realm window occurs once.
pub open spec fn tables_wf(t: IdentityTables) -> bool {
    &&& keys_unique(t.ids)
    &&& ids_unique(t.bound)
    &&& keys_unique(t.windows)
}

/// The stored metadata of a window reported with `app_id` and `title`.
pub open spec fn visible_metadata(app_id: Seq<char>, title: Seq<char>) -> (Seq<char>, Seq<char>) {
    (
        spec_normalize_visible(app_id, MAX_VISIBLE_APP_ID_JSON_BYTES as nat),
        spec_normalize_visible(title, MAX_VISIBLE_TITLE_JSON_BYTES as nat),
    )
}

/// The contract refusal for an unknown compositor window.
pub open spec fn unknown_window() -> SessionEventError {
    SessionEventError::BackendContract(BackendContractError::UnknownWindowReference)
}

/// The slot of compositor identity `id` in the identity table.
fn find_id(s: &Vec<(BackendWindowId, u64)>, id: &BackendWindowId) -> (r: Option<usize>)
    ensures
        match r {
            Some(i) => i < s@.len() && i as int == key_index(id_table(s@), id@),
            None => key_index(id_table(s@), id@) == -1,
        },
{
    let ghost p = id_table(s@);
    let mut i: usize = 0;
    while i < s.len()
        invariant
            i <= s@.len(),
            p == id_table(s@),
            forall|j: int| 0 <= j < i ==> p[j].0 != id@,
        decreases s.len() - i,
    {
        if str_equal(s[i].0.as_str(), id.as_str()) {
            proof {
                crate::backend::table::lemma_key_index(p, id@, i as int);
            }
            return Some(i);
        }
        i = i + 1;
    }
    proof {
        crate::backend::table::lemma_key_index(p, id@, i as int);
    }
    None
}

/// The slot of compositor identity `id` among the bound ones.
fn find_bound(s: &Vec<BackendWindowId>, id: &BackendWindowId) -> (r: Option<usize>)
    ensures
        match r {
            Some(i) => i < s@.len() && i as int == id_index(bound_table(s@), id@),
            None => id_index(bound_table(s@), id@) == -1,
        },
{
    let ghost p = bound_table(s@);
    let mut i: usize = 0;
    while i < s.len()
        invariant
            i <= s@.len(),
            p == bound_table(s@),
            forall|j: int| 0 <= j < i ==> p[j] != id@,
        decreases s.len() - i,
    {
        if str_equal(s[i].as_str(), id.as_str()) {
            proof {
                crate::backend::table::lemma_id_index(p, id@, i as int);
            }
            return Some(i);
        }
        i = i + 1;
    }
    proof {
        crate::backend::table::lemma_id_index(p, id@, i as int);
    }
    None
}

/// The slot of Realm window `win` in the metadata table.
fn find_window(s: &Vec<(u64, WindowMetadata)>, win: u64) -> (r: Option<usize>)
    ensures
        match r {
            Some(i) => i < s@.len() && i as int == key_index(metadata_table(s@), win),
            None => key_index(metadata_table(s@), win) == -1,
        },
{
    let ghost p = metadata_table(s@);
    let mut i: usize = 0;
    while i < s.len()
        invariant
            i <= s@.len(),
            p == metadata_table(s@),
            forall|j: int| 0 <= j < i ==> p[j].0 != win,
        decreases s.len() - i,
    {
        if s[i].0 == win {
            proof {
                crate::backend::table::lemma_key_index(p, win, i as int);
            }
            return Some(i);
        }
        i = i + 1;
    }
    proof {
        crate::backend::table::lemma_key_index(p, win, i as int);
    }
    None
}

impl WindowIdentities {
    /// The plain tables.
    pub closed spec fn tables(&self) -> IdentityTables {
        IdentityTables {
            ids: id_table(self.ids@),
            bound: bound_table(self.bound@),
            windows: metadata_table(self.windows@),
            next_win_id: self.next_win_id,
        }
    }

    /// No window known yet; Realm windows are numbered from `next_win_id`.
    pub fn new(next_win_id: u64) -> (w: Self)
        ensures
            w@.ids.len() == 0,
            w@.bound.len() == 0,
            w@.windows.len() == 0,
            w@.next_win_id == next_win_id,
            tables_wf(w@),
    {
        let w = WindowIdentities { ids: Vec::new(), bound: Vec::new(), windows: Vec::new(), next_win_id };
        assert(w@.ids =~= Seq::<(Seq<char>, u64)>::empty());
        assert(w@.bound =~= Seq::<Seq<char>>::empty());
        assert(w@.windows =~= Seq::<(u64, (Seq<char>, Seq<char>))>::empty());
        w
    }

    /// A compositor window opened: it keeps the Realm window it already has,
    /// or gets the next number; its metadata is recorded, visible text
    /// normalized; the window is summoned, and bound unless it already is.
    ///
    /// Fails with `WindowIdExhausted`, changing nothing, when a new number is
    /// needed and every number is taken.
    pub fn opened(&mut self, backend_id: &BackendWindowId, app_id: &str, title: &str) -> (r: Result<OpenedWindow, SessionEventError>)
        requires
            tables_wf(old(self)@),
        ensures
            tables_wf(final(self)@),
            ({
                let t = old(self)@;
                let k = key_index(t.ids, backend_id@);
                let win = if k >= 0 { t.ids[k].1 } else { t.next_win_id };
                let fresh = id_index(t.bound, backend_id@) < 0;
                &&& (r is Err) <==> (k < 0 && t.next_win_id == u64::MAX)
                &&& r is Err ==> r == Err::<OpenedWindow, SessionEventError>(SessionEventError::WindowIdExhausted)
                    && final(self)@ == t
                &&& r matches Ok(o) ==> {
                    &&& o.win == win
                    &&& o.edit == LedgerEdit::Summon(win)
                    &&& o.assign == fresh
                    &&& final(self)@.ids == (if k >= 0 { t.ids } else { t.ids.push((backend_id@, t.next_win_id)) })
                    &&& final(self)@.next_win_id == (if k >= 0 { t.next_win_id } else { (t.next_win_id + 1) as u64 })
                    &&& final(self)@.windows == keyed_insert(t.windows, win, visible_metadata(app_id@, title@))
                    &&& final(self)@.bound == (if fresh { t.bound.push(backend_id@) } else { t.bound })
                }
            }),
    {
        let ghost t = self@;
        let win = match find_id(&self.ids, backend_id) {
            Some(i) => self.ids[i].1,
            None => {
                if self.next_win_id == u64::MAX {
                    return Err(SessionEventError::WindowIdExhausted);
                }
                let win = self.next_win_id;
                proof {
                    crate::backend::table::lemma_keys_push(t.ids, backend_id@, win);
                }
                self.ids.push((backend_id.clone(), win));
                self.next_win_id = self.next_win_id + 1;
                assert(id_table(self.ids@) =~= t.ids.push((backend_id@, win)));
                win
            },
        };
        let metadata = WindowMetadata {
            app_id: normalize_visible(app_id, MAX_VISIBLE_APP_ID_JSON_BYTES),
            title: normalize_visible(title, MAX_VISIBLE_TITLE_JSON_BYTES),
        };
        let ghost wt = metadata_table(self.windows@);
        proof {
            crate::backend::table::lemma_keyed_insert(wt, win, visible_metadata(app_id@, title@));
        }
        match find_window(&self.windows, win) {
            Some(j) => {
                self.windows.set(j, (win, metadata));
            },
            None => {
                self.windows.push((win, metadata));
            },
        }
        assert(metadata_table(self.windows@) =~= keyed_insert(wt, win, visible_metadata(app_id@, title@)));
        let assign = match find_bound(&self.bound, backend_id) {
            Some(_) => false,
            None => {
                proof {
                    crate::backend::table::lemma_ids_push(t.bound, backend_id@);
                }
                self.bound.push(backend_id.clone());
                assert(bound_table(self.bound@) =~= t.bound.push(backend_id@));
                true
            },
        };
        Ok(OpenedWindow { win, edit: LedgerEdit::Summon(win), assign })
    }

    /// A compositor window closed: it loses its Realm window, its binding
    /// and its metadata, and the Realm window it had is banished.
    ///
    /// Fails with `UnknownWindowReference`, changing nothing, when the
    /// identity has no Realm window.
    pub fn closed(&mut self, backend_id: &BackendWindowId) -> (r: Result<LedgerEdit, SessionEventError>)
        requires
            tables_wf(old(self)@),
        ensures
            tables_wf(final(self)@),
            ({
                let t = old(self)@;
                let k = key_index(t.ids, backend_id@);
                let b = id_index(t.bound, backend_id@);
                &&& (r is Err) <==> k < 0
                &&& r is Err ==> r == Err::<LedgerEdit, SessionEventError>(unknown_window()) && final(self)@ == t
                &&& r is Ok ==> {
                    &&& r == Ok::<LedgerEdit, SessionEventError>(LedgerEdit::Banish(t.ids[k].1))
                    &&& final(self)@.ids == keyed_remove(t.ids, backend_id@)
                    &&& final(self)@.bound == (if b >= 0 { t.bound.remove(b) } else { t.bound })
                    &&& final(self)@.windows == keyed_remove(t.windows, t.ids[k].1)
                    &&& final(self)@.next_win_id == t.next_win_id
                }
            }),
    {
        let ghost t = self@;
        let i = match find_id(&self.ids, backend_id) {
            Some(i) => i,
            None => {
                return Err(SessionEventError::BackendContract(BackendContractError::UnknownWindowReference));
            },
        };
        let win = self.ids[i].1;
        proof {
            crate::backend::table::lemma_keyed_remove(t.ids, backend_id@);
            crate::backend::table::lemma_remove_at_key(t.ids, backend_id@);
        }
        self.ids.remove(i);
        assert(id_table(self.ids@) =~= t.ids.remove(i as int));
        match find_bound(&self.bound, backend_id) {
            Some(j) => {
                proof {
                    crate::backend::table::lemma_ids_remove(t.bound, j as int);
                }
                self.bound.remove(j);
                assert(bound_table(self.bound@) =~= t.bound.remove(j as int));
            },
            None => {},
        }
        proof {
            crate::backend::table::lemma_keyed_remove(t.windows, win);
        }
        match find_window(&self.windows, win) {
            Some(j) => {
                proof {
                    crate::backend::table::lemma_remove_at_key(t.windows, win);
                }
                self.windows.remove(j);
                assert(metadata_table(self.windows@) =~= t.windows.remove(j as int));
            },
            None => {},
        }
        Ok(LedgerEdit::Banish(win))
    }

    /// A compositor window's title changed: the stored title becomes the
    /// normalized new title.
    ///
    /// Fails with `UnknownWindowReference`, changing nothing, when the
    /// identity has no Realm window or that window has no metadata.
    pub fn title_changed(&mut self, backend_id: &BackendWindowId, title: &str) -> (r: Result<(), SessionEventError>)
        requires
            tables_wf(old(self)@),
        ensures
            tables_wf(final(self)@),
            ({
                let t = old(self)@;
                let k = key_index(t.ids, backend_id@);
                let j = key_index(t.windows, t.ids[k].1);
                &&& (r is Err) <==> (k < 0 || j < 0)
                &&& r is Err ==> r == Err::<(), SessionEventError>(unknown_window()) && final(self)@ == t
                &&& r is Ok ==> final(self)@ == IdentityTables {
                    windows: t.windows.update(
                        j,
                        (t.ids[k].1, ((t.windows[j].1).0, spec_normalize_visible(title@, MAX_VISIBLE_TITLE_JSON_BYTES as nat))),
                    ),
                    ..t
                }
            }),
    {
        let ghost t = self@;
        let i = match find_id(&self.ids, backend_id) {
            Some(i) => i,
            None => {
                return Err(SessionEventError::BackendContract(BackendContractError::UnknownWindowReference));
            },
        };
        let win = self.ids[i].1;
        let j = match find_window(&self.windows, win) {
            Some(j) => j,
            None => {
                return Err(SessionEventError::BackendContract(BackendContractError::UnknownWindowReference));
            },
        };
        let app_id = self.windows[j].1.app_id.clone();
        let normalized = normalize_visible(title, MAX_VISIBLE_TITLE_JSON_BYTES);
        self.windows.set(j, (win, WindowMetadata { app_id, title: normalized }));
        proof {
            crate::backend::table::lemma_key_index_finds(t.windows, win);
            assert(metadata_table(self.windows@) =~= t.windows.update(
                j as int,
                (win, ((t.windows[j as int].1).0, spec_normalize_visible(title@, MAX_VISIBLE_TITLE_JSON_BYTES as nat))),
            ));
            assert forall|a: int, b: int| 0 <= a < b < self@.windows.len() implies self@.windows[a].0
                != self@.windows[b].0 by {
                assert(self@.windows[a].0 == t.windows[a].0);
                assert(self@.windows[b].0 == t.windows[b].0);
            }
        }
        Ok(())
    }

    /// The Realm window of a compositor identity.
    pub fn realm_window(&self, backend_id: &BackendWindowId) -> (r: Option<u64>)
        ensures
            ({
                let k = key_index(self@.ids, backend_id@);
                r == (if k >= 0 { Some(self@.ids[k].1) } else { None::<u64> })
            }),
    {
        match find_id(&self.ids, backend_id) {
            Some(i) => Some(self.ids[i].1),
            None => None,
        }
    }

    /// Whether a compositor identity is bound to its Realm window.
    pub fn is_bound(&self, backend_id: &BackendWindowId) -> (r: bool)
        ensures
            r == (id_index(self@.bound, backend_id@) >= 0),
    {
        find_bound(&self.bound, backend_id).is_some()
    }

    /// The metadata kept for a Realm window.
    pub fn metadata(&self, win: u64) -> (r: Option<WindowMetadata>)
        ensures
            ({
                let j = key_index(self@.windows, win);
                &&& (r is Some) == (j >= 0)
                &&& r matches Some(m) ==> (m.app_id@, m.title@) == self@.windows[j].1
            }),
    {
        match find_window(&self.windows, win) {
            Some(j) => Some(WindowMetadata {
                app_id: self.windows[j].1.app_id.clone(),
                title: self.windows[j].1.title.clone(),
            }),
            None => None,
        }
    }

    /// The next Realm window number to hand out.
    pub fn next_win_id(&self) -> (n: u64)
        ensures
            n == self@.next_win_id,
    {
        self.next_win_id
    }

}

} // verus!
