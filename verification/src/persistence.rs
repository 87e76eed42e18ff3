//! Pure event-loop ownership of coalesced snapshot persistence state.
//!
//! Times are monotonic instants in nanoseconds since an arbitrary origin.
use vstd::prelude::*;

use crate::session::{SessionSnapshotV1, SnapshotValue};
use crate::text::{decimal, push_decimal};

verus! {

/// Maximum delay, in nanoseconds, from the first dirty observation to yielding a snapshot.
pub const SNAPSHOT_DELAY_NANOS: u64 = 250_000_000;

/// Result reported for one completed persistence request.
#[derive(Debug, Clone, Copy, PartialEq, Eq, Structural)]
pub enum PersistCompletion {
    /// The complete snapshot became the persisted record.
    Succeeded,
    /// Persistence failed without changing authoritative session state.
    Failed,
}

/// One immutable, monotonically sequenced snapshot ready for the worker.
#[derive(Debug, Clone)]
pub struct PersistRequest {
    sequence: u64,
    snapshot: SessionSnapshotV1,
}

impl PersistRequest {
    /// The request's sequence.
    pub closed spec fn spec_sequence(&self) -> u64 {
        self.sequence
    }

    /// The value of the request's snapshot.
    pub closed spec fn spec_snapshot(&self) -> SnapshotValue {
        self.snapshot@
    }

    /// Monotonic sequence assigned when this request became due.
    pub fn sequence(&self) -> (s: u64)
        ensures
            s == self.spec_sequence(),
    {
        self.sequence
    }

    /// Immutable authoritative snapshot carried by this request.
    pub fn snapshot(&self) -> (s: &SessionSnapshotV1)
        ensures
            s@ == self.spec_snapshot(),
    {
        &self.snapshot
    }
}

/// Invalid completion reported to the single-in-flight coordinator.
#[derive(Debug, Clone, Copy, PartialEq, Eq, Structural)]
pub struct PersistCompletionError {
    /// Sequence of the request in flight, if any.
    pub expected: Option<u64>,
    /// Sequence the completion named.
    pub actual: u64,
}

impl PersistCompletionError {
    /// The error's message.
    pub open spec fn spec_message(self) -> Seq<char> {
        "unexpected persistence completion "@ + decimal(self.actual as nat) + "; expected "@
            + match self.expected {
                Some(e) => "Some("@ + decimal(e as nat) + ")"@,
                None => "None"@,
            }
    }

    /// Render the error's message.
    pub fn message(&self) -> (m: String)
        ensures
            m@ == self.spec_message(),
    {
        let mut m = String::from_str("unexpected persistence completion ");
        push_decimal(&mut m, self.actual);
        m.append("; expected ");
        match self.expected {
            Some(e) => {
                m.append("Some(");
                push_decimal(&mut m, e);
                m.append(")");
            },
            None => m.append("None"),
        }
        m
    }
}

/// The plain state of a [`PersistenceCoordinator`].
pub struct CoordinatorState {
    /// Value known to be persisted.
    pub persisted: Option<SnapshotValue>,
    /// Latest unwritten value and its fixed deadline.
    pub dirty: Option<(SnapshotValue, u64)>,
    /// Sequence and value of the request being written.
    pub in_flight: Option<(u64, SnapshotValue)>,
    /// Sequence the next request receives.
    pub next_sequence: u64,
}

/// The state after observing an authoritative snapshot at `now`, and whether it changed.
pub open spec fn observe_transition(c: CoordinatorState, snapshot: Option<SnapshotValue>, now: u64) -> (CoordinatorState, bool) {
    match snapshot {
        None => (c, false),
        Some(v) => {
            if c.dirty is Some && c.dirty.unwrap().0 == v {
                (c, false)
            } else if c.in_flight is None && c.persisted == Some(v) {
                (CoordinatorState { dirty: None, ..c }, c.dirty is Some)
            } else if c.dirty is Some {
                (CoordinatorState { dirty: Some((v, c.dirty.unwrap().1)), ..c }, true)
            } else if c.in_flight is Some && c.in_flight.unwrap().1 == v {
                (c, false)
            } else {
                (CoordinatorState { dirty: Some((v, (now + SNAPSHOT_DELAY_NANOS) as u64)), ..c }, true)
            }
        },
    }
}

/// The deadline of the waiting dirty value, hidden while a request is in flight.
pub open spec fn coordinator_deadline(c: CoordinatorState) -> Option<u64> {
    if c.in_flight is Some {
        None
    } else {
        match c.dirty {
            Some((_, d)) => Some(d),
            None => None,
        }
    }
}

/// Whether a request becomes due at `now`.
pub open spec fn request_due(c: CoordinatorState, now: u64) -> bool {
    c.in_flight is None && c.dirty is Some && now >= c.dirty.unwrap().1
}

/// The state after a due dirty value becomes the in-flight request.
pub open spec fn take_transition(c: CoordinatorState) -> CoordinatorState {
    CoordinatorState {
        dirty: None,
        in_flight: Some((c.next_sequence, c.dirty.unwrap().0)),
        next_sequence: (c.next_sequence + 1) as u64,
        ..c
    }
}

/// The state after the in-flight request completes at `now`.
pub open spec fn complete_transition(c: CoordinatorState, completion: PersistCompletion, now: u64) -> CoordinatorState {
    let done = c.in_flight.unwrap().1;
    let c = CoordinatorState { in_flight: None, ..c };
    match completion {
        PersistCompletion::Succeeded => CoordinatorState {
            dirty: if c.dirty is Some && c.dirty.unwrap().0 == done { None } else { c.dirty },
            persisted: Some(done),
            ..c
        },
        PersistCompletion::Failed => match c.dirty {
            None => CoordinatorState { dirty: Some((done, (now + SNAPSHOT_DELAY_NANOS) as u64)), ..c },
            Some((v, d)) => if c.persisted == Some(v) {
                CoordinatorState { dirty: None, ..c }
            } else if v == done {
                CoordinatorState { dirty: Some((v, (now + SNAPSHOT_DELAY_NANOS) as u64)), ..c }
            } else {
                c
            },
        },
    }
}

/// The latest value a clean shutdown must still write.
pub open spec fn shutdown_value(c: CoordinatorState) -> Option<SnapshotValue> {
    match c.dirty {
        Some((v, _)) => Some(v),
        None => match c.in_flight {
            Some((_, v)) => Some(v),
            None => None,
        },
    }
}

/// Coalescing state owned exclusively by the event-loop thread.
#[derive(Debug)]
pub struct PersistenceCoordinator {
    persisted: Option<SessionSnapshotV1>,
    dirty: Option<(SessionSnapshotV1, u64)>,
    in_flight: Option<PersistRequest>,
    next_sequence: u64,
}

impl View for PersistenceCoordinator {
    type V = CoordinatorState;

    open spec fn view(&self) -> CoordinatorState {
        self.state()
    }
}

impl PersistenceCoordinator {
    /// The coordinator's plain state.
    pub closed spec fn state(&self) -> CoordinatorState {
        CoordinatorState {
            persisted: match self.persisted {
                Some(s) => Some(s@),
                None => None,
            },
            dirty: match self.dirty {
                Some((s, d)) => Some((s@, d)),
                None => None,
            },
            in_flight: match self.in_flight {
                Some(r) => Some((r.spec_sequence(), r.spec_snapshot())),
                None => None,
            },
            next_sequence: self.next_sequence,
        }
    }

    /// Start with the snapshot already known to be persisted, if any.
    pub fn new(persisted: Option<SessionSnapshotV1>) -> (c: Self)
        ensures
            c@.persisted == crate::session::opt_value(persisted),
            c@.dirty is None,
            c@.in_flight is None,
            c@.next_sequence == 1,
            coordinator_wf(c@),
    {
        PersistenceCoordinator { persisted, dirty: None, in_flight: None, next_sequence: 1 }
    }

    /// Observe an authoritative snapshot, retaining only the latest changed value.
    ///
    /// Returns whether the pending persistence work changed.
    pub fn observe(&mut self, snapshot: Option<SessionSnapshotV1>, now: u64) -> (changed: bool)
        requires
            now <= u64::MAX - SNAPSHOT_DELAY_NANOS,
        ensures
            (final(self)@, changed) == observe_transition(old(self)@, crate::session::opt_value(snapshot), now),
    {
        let snapshot = match snapshot {
            Some(snapshot) => snapshot,
            None => return false,
        };
        if let Some((dirty, _)) = &self.dirty {
            if dirty.same_as(&snapshot) {
                return false;
            }
        }
        if self.in_flight.is_none() {
            if let Some(persisted) = &self.persisted {
                if persisted.same_as(&snapshot) {
                    let had = self.dirty.is_some();
                    self.dirty = None;
                    return had;
                }
            }
        }
        if let Some((_, deadline)) = &self.dirty {
            let deadline = *deadline;
            self.dirty = Some((snapshot, deadline));
            return true;
        }
        if let Some(request) = &self.in_flight {
            if request.snapshot.same_as(&snapshot) {
                return false;
            }
        }
        self.dirty = Some((snapshot, now + SNAPSHOT_DELAY_NANOS));
        true
    }

    /// Fixed deadline for the latest dirty snapshot, if one is waiting.
    pub fn deadline(&self) -> (d: Option<u64>)
        ensures
            d == coordinator_deadline(self@),
    {
        if self.in_flight.is_some() {
            return None;
        }
        match &self.dirty {
            Some((_, deadline)) => Some(*deadline),
            None => None,
        }
    }

    /// Whether the request sequence space is exhausted.
    pub open spec fn sequence_exhausted(&self) -> bool {
        self@.next_sequence == u64::MAX
    }

    /// Whether the request sequence space is exhausted, so no further request
    /// can be issued.
    pub fn is_sequence_exhausted(&self) -> (r: bool)
        ensures
            r == self.sequence_exhausted(),
    {
        self.next_sequence == u64::MAX
    }

    /// Yield the latest dirty snapshot when due and no older request is in flight.
    pub fn take_due(&mut self, now: u64) -> (r: Option<PersistRequest>)
        requires
            request_due(old(self)@, now) ==> !old(self).sequence_exhausted(),
        ensures
            request_due(old(self)@, now) ==> {
                &&& r matches Some(req)
                &&& req.spec_sequence() == old(self)@.next_sequence
                &&& req.spec_snapshot() == old(self)@.dirty.unwrap().0
                &&& final(self)@ == take_transition(old(self)@)
            },
            !request_due(old(self)@, now) ==> r is None && final(self)@ == old(self)@,
    {
        if self.in_flight.is_some() {
            return None;
        }
        let due = match &self.dirty {
            Some((_, deadline)) => now >= *deadline,
            None => false,
        };
        if !due {
            return None;
        }
        let (snapshot, _) = self.dirty.take().unwrap();
        let request = PersistRequest { sequence: self.next_sequence, snapshot };
        self.next_sequence = self.next_sequence + 1;
        self.in_flight = Some(request.clone_request());
        Some(request)
    }

    /// Apply completion for the sole in-flight request without clearing newer work.
    pub fn complete(&mut self, sequence: u64, completion: PersistCompletion, now: u64) -> (r: Result<(), PersistCompletionError>)
        requires
            now <= u64::MAX - SNAPSHOT_DELAY_NANOS,
        ensures
            match old(self)@.in_flight {
                Some((expected, _)) => if expected == sequence {
                    r is Ok && final(self)@ == complete_transition(old(self)@, completion, now)
                } else {
                    r == Err::<(), PersistCompletionError>(PersistCompletionError { expected: Some(expected), actual: sequence })
                        && final(self)@ == old(self)@
                },
                None => r == Err::<(), PersistCompletionError>(PersistCompletionError { expected: None, actual: sequence })
                    && final(self)@ == old(self)@,
            },
    {
        let expected = match &self.in_flight {
            Some(request) => Some(request.sequence),
            None => None,
        };
        if expected != Some(sequence) {
            return Err(PersistCompletionError { expected, actual: sequence });
        }
        let completed = self.in_flight.take().unwrap();
        match completion {
            PersistCompletion::Succeeded => {
                let same = match &self.dirty {
                    Some((dirty, _)) => dirty.same_as(&completed.snapshot),
                    None => false,
                };
                if same {
                    self.dirty = None;
                }
                self.persisted = Some(completed.snapshot);
            },
            PersistCompletion::Failed => {
                let dirty = self.dirty.take();
                match dirty {
                    None => {
                        self.dirty = Some((completed.snapshot, now + SNAPSHOT_DELAY_NANOS));
                    },
                    Some((value, deadline)) => {
                        let already = match &self.persisted {
                            Some(persisted) => persisted.same_as(&value),
                            None => false,
                        };
                        if already {
                            self.dirty = None;
                        } else if value.same_as(&completed.snapshot) {
                            self.dirty = Some((value, now + SNAPSHOT_DELAY_NANOS));
                        } else {
                            self.dirty = Some((value, deadline));
                        }
                    },
                }
            },
        }
        Ok(())
    }

    /// Latest unpersisted authoritative value that clean shutdown must flush.
    pub fn shutdown_snapshot(&self) -> (s: Option<SessionSnapshotV1>)
        ensures
            crate::session::opt_value(s) == shutdown_value(self@),
    {
        match &self.dirty {
            Some((snapshot, _)) => Some(snapshot.clone()),
            None => match &self.in_flight {
                Some(request) => Some(request.snapshot.clone()),
                None => None,
            },
        }
    }
}

impl PersistRequest {
    fn clone_request(&self) -> (r: Self)
        ensures
            r.spec_sequence() == self.spec_sequence(),
            r.spec_snapshot() == self.spec_snapshot(),
    {
        PersistRequest { sequence: self.sequence, snapshot: self.snapshot.clone() }
    }
}

/// The coordinator's bookkeeping invariant: the next sequence is positive
/// and strictly above the sequence of any request in flight, and neither the
/// value in flight nor a value waiting with nothing in flight is already the
/// persisted record.
pub open spec fn coordinator_wf(c: CoordinatorState) -> bool {
    &&& c.next_sequence >= 1
    &&& c.in_flight matches Some((s, _)) ==> s < c.next_sequence
    &&& c.in_flight matches Some((_, v)) ==> c.persisted != Some(v)
    &&& c.in_flight is None && c.dirty is Some ==> c.persisted != Some(c.dirty.unwrap().0)
}

/// Every transition keeps the coordinator's bookkeeping invariant: a request
/// in flight always carries a sequence below the next one handed out, so no
/// two requests share a sequence, and nothing already persisted is queued
/// for writing while the worker is idle.
pub proof fn lemma_transitions_keep_sequences(
    c: CoordinatorState,
    snapshot: Option<SnapshotValue>,
    completion: PersistCompletion,
    now: u64,
)
    requires
        coordinator_wf(c),
    ensures
        coordinator_wf(observe_transition(c, snapshot, now).0),
        request_due(c, now) && c.next_sequence < u64::MAX ==> coordinator_wf(take_transition(c))
            && take_transition(c).next_sequence > c.next_sequence,
        c.in_flight is Some ==> coordinator_wf(complete_transition(c, completion, now)),
{
}

/// After an authoritative value is observed, it is never lost: a clean
/// shutdown flushes exactly that value, or nothing is left to flush and it is
/// already the persisted record.
pub proof fn lemma_observed_value_is_retained(c: CoordinatorState, v: SnapshotValue, now: u64)
    ensures
        ({
            let after = observe_transition(c, Some(v), now).0;
            shutdown_value(after) == Some(v) || (shutdown_value(after) is None && after.persisted
                == Some(v))
        }),
{
}

/// Observing a value never moves the deadline of a value already waiting:
/// the deadline is fixed by the first dirty observation.
pub proof fn lemma_observe_keeps_deadline(c: CoordinatorState, snapshot: Option<SnapshotValue>, now: u64)
    requires
        c.dirty is Some,
    ensures
        ({
            let after = observe_transition(c, snapshot, now).0;
            after.dirty is None || after.dirty.unwrap().1 == c.dirty.unwrap().1
        }),
{
}

/// A value that reverts to the persisted record while nothing is in flight
/// is not written again.
pub proof fn lemma_reverting_to_persisted_is_clean(c: CoordinatorState, v: SnapshotValue, now: u64)
    requires
        coordinator_wf(c),
        c.in_flight is None,
        c.persisted == Some(v),
    ensures
        observe_transition(c, Some(v), now).0.dirty is None,
        coordinator_deadline(observe_transition(c, Some(v), now).0) is None,
{
}

/// Completing an older request never discards a newer waiting value: the
/// newer value stays waiting with its deadline unless it is exactly the
/// value now known to be persisted.
pub proof fn lemma_older_completion_keeps_latest(
    c: CoordinatorState,
    completion: PersistCompletion,
    now: u64,
)
    requires
        c.in_flight is Some,
        c.dirty is Some,
        c.dirty.unwrap().0 != c.in_flight.unwrap().1,
    ensures
        ({
            let after = complete_transition(c, completion, now);
            after.dirty == c.dirty || (after.dirty is None && after.persisted == Some(
                c.dirty.unwrap().0,
            ))
        }),
{
}

/// A failed write of the latest value re-arms it from the completion time.
pub proof fn lemma_failed_latest_rearms(c: CoordinatorState, now: u64)
    requires
        c.in_flight is Some,
        c.dirty is None || c.dirty.unwrap().0 == c.in_flight.unwrap().1,
        c.dirty is Some ==> c.persisted != Some(c.dirty.unwrap().0),
    ensures
        complete_transition(c, PersistCompletion::Failed, now).dirty == Some(
            (c.in_flight.unwrap().1, (now + SNAPSHOT_DELAY_NANOS) as u64),
        ),
{
}

/// A successful write makes the written value the persisted record and
/// clears a waiting copy of the same value.
pub proof fn lemma_success_persists(c: CoordinatorState, now: u64)
    requires
        c.in_flight is Some,
    ensures
        ({
            let after = complete_transition(c, PersistCompletion::Succeeded, now);
            &&& after.persisted == Some(c.in_flight.unwrap().1)
            &&& after.in_flight is None
            &&& (c.dirty is Some && c.dirty.unwrap().0 == c.in_flight.unwrap().1) ==> after.dirty is None
        }),
{
}


/// One call made on a coordinator: `observe`, `take_due` or `complete`, with
/// its arguments.
pub enum CoordinatorCall {
    /// `observe(snapshot, now)`.
    Observe(Option<SnapshotValue>, u64),
    /// `take_due(now)`.
    TakeDue(u64),
    /// `complete(sequence, completion, now)`.
    Complete(u64, PersistCompletion, u64),
}

/// The state after one call, and the sequence of the request it handed out.
pub open spec fn call_step(c: CoordinatorState, call: CoordinatorCall) -> (CoordinatorState, Option<u64>) {
    match call {
        CoordinatorCall::Observe(snapshot, now) => (observe_transition(c, snapshot, now).0, None),
        CoordinatorCall::TakeDue(now) => if request_due(c, now) {
            (take_transition(c), Some(c.next_sequence))
        } else {
            (c, None)
        },
        CoordinatorCall::Complete(sequence, completion, now) => if c.in_flight matches Some((e, _)) && e
            == sequence {
            (complete_transition(c, completion, now), None)
        } else {
            (c, None)
        },
    }
}

/// The state after a run of calls, and the sequences of the requests handed
/// out, in order.
pub open spec fn run_calls(c: CoordinatorState, calls: Seq<CoordinatorCall>) -> (CoordinatorState, Seq<u64>)
    decreases calls.len(),
{
    if calls.len() == 0 {
        (c, seq![])
    } else {
        let (mid, issued) = run_calls(c, calls.drop_last());
        let (after, handed) = call_step(mid, calls.last());
        (after, match handed {
            Some(q) => issued.push(q),
            None => issued,
        })
    }
}

/// Requests are numbered 1, 2, 3, ... in the order a fresh coordinator hands
/// them out, and no number is handed out twice, whatever calls come between.
pub proof fn lemma_requests_numbered_in_order(c: CoordinatorState, calls: Seq<CoordinatorCall>)
    requires
        c.next_sequence == 1,
        calls.len() < u64::MAX,
    ensures
        ({
            let (after, issued) = run_calls(c, calls);
            &&& forall|k: int| 0 <= k < issued.len() ==> #[trigger] issued[k] == k + 1
            &&& after.next_sequence == issued.len() + 1
        }),
    decreases calls.len(),
{
    if calls.len() > 0 {
        lemma_requests_numbered_in_order(c, calls.drop_last());
        let (mid, issued) = run_calls(c, calls.drop_last());
        assert(issued.len() <= calls.drop_last().len()) by {
            lemma_issued_at_most_calls(c, calls.drop_last());
        }
        let (after, handed) = call_step(mid, calls.last());
        if handed is Some {
            assert(issued.push(handed->0)[issued.len() as int] == issued.len() + 1);
        }
    }
}

/// A run hands out at most one request per call.
proof fn lemma_issued_at_most_calls(c: CoordinatorState, calls: Seq<CoordinatorCall>)
    ensures
        run_calls(c, calls).1.len() <= calls.len(),
    decreases calls.len(),
{
    if calls.len() > 0 {
        lemma_issued_at_most_calls(c, calls.drop_last());
    }
}
} // verus!
