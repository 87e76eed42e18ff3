//! Wall-clock boundary arithmetic for the minute clock timer.
use vstd::prelude::*;

verus! {

/// Nanoseconds in one wall-clock minute.
pub const NANOS_PER_MINUTE: u128 = 60_000_000_000;

/// Time left until the next whole minute after `since_epoch_nanos`
/// nanoseconds past the Unix epoch.
///
/// A time that sits exactly on a boundary waits a full minute, so the timer
/// never fires with a zero delay.
pub open spec fn spec_until_next_minute(since_epoch_nanos: nat) -> nat {
    (NANOS_PER_MINUTE - since_epoch_nanos % (NANOS_PER_MINUTE as nat)) as nat
}

/// Nanoseconds from `since_epoch_nanos` to the next minute boundary.
pub fn duration_until_next_minute(since_epoch_nanos: u128) -> (remaining: u128)
    ensures
        remaining == spec_until_next_minute(since_epoch_nanos as nat),
        0 < remaining <= NANOS_PER_MINUTE,
        (since_epoch_nanos + remaining) % (NANOS_PER_MINUTE as int) == 0,
{
    let elapsed: u128 = since_epoch_nanos % NANOS_PER_MINUTE;
    let remaining: u128 = NANOS_PER_MINUTE - elapsed;
    proof {
        lemma_next_minute_aligned(since_epoch_nanos as nat);
    }
    remaining
}

/// The next boundary is strictly later, at most one minute away, and lands
/// on a whole minute.
pub proof fn lemma_next_minute_aligned(since_epoch_nanos: nat)
    ensures
        0 < spec_until_next_minute(since_epoch_nanos) <= NANOS_PER_MINUTE,
        (since_epoch_nanos + spec_until_next_minute(since_epoch_nanos)) as int % (
        NANOS_PER_MINUTE as int) == 0,
{
    let m: int = NANOS_PER_MINUTE as int;
    let n: int = since_epoch_nanos as int;
    let r: int = n % m;
    assert(0 <= r < m) by (nonlinear_arith)
        requires
            m == 60_000_000_000,
            r == n % m,
    ;
    assert(n == m * (n / m) + r) by (nonlinear_arith)
        requires
            m == 60_000_000_000,
            r == n % m,
    ;
    let q: int = n / m;
    assert((n + (m - r)) % m == 0) by (nonlinear_arith)
        requires
            m == 60_000_000_000,
            n == m * q + r,
    {
        assert(n + (m - r) == m * (q + 1));
    }
}

} // verus!
