use std::time::Duration;

use realm_session::timers::{duration_until_next_minute, NANOS_PER_MINUTE};

#[test]
fn duration_until_next_minute_is_nonzero_and_boundary_aligned() {
    assert_eq!(
        duration_until_next_minute(Duration::from_secs(61).as_nanos()),
        Duration::from_secs(59).as_nanos()
    );
    assert_eq!(
        duration_until_next_minute(Duration::from_secs(120).as_nanos()),
        Duration::from_secs(60).as_nanos()
    );
}

#[test]
fn next_minute_lands_on_a_boundary_from_any_offset() {
    for since in [0_u128, 1, 59_999_999_999, 60_000_000_001, 1_735_689_600_123_456_789] {
        let remaining = duration_until_next_minute(since);
        assert!(remaining > 0 && remaining <= NANOS_PER_MINUTE);
        assert_eq!((since + remaining) % NANOS_PER_MINUTE, 0);
    }
    assert_eq!(duration_until_next_minute(1), NANOS_PER_MINUTE - 1);
}
