use walkie::clock::{clock_ms, now_ms};
use walkie::ptt::{ptt_expired, PttState};

#[test]
fn hold_ends_with_the_timeout() {
    let mut state = PttState::pressed(1_000);
    state.watch(1_299);
    assert_eq!(state, PttState { active: true, last_ms: 1_000 });
    state.watch(1_300);
    assert_eq!(state, PttState::released());
    state.watch(9_999);
    assert_eq!(state, PttState { active: false, last_ms: 0 });
}

#[test]
fn clock_that_goes_back_keeps_the_hold() {
    assert!(!ptt_expired(1_000, 0));
    assert!(!ptt_expired(0, u64::MAX));
    assert!(ptt_expired(1, 301));
}

#[test]
fn clock_value_is_the_low_part() {
    assert_eq!(clock_ms(None), 0);
    assert_eq!(clock_ms(Some(1_234)), 1_234);
    assert_eq!(clock_ms(Some((1u128 << 64) + 7)), 7);
}

#[test]
fn clock_runs_in_milliseconds() {
    let std_ms = std::time::SystemTime::now()
        .duration_since(std::time::UNIX_EPOCH)
        .unwrap()
        .as_millis() as u64;
    let now = now_ms();
    assert!(now >= std_ms);
    assert!(now - std_ms < 10_000);
}
