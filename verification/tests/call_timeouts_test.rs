use std::time::Duration;

use auto_prompt::config::CallTimeouts;

#[test]
fn call_timeouts_defaults_match_plan_008() {
    let t = CallTimeouts::default();
    assert_eq!(t.first_token_secs, 120, "TTFT window default must be 120s");
    assert_eq!(t.per_event_secs, 30, "per-event window default must be 30s");
    assert_eq!(t.total_secs, 300, "total backstop default must be 300s");
}

#[test]
fn call_timeouts_duration_methods() {
    let t = CallTimeouts::default();
    assert_eq!(Duration::from_secs(t.first_token()), Duration::from_secs(120));
    assert_eq!(Duration::from_secs(t.per_event()), Duration::from_secs(30));
    assert_eq!(Duration::from_secs(t.total()), Duration::from_secs(300));
}

#[test]
fn call_timeouts_defaults_satisfy_tier_invariant() {
    let t = CallTimeouts::default();
    assert!(
        t.first_token() >= t.per_event(),
        "TTFT window ({:?}) must be >= per-event window ({:?})",
        t.first_token(),
        t.per_event()
    );
    assert!(
        t.total() > t.first_token(),
        "total backstop ({:?}) must exceed TTFT window ({:?})",
        t.total(),
        t.first_token()
    );
}

#[test]
fn a_wait_is_bounded_by_its_window_and_by_the_call() {
    let t = CallTimeouts::default();
    assert_eq!(t.wait_limit_secs(false, 0), 120);
    assert_eq!(t.wait_limit_secs(true, 100), 30);
    assert_eq!(t.wait_limit_secs(true, 285), 15);
    assert_eq!(t.wait_limit_secs(false, 300), 0);
    assert_eq!(t.wait_limit_secs(true, 1_000), 0);
}
