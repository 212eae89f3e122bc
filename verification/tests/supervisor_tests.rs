use voice2prompt::supervisor::{
    grace_over, listener_mode, on_listener_poll, ListenerMode, ListenerPoll, GRACE_PERIOD_MS,
    POLL_INTERVAL_MS,
};

#[test]
fn listener_placement_follows_device_access() {
    assert_eq!(listener_mode(true), ListenerMode::InProcess);
    assert_eq!(listener_mode(false), ListenerMode::Sudo);
}

#[test]
fn grace_period_is_ten_seconds_polled_every_200_ms() {
    assert_eq!(GRACE_PERIOD_MS, 10_000);
    assert_eq!(POLL_INTERVAL_MS, 200);
    assert!(!grace_over(false, false, 9_999));
    assert!(grace_over(false, false, 10_000));
    assert!(grace_over(true, false, 0));
    assert!(grace_over(false, true, 0));
}

#[test]
fn early_listener_exit_shuts_down() {
    assert_eq!(on_listener_poll(true), ListenerPoll::ShutDown);
    assert_eq!(on_listener_poll(false), ListenerPoll::KeepWatching);
}
