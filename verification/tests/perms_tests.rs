use voice2prompt::perms::{evdev_readable, ok, DeviceProbe};

fn probe(name: &str, readable: bool) -> DeviceProbe {
    DeviceProbe { name: name.to_string(), readable }
}

#[test]
fn ok_needs_both_checks() {
    assert!(ok(true, true));
    assert!(!ok(true, false));
    assert!(!ok(false, true));
    assert!(!ok(false, false));
}

#[test]
fn a_readable_event_device_suffices() {
    let probes = vec![probe("by-id", true), probe("event0", false), probe("event4", true)];
    assert!(evdev_readable(&probes));
}

#[test]
fn readable_non_event_entries_do_not_count() {
    let probes = vec![probe("mouse0", true), probe("js0", true), probe("event1", false)];
    assert!(!evdev_readable(&probes));
}

#[test]
fn no_entries_means_not_readable() {
    assert!(!evdev_readable(&Vec::new()));
}
