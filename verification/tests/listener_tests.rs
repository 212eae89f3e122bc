use voice2prompt::listener::{
    ctrl_v_events, has_typing_keys, is_event_device_name, keyboard_paths, virtual_keyboard_keys,
    DeviceEntry, KeyTracker, RawEvent, EV_KEY, EV_SYN, KEY_A, KEY_ENTER, KEY_LEFTCTRL,
    KEY_PRESSED, KEY_RELEASED, KEY_REPEATED, KEY_RIGHTCTRL, KEY_SPACE, KEY_V, SYN_REPORT,
    VIRTUAL_KEYBOARD_NAME,
};
use voice2prompt::protocol::Command;

fn rctrl(value: i32) -> RawEvent {
    RawEvent { event_type: EV_KEY, code: KEY_RIGHTCTRL, value }
}

#[test]
fn key_codes_match_the_kernel_codes() {
    assert_eq!(KEY_A, evdev::KeyCode::KEY_A.code());
    assert_eq!(KEY_ENTER, evdev::KeyCode::KEY_ENTER.code());
    assert_eq!(KEY_SPACE, evdev::KeyCode::KEY_SPACE.code());
    assert_eq!(KEY_LEFTCTRL, evdev::KeyCode::KEY_LEFTCTRL.code());
    assert_eq!(KEY_V, evdev::KeyCode::KEY_V.code());
    assert_eq!(KEY_RIGHTCTRL, evdev::KeyCode::KEY_RIGHTCTRL.code());
    assert_eq!(EV_KEY, evdev::EventType::KEY.0);
    assert_eq!(EV_SYN, evdev::EventType::SYNCHRONIZATION.0);
    assert_eq!(SYN_REPORT, evdev::SynchronizationCode::SYN_REPORT.0);
}

#[test]
fn press_starts_and_release_stops() {
    let mut t = KeyTracker::new();
    assert_eq!(t.on_event(rctrl(KEY_PRESSED)), Some(Command::Start));
    assert!(t.pressed);
    assert_eq!(t.on_event(rctrl(KEY_RELEASED)), Some(Command::Stop));
    assert!(!t.pressed);
}

#[test]
fn auto_repeat_and_double_press_send_nothing() {
    let mut t = KeyTracker::new();
    assert_eq!(t.on_event(rctrl(KEY_PRESSED)), Some(Command::Start));
    assert_eq!(t.on_event(rctrl(KEY_REPEATED)), None);
    assert_eq!(t.on_event(rctrl(KEY_PRESSED)), None);
    assert!(t.pressed);
}

#[test]
fn release_while_released_sends_nothing() {
    let mut t = KeyTracker::new();
    assert_eq!(t.on_event(rctrl(KEY_RELEASED)), None);
    assert!(!t.pressed);
}

#[test]
fn other_keys_and_event_types_are_ignored() {
    let mut t = KeyTracker::new();
    assert_eq!(t.on_event(RawEvent { event_type: EV_KEY, code: KEY_LEFTCTRL, value: 1 }), None);
    assert_eq!(t.on_event(RawEvent { event_type: EV_SYN, code: KEY_RIGHTCTRL, value: 1 }), None);
    assert_eq!(t.on_event(RawEvent { event_type: 4, code: KEY_RIGHTCTRL, value: 1 }), None);
    assert!(!t.pressed);
}

#[test]
fn a_batch_sends_alternating_commands() {
    let mut seed: u32 = 12345;
    let mut evs = Vec::new();
    for _ in 0..500 {
        seed = seed.wrapping_mul(1103515245).wrapping_add(12345);
        let value = ((seed >> 16) % 3) as i32;
        let code = if (seed >> 8) % 4 == 0 { KEY_A } else { KEY_RIGHTCTRL };
        evs.push(RawEvent { event_type: EV_KEY, code, value });
    }
    let mut t = KeyTracker::new();
    let cmds = t.on_events(&evs);
    assert!(!cmds.is_empty());
    for (i, c) in cmds.iter().enumerate() {
        let expected = if i % 2 == 0 { Command::Start } else { Command::Stop };
        assert_eq!(*c, expected);
    }
    assert_eq!(t.pressed, cmds.len() % 2 == 1);
}

#[test]
fn event_device_names() {
    assert!(is_event_device_name("event0"));
    assert!(is_event_device_name("event17"));
    assert!(!is_event_device_name("mouse0"));
    assert!(!is_event_device_name("by-path"));
}

#[test]
fn typing_keys_identify_keyboards() {
    assert!(has_typing_keys(&vec![1, 2, KEY_SPACE]));
    assert!(has_typing_keys(&vec![KEY_ENTER]));
    assert!(has_typing_keys(&vec![KEY_A]));
    assert!(!has_typing_keys(&vec![KEY_LEFTCTRL, KEY_V, 113, 114]));
    assert!(!has_typing_keys(&Vec::new()));
}

fn entry(name: &str, keys: Option<Vec<u16>>) -> DeviceEntry {
    DeviceEntry { name: name.to_string(), path: format!("/dev/input/{}", name), keys }
}

#[test]
fn keyboards_are_selected_in_order() {
    let entries = vec![
        entry("event0", Some(vec![KEY_A, KEY_ENTER])),
        entry("mouse0", Some(vec![KEY_A])),
        entry("event1", Some(vec![272, 273])),
        entry("event2", None),
        entry("event3", Some(vec![KEY_SPACE])),
    ];
    assert_eq!(keyboard_paths(&entries), vec!["/dev/input/event0".to_string(), "/dev/input/event3".to_string()]);
    assert!(keyboard_paths(&Vec::new()).is_empty());
}

#[test]
fn virtual_keyboard_declares_ctrl_and_v() {
    assert_eq!(virtual_keyboard_keys(), vec![KEY_LEFTCTRL, KEY_V]);
    assert_eq!(VIRTUAL_KEYBOARD_NAME, "v2p-ctrl-v");
}

#[test]
fn ctrl_v_presses_and_releases_in_nested_order() {
    let evs = ctrl_v_events();
    let expected = vec![
        RawEvent { event_type: EV_KEY, code: KEY_LEFTCTRL, value: 1 },
        RawEvent { event_type: EV_KEY, code: KEY_V, value: 1 },
        RawEvent { event_type: EV_SYN, code: SYN_REPORT, value: 0 },
        RawEvent { event_type: EV_KEY, code: KEY_V, value: 0 },
        RawEvent { event_type: EV_KEY, code: KEY_LEFTCTRL, value: 0 },
        RawEvent { event_type: EV_SYN, code: SYN_REPORT, value: 0 },
    ];
    assert_eq!(evs, expected);
}
