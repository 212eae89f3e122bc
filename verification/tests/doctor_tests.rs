use voice2prompt::doctor::{doctor_report, installed_path, which_path, DoctorFacts};

fn healthy_facts() -> DoctorFacts {
    DoctorFacts {
        version: "0.1.0".to_string(),
        keyboards: vec!["/dev/input/event3".to_string(), "/dev/input/event5".to_string()],
        evdev_ok: true,
        uinput_ok: true,
        audio_ok: true,
        wl_copy: Some("/usr/bin/wl-copy".to_string()),
        xclip: None,
        display: None,
        wayland_display: Some("wayland-0".to_string()),
    }
}

#[test]
fn healthy_report() {
    let r = doctor_report(&healthy_facts());
    assert!(r.healthy);
    assert_eq!(
        r.lines,
        vec![
            "v2p 0.1.0",
            "",
            "[ok] keyboard devices found: /dev/input/event3, /dev/input/event5",
            "[ok] /dev/input read access (Right Ctrl detection)",
            "[ok] /dev/uinput write access (Ctrl+V injection)",
            "[ok] audio input device",
            "[ok] wl-copy (Wayland clipboard): /usr/bin/wl-copy",
            "[--] xclip (X11 fallback): not installed",
            "[ok] display server for tray (DISPLAY=none, WAYLAND_DISPLAY=wayland-0)",
            "",
            "All good — ready to run. Start with: v2p run",
        ]
    );
}

#[test]
fn report_without_access_or_audio() {
    let mut f = healthy_facts();
    f.keyboards = Vec::new();
    f.uinput_ok = false;
    f.audio_ok = false;
    f.wayland_display = None;
    let r = doctor_report(&f);
    assert!(!r.healthy);
    assert_eq!(r.lines[2], "[!!] keyboard devices found: none");
    assert_eq!(r.lines[4], "[!!] /dev/uinput write access (Ctrl+V injection)");
    assert_eq!(r.lines[5], "[!!] audio input device");
    assert_eq!(r.lines[8], "[--] display server for tray (DISPLAY=none, WAYLAND_DISPLAY=none)");
    assert_eq!(
        &r.lines[10..],
        &[
            "Run ./install.sh once, then log out and back in, to fix device access.".to_string(),
            "No input device found — check your microphone / ALSA setup.".to_string(),
        ]
    );
}

#[test]
fn only_audio_missing() {
    let mut f = healthy_facts();
    f.audio_ok = false;
    let r = doctor_report(&f);
    assert!(!r.healthy);
    assert_eq!(r.lines.len(), 11);
    assert_eq!(r.lines[10], "No input device found — check your microphone / ALSA setup.");
}

#[test]
fn which_output_is_trimmed() {
    assert_eq!(which_path(b"/usr/bin/xclip\n"), Some("/usr/bin/xclip".to_string()));
    assert_eq!(which_path(b""), None);
    assert_eq!(which_path(b" \n"), None);
    assert_eq!(which_path(&[0xff, b'/', b'x', b'\n']), Some("\u{fffd}/x".to_string()));
}

#[test]
fn installed_path_trims_decoded_output() {
    assert_eq!(installed_path("  /usr/bin/wl-copy\n"), Some("/usr/bin/wl-copy".to_string()));
    assert_eq!(installed_path("\n"), None);
}
