use voice2prompt::tray::{icon_pixels, TrayStatus, ICON_SIZE, TRAY_TOOLTIP};

#[test]
fn status_colours() {
    assert_eq!(TrayStatus::Ready.rgb(), [0x2e, 0xcc, 0x71]);
    assert_eq!(TrayStatus::Recording.rgb(), [0xff, 0x00, 0x00]);
    assert_eq!(TrayStatus::Transcribing.rgb(), [0xf1, 0xc4, 0x0f]);
    assert_eq!(TRAY_TOOLTIP, "Voice2Prompt");
}

#[test]
fn icon_is_an_opaque_square_of_one_colour() {
    let px = icon_pixels(1, 2, 3);
    assert_eq!(ICON_SIZE, 64);
    assert_eq!(px.len(), 64 * 64 * 4);
    for chunk in px.chunks(4) {
        assert_eq!(chunk, &[1, 2, 3, 255]);
    }
}
