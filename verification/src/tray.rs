//! The tray indicator: green when ready, red while recording, yellow while
//! transcribing, drawn as a square of one colour.
use vstd::prelude::*;

verus! {

/// Width and height of the tray icon, in pixels.
pub const ICON_SIZE: u32 = 64;

/// Tooltip of the tray icon.
pub const TRAY_TOOLTIP: &'static str = "Voice2Prompt";

/// What the daemon is doing, as the tray shows it.
#[derive(PartialEq, Eq, Structural, Clone, Copy, Debug)]
pub enum TrayStatus {
    /// Waiting for the push-to-talk key.
    Ready,
    /// Collecting audio.
    Recording,
    /// Turning audio into text.
    Transcribing,
}

/// The colour of a status, as red, green and blue.
pub open spec fn status_rgb(s: TrayStatus) -> (u8, u8, u8) {
    match s {
        TrayStatus::Ready => (0x2e, 0xcc, 0x71),
        TrayStatus::Recording => (0xff, 0x00, 0x00),
        TrayStatus::Transcribing => (0xf1, 0xc4, 0x0f),
    }
}

impl TrayStatus {
    /// The colour shown for this status: green, red or yellow.
    pub fn rgb(&self) -> (c: [u8; 3])
        ensures
            (c[0], c[1], c[2]) == status_rgb(*self),
    {
        match self {
            TrayStatus::Ready => [0x2e, 0xcc, 0x71],
            TrayStatus::Recording => [0xff, 0x00, 0x00],
            TrayStatus::Transcribing => [0xf1, 0xc4, 0x0f],
        }
    }
}

/// Byte `i` of an opaque square icon of one colour, in RGBA order.
pub open spec fn icon_byte(r: u8, g: u8, b: u8, i: int) -> u8 {
    if i % 4 == 0 {
        r
    } else if i % 4 == 1 {
        g
    } else if i % 4 == 2 {
        b
    } else {
        255
    }
}

/// The RGBA pixels of an opaque square icon of one colour, row by row.
pub fn icon_pixels(r: u8, g: u8, b: u8) -> (px: Vec<u8>)
    ensures
        px@.len() == ICON_SIZE * ICON_SIZE * 4,
        forall|i: int| 0 <= i < px@.len() ==> #[trigger] px@[i] == icon_byte(r, g, b, i),
{
    let count: usize = (ICON_SIZE as usize) * (ICON_SIZE as usize);
    let mut px: Vec<u8> = Vec::new();
    let mut k: usize = 0;
    while k < count
        invariant
            k <= count,
            count == ICON_SIZE * ICON_SIZE,
            px@.len() == 4 * k,
            forall|i: int| 0 <= i < px@.len() ==> #[trigger] px@[i] == icon_byte(r, g, b, i),
        decreases count - k,
    {
        let ghost base = 4 * k as int;
        px.push(r);
        px.push(g);
        px.push(b);
        px.push(255);
        proof {
            assert(base % 4 == 0 && (base + 1) % 4 == 1 && (base + 2) % 4 == 2 && (base + 3) % 4
                == 3) by (nonlinear_arith)
                requires
                    base == 4 * k,
            ;
        }
        k = k + 1;
    }
    px
}

} // verus!
