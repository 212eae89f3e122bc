//! `v2p doctor`: the diagnostic report on device access, audio input,
//! clipboard tools and display server, and whether the setup is usable.
use vstd::prelude::*;
use crate::text::{decode_utf8_lossy, join, join_with, lossy_utf8, trim, trim_str};

verus! {

/// What the diagnostics found out.
pub struct DoctorFacts {
    /// The program's version.
    pub version: String,
    /// Paths of the keyboard devices found.
    pub keyboards: Vec<String>,
    /// Whether an event device can be read.
    pub evdev_ok: bool,
    /// Whether the uinput device can be written.
    pub uinput_ok: bool,
    /// Whether there is an audio input device.
    pub audio_ok: bool,
    /// Where `wl-copy` is installed, if it is.
    pub wl_copy: Option<String>,
    /// Where `xclip` is installed, if it is.
    pub xclip: Option<String>,
    /// The `DISPLAY` variable, if set.
    pub display: Option<String>,
    /// The `WAYLAND_DISPLAY` variable, if set.
    pub wayland_display: Option<String>,
}

/// The report: its lines, and whether everything required is in place
/// (when it is not, the command exits with status 1).
pub struct DoctorReport {
    pub lines: Vec<String>,
    pub healthy: bool,
}

/// `[ok]` or `[!!]` for a required item.
pub open spec fn required_mark(ok: bool) -> Seq<char> {
    if ok {
        "[ok]"@
    } else {
        "[!!]"@
    }
}

/// `[ok]` or `[--]` for an optional item.
pub open spec fn optional_mark(ok: bool) -> Seq<char> {
    if ok {
        "[ok]"@
    } else {
        "[--]"@
    }
}

/// The text of an optional value, or a default.
pub open spec fn text_or(o: Option<String>, default: Seq<char>) -> Seq<char> {
    match o {
        Some(s) => s@,
        None => default,
    }
}

/// The required items are all present.
pub open spec fn all_required_ok(f: DoctorFacts) -> bool {
    f.evdev_ok && f.uinput_ok && f.audio_ok
}

/// The keyboard line of the report.
pub open spec fn keyboard_line(keyboards: Seq<Seq<char>>) -> Seq<char> {
    required_mark(keyboards.len() != 0) + " keyboard devices found: "@ + if keyboards.len() == 0 {
        "none"@
    } else {
        join_with(keyboards, ", "@)
    }
}

/// The display server line of the report.
pub open spec fn display_line(f: DoctorFacts) -> Seq<char> {
    optional_mark(f.display is Some || f.wayland_display is Some) + " display server for tray (DISPLAY="@
        + text_or(f.display, "none"@) + ", WAYLAND_DISPLAY="@ + text_or(f.wayland_display, "none"@)
        + ")"@
}

/// The closing lines: advice for what is missing, or the all-clear.
pub open spec fn closing_lines(f: DoctorFacts) -> Seq<Seq<char>> {
    let access = if !f.evdev_ok || !f.uinput_ok {
        seq!["Run ./install.sh once, then log out and back in, to fix device access."@]
    } else {
        Seq::empty()
    };
    let audio = if !f.audio_ok {
        seq!["No input device found — check your microphone / ALSA setup."@]
    } else {
        Seq::empty()
    };
    let all_good = if all_required_ok(f) {
        seq!["All good — ready to run. Start with: v2p run"@]
    } else {
        Seq::empty()
    };
    access + audio + all_good
}

/// The lines of the report.
pub open spec fn report_lines(f: DoctorFacts) -> Seq<Seq<char>> {
    seq![
        "v2p "@ + f.version@,
        ""@,
        keyboard_line(f.keyboards@.map_values(|k: String| k@)),
        required_mark(f.evdev_ok) + " /dev/input read access (Right Ctrl detection)"@,
        required_mark(f.uinput_ok) + " /dev/uinput write access (Ctrl+V injection)"@,
        required_mark(f.audio_ok) + " audio input device"@,
        optional_mark(f.wl_copy is Some) + " wl-copy (Wayland clipboard): "@ + text_or(
            f.wl_copy,
            "not installed"@,
        ),
        optional_mark(f.xclip is Some) + " xclip (X11 fallback): "@ + text_or(
            f.xclip,
            "not installed"@,
        ),
        display_line(f),
        ""@,
    ] + closing_lines(f)
}

fn required_mark_str(ok: bool) -> (m: &'static str)
    ensures
        m@ == required_mark(ok),
{
    if ok {
        "[ok]"
    } else {
        "[!!]"
    }
}

fn optional_mark_str(ok: bool) -> (m: &'static str)
    ensures
        m@ == optional_mark(ok),
{
    if ok {
        "[ok]"
    } else {
        "[--]"
    }
}

fn append_or(line: &mut String, o: &Option<String>, default: &str)
    ensures
        final(line)@ == old(line)@ + text_or(*o, default@),
{
    match o {
        Some(s) => line.append(s.as_str()),
        None => line.append(default),
    }
}

fn text_line(s: &str) -> (l: String)
    ensures
        l@ == s@,
{
    String::from_str(s)
}

/// Builds the diagnostic report from what was found out.
pub fn doctor_report(f: &DoctorFacts) -> (r: DoctorReport)
    ensures
        r.lines@.map_values(|l: String| l@) == report_lines(*f),
        r.healthy == all_required_ok(*f),
        r.healthy == (f.evdev_ok && f.uinput_ok && f.audio_ok),
        r.lines@.map_values(|l: String| l@).contains(
            "All good — ready to run. Start with: v2p run"@,
        ) == (f.evdev_ok && f.uinput_ok && f.audio_ok),
{
    let mut lines: Vec<String> = Vec::new();

    let mut l0 = String::from_str("v2p ");
    l0.append(f.version.as_str());
    lines.push(l0);
    lines.push(text_line(""));

    let has_keyboards = f.keyboards.len() != 0;
    let mut l2 = String::from_str(required_mark_str(has_keyboards));
    l2.append(" keyboard devices found: ");
    if has_keyboards {
        let list = join(&f.keyboards, ", ");
        l2.append(list.as_str());
    } else {
        l2.append("none");
    }
    lines.push(l2);

    let mut l3 = String::from_str(required_mark_str(f.evdev_ok));
    l3.append(" /dev/input read access (Right Ctrl detection)");
    lines.push(l3);

    let mut l4 = String::from_str(required_mark_str(f.uinput_ok));
    l4.append(" /dev/uinput write access (Ctrl+V injection)");
    lines.push(l4);

    let mut l5 = String::from_str(required_mark_str(f.audio_ok));
    l5.append(" audio input device");
    lines.push(l5);

    let mut l6 = String::from_str(optional_mark_str(f.wl_copy.is_some()));
    l6.append(" wl-copy (Wayland clipboard): ");
    append_or(&mut l6, &f.wl_copy, "not installed");
    lines.push(l6);

    let mut l7 = String::from_str(optional_mark_str(f.xclip.is_some()));
    l7.append(" xclip (X11 fallback): ");
    append_or(&mut l7, &f.xclip, "not installed");
    lines.push(l7);

    let mut l8 = String::from_str(
        optional_mark_str(f.display.is_some() || f.wayland_display.is_some()),
    );
    l8.append(" display server for tray (DISPLAY=");
    append_or(&mut l8, &f.display, "none");
    l8.append(", WAYLAND_DISPLAY=");
    append_or(&mut l8, &f.wayland_display, "none");
    l8.append(")");
    lines.push(l8);
    lines.push(text_line(""));

    let ghost fixed = lines@.map_values(|l: String| l@);
    let ghost head = report_lines(*f).take(10);
    proof {
        assert(fixed.len() == 10);
        assert forall|i: int| 0 <= i < 10 implies fixed[i] == head[i] by {
            if i == 2 && has_keyboards {
                assert(fixed[i] =~= keyboard_line(f.keyboards@.map_values(|k: String| k@)));
            } else if i == 8 {
                assert(fixed[i] =~= display_line(*f));
            } else {
                assert(fixed[i] =~= head[i]);
            }
        }
        assert(fixed =~= head);
    }
    let ghost before_access = lines@;
    if !f.evdev_ok || !f.uinput_ok {
        lines.push(text_line("Run ./install.sh once, then log out and back in, to fix device access."));
    }
    let ghost before_audio = lines@;
    if !f.audio_ok {
        lines.push(text_line("No input device found — check your microphone / ALSA setup."));
    }
    let ghost before_all_good = lines@;
    let healthy = f.evdev_ok && f.uinput_ok && f.audio_ok;
    if healthy {
        lines.push(text_line("All good — ready to run. Start with: v2p run"));
    }
    proof {
        let spec_lines = report_lines(*f);
        let got = lines@.map_values(|l: String| l@);
        assert(spec_lines =~= head + closing_lines(*f));
        assert(got =~= fixed + closing_lines(*f));
        law_report_verdict(*f);
    }
    DoctorReport { lines, healthy }
}

/// The installed path in the decoded output of `which`: the output with
/// surrounding whitespace removed, or `None` when nothing remains.
pub open spec fn installed_path_of(output: Seq<char>) -> Option<Seq<char>> {
    let t = trim(output);
    if t.len() == 0 {
        None
    } else {
        Some(t)
    }
}

/// Reads the installed path from the decoded output of `which`.
pub fn installed_path(output: &str) -> (p: Option<String>)
    ensures
        p is Some <==> installed_path_of(output@) is Some,
        p matches Some(s) ==> installed_path_of(output@) == Some(s@),
{
    let t = trim_str(output);
    if t.unicode_len() == 0 {
        None
    } else {
        Some(t)
    }
}

/// Reads the raw output of `which`: decoded leniently, then as
/// [`installed_path`].
pub fn which_path(stdout: &[u8]) -> (p: Option<String>)
    ensures
        p is Some <==> installed_path_of(lossy_utf8(stdout@)) is Some,
        p matches Some(s) ==> installed_path_of(lossy_utf8(stdout@)) == Some(s@),
{
    let text = decode_utf8_lossy(stdout);
    installed_path(text.as_str())
}

/// The first character of every fixed line of the report is `v` or `[`,
/// or the line is empty.
proof fn lemma_fixed_lines_start(f: DoctorFacts)
    ensures
        forall|i: int|
            0 <= i < 10 ==> (#[trigger] report_lines(f)[i]).len() == 0 || report_lines(f)[i][0]
                == 'v' || report_lines(f)[i][0] == '[',
        report_lines(f).len() == 10 + closing_lines(f).len(),
        forall|i: int|
            0 <= i < closing_lines(f).len() ==> #[trigger] report_lines(f)[10 + i]
                == closing_lines(f)[i],
{
    reveal_strlit("v2p ");
    reveal_strlit("");
    reveal_strlit("[ok]");
    reveal_strlit("[!!]");
    reveal_strlit("[--]");
    let lines = report_lines(f);
    assert forall|i: int|
        0 <= i < 10 implies (#[trigger] lines[i]).len() == 0 || lines[i][0] == 'v' || lines[i][0]
            == '[' by {
        if i == 0 {
            assert(lines[i][0] == "v2p "@[0]);
        } else if i == 2 {
            let k = f.keyboards@.map_values(|k: String| k@);
            assert(lines[i][0] == required_mark(k.len() != 0)[0]);
        } else if i == 3 {
            assert(lines[i][0] == required_mark(f.evdev_ok)[0]);
        } else if i == 4 {
            assert(lines[i][0] == required_mark(f.uinput_ok)[0]);
        } else if i == 5 {
            assert(lines[i][0] == required_mark(f.audio_ok)[0]);
        } else if i == 6 {
            assert(lines[i][0] == optional_mark(f.wl_copy is Some)[0]);
        } else if i == 7 {
            assert(lines[i][0] == optional_mark(f.xclip is Some)[0]);
        } else if i == 8 {
            assert(lines[i][0] == optional_mark(f.display is Some || f.wayland_display is Some)[0]);
        }
    }
}

/// The verdict of the report: the all-clear line is there exactly when
/// event devices are readable, uinput is writable and there is an audio
/// input; the device advice exactly when one of the two device checks
/// failed; the audio advice exactly when there is no audio input.
pub proof fn law_report_verdict(f: DoctorFacts)
    ensures
        report_lines(f).contains("All good — ready to run. Start with: v2p run"@) == (f.evdev_ok
            && f.uinput_ok && f.audio_ok),
        report_lines(f).contains(
            "Run ./install.sh once, then log out and back in, to fix device access."@,
        ) == (!f.evdev_ok || !f.uinput_ok),
        report_lines(f).contains("No input device found — check your microphone / ALSA setup."@)
            == !f.audio_ok,
{
    let all_good = "All good — ready to run. Start with: v2p run"@;
    let access = "Run ./install.sh once, then log out and back in, to fix device access."@;
    let audio = "No input device found — check your microphone / ALSA setup."@;
    reveal_strlit("All good — ready to run. Start with: v2p run");
    reveal_strlit("Run ./install.sh once, then log out and back in, to fix device access.");
    reveal_strlit("No input device found — check your microphone / ALSA setup.");
    lemma_fixed_lines_start(f);
    let lines = report_lines(f);
    let closing = closing_lines(f);
    assert(all_good[0] == 'A' && access[0] == 'R' && audio[0] == 'N');
    // every closing line is one of the three, told apart by their first character
    assert forall|j: int| 0 <= j < closing.len() implies (#[trigger] closing[j] == access && !f.evdev_ok
        || closing[j] == access && !f.uinput_ok) || (closing[j] == audio && !f.audio_ok) || (
    closing[j] == all_good && f.evdev_ok && f.uinput_ok && f.audio_ok) by {
    }
    assert forall|t: Seq<char>| t.len() > 0 && (t[0] == 'A' || t[0] == 'R' || t[0] == 'N')
        implies lines.contains(t) == closing.contains(t) by {
        if lines.contains(t) {
            let i = choose|i: int| 0 <= i < lines.len() && lines[i] == t;
            if i < 10 {
                assert(lines[i].len() == 0 || lines[i][0] == 'v' || lines[i][0] == '[');
            } else {
                assert(lines[10 + (i - 10)] == closing[i - 10]);
            }
        }
        if closing.contains(t) {
            let j = choose|j: int| 0 <= j < closing.len() && closing[j] == t;
            assert(lines[10 + j] == closing[j]);
        }
    }
    if f.evdev_ok && f.uinput_ok && f.audio_ok {
        assert(closing[closing.len() - 1] == all_good);
    }
    if !f.evdev_ok || !f.uinput_ok {
        assert(closing[0] == access);
    }
    if !f.audio_ok {
        if !f.evdev_ok || !f.uinput_ok {
            assert(closing[1] == audio);
        } else {
            assert(closing[0] == audio);
        }
    }
}

} // verus!
