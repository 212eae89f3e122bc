use voice2prompt::transcript::{join_segments, paste_text};

fn segs(v: &[&str]) -> Vec<String> {
    v.iter().map(|s| s.to_string()).collect()
}

#[test]
fn segments_are_trimmed_and_joined_with_spaces() {
    assert_eq!(
        join_segments(&segs(&[" Hello there.", "  How are you? ", "\n"])),
        Some("Hello there. How are you?".to_string())
    );
}

#[test]
fn blank_segments_give_no_transcript() {
    assert_eq!(join_segments(&segs(&[" ", "", "\t\n"])), None);
    assert_eq!(join_segments(&Vec::new()), None);
}

#[test]
fn a_single_segment_is_its_own_transcript() {
    assert_eq!(join_segments(&segs(&["  Bonjour "])), Some("Bonjour".to_string()));
}

#[test]
fn pasted_text_ends_with_one_space() {
    assert_eq!(paste_text("Hello there."), "Hello there. ");
    assert_eq!(paste_text("  padded \n"), "padded ");
    let t = join_segments(&segs(&[" one ", "two  "])).unwrap();
    assert_eq!(paste_text(&t), format!("{} ", t));
}
