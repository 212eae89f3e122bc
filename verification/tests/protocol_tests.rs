use voice2prompt::protocol::{decode_command, encode_command, parse_command, Command, UDP_CMD_PORT, UDP_PASTE_PORT};

#[test]
fn ports_are_fixed() {
    assert_eq!(UDP_CMD_PORT, 5005);
    assert_eq!(UDP_PASTE_PORT, 5006);
}

#[test]
fn commands_are_sent_as_their_words() {
    assert_eq!(encode_command(Command::Start), b"START");
    assert_eq!(encode_command(Command::Stop), b"STOP");
    assert_eq!(encode_command(Command::Paste), b"PASTE");
}

#[test]
fn every_command_round_trips() {
    for c in [Command::Start, Command::Stop, Command::Paste] {
        assert_eq!(decode_command(encode_command(c)), Some(c));
    }
}

#[test]
fn surrounding_whitespace_is_ignored() {
    assert_eq!(decode_command(b"  STOP\n"), Some(Command::Stop));
    assert_eq!(decode_command(b"\tPASTE\r\n"), Some(Command::Paste));
    assert_eq!(parse_command(" START "), Some(Command::Start));
}

#[test]
fn other_words_are_not_commands() {
    assert_eq!(decode_command(b"start"), None);
    assert_eq!(decode_command(b"STARTED"), None);
    assert_eq!(decode_command(b"ST ART"), None);
    assert_eq!(decode_command(b""), None);
    assert_eq!(decode_command(&[0xff, b'S', b'T', b'O', b'P']), None);
    assert_eq!(parse_command(""), None);
}
