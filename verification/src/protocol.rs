//! The datagram protocol between the keyboard listener and the daemon: the
//! listener sends `START` / `STOP` to the daemon's command port, the daemon
//! sends `PASTE` back to the listener's paste port. A receiver decodes the
//! bytes leniently, trims surrounding whitespace and compares the word.
use vstd::prelude::*;
use vstd::utf8::*;
use crate::text::{is_white_space, lossy_utf8, str_eq, trim, trim_end, trim_start, trim_str, decode_utf8_lossy};

verus! {

/// Port on which the daemon receives `START` and `STOP`.
pub const UDP_CMD_PORT: u16 = 5005;

/// Port on which the listener receives `PASTE`.
pub const UDP_PASTE_PORT: u16 = 5006;

/// A command word exchanged between the two processes.
#[derive(PartialEq, Eq, Structural, Clone, Copy, Debug)]
pub enum Command {
    /// Right Ctrl went down: start recording.
    Start,
    /// Right Ctrl went up: stop recording and transcribe.
    Stop,
    /// The transcript is on the clipboard: inject Ctrl+V.
    Paste,
}

/// The word that carries a command.
pub open spec fn command_word(c: Command) -> Seq<char> {
    match c {
        Command::Start => "START"@,
        Command::Stop => "STOP"@,
        Command::Paste => "PASTE"@,
    }
}

/// The command a (trimmed) text names, if any.
pub open spec fn command_of(text: Seq<char>) -> Option<Command> {
    if text == "START"@ {
        Some(Command::Start)
    } else if text == "STOP"@ {
        Some(Command::Stop)
    } else if text == "PASTE"@ {
        Some(Command::Paste)
    } else {
        None
    }
}

/// What a receiver makes of a datagram.
pub open spec fn decoded_command(bytes: Seq<u8>) -> Option<Command> {
    command_of(trim(lossy_utf8(bytes)))
}

/// The bytes that carry a command: the UTF-8 encoding of its word.
pub open spec fn command_bytes(c: Command) -> Seq<u8> {
    encode_utf8(command_word(c))
}

/// A command word has no surrounding whitespace, survives UTF-8 encoding and
/// names its command.
proof fn lemma_word(c: Command)
    ensures
        valid_utf8(command_bytes(c)),
        decode_utf8(command_bytes(c)) == command_word(c),
        trim(command_word(c)) == command_word(c),
        command_of(command_word(c)) == Some(c),
{
    reveal_strlit("START");
    reveal_strlit("STOP");
    reveal_strlit("PASTE");
    encode_utf8_valid_utf8(command_word(c));
    encode_utf8_decode_utf8(command_word(c));
    let w = command_word(c);
    assert(!is_white_space(w[0]));
    assert(!is_white_space(w.last()));
    assert(trim_start(w) == w);
    assert(trim_end(w) == w);
    assert("START"@.len() != "STOP"@.len());
    assert("STOP"@.len() != "PASTE"@.len());
    assert("START"@ != "STOP"@);
    assert("START"@[0] != "PASTE"@[0]);
    assert("START"@ != "PASTE"@);
    assert("STOP"@ != "PASTE"@);
}

/// The command named by an already decoded text, after trimming it.
pub fn parse_command(text: &str) -> (c: Option<Command>)
    ensures
        c == command_of(trim(text@)),
{
    let t = trim_str(text);
    if str_eq(t.as_str(), "START") {
        Some(Command::Start)
    } else if str_eq(t.as_str(), "STOP") {
        Some(Command::Stop)
    } else if str_eq(t.as_str(), "PASTE") {
        Some(Command::Paste)
    } else {
        None
    }
}

/// The command carried by a received datagram. The bytes a sender puts on
/// the wire for a command are read back as that command.
pub fn decode_command(bytes: &[u8]) -> (c: Option<Command>)
    ensures
        c == decoded_command(bytes@),
        forall|sent: Command| bytes@ == command_bytes(sent) ==> c == Some(sent),
{
    let text = decode_utf8_lossy(bytes);
    let c = parse_command(text.as_str());
    assert forall|sent: Command| bytes@ == command_bytes(sent) implies c == Some(sent) by {
        lemma_word(sent);
    }
    c
}

/// The bytes to send for a command.
pub fn encode_command(c: Command) -> (b: &'static [u8])
    ensures
        b@ == command_bytes(c),
{
    match c {
        Command::Start => "START".as_bytes(),
        Command::Stop => "STOP".as_bytes(),
        Command::Paste => "PASTE".as_bytes(),
    }
}

} // verus!
