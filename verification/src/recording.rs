//! The daemon's recording buffer and its reaction to commands: `START`
//! empties the buffer and starts collecting microphone samples, `STOP`
//! stops collecting and hands the collected samples over for
//! transcription, unless there are too few of them.
use vstd::prelude::*;
use crate::listener::{key_run, law_commands_alternate, RawEvent};
use crate::protocol::Command;

verus! {

/// Sample rate of the captured audio, in Hz.
pub const SAMPLE_RATE: u32 = 16000;

/// Number of captured audio channels.
pub const CHANNELS: u16 = 1;

/// Fewest samples worth transcribing (a tenth of a second).
pub const MIN_SAMPLES: usize = 1600;

/// Whether samples are being collected, and the samples collected so far.
pub struct Recorder {
    pub recording: bool,
    pub samples: Vec<i16>,
}

/// What the daemon does after a command.
pub enum DaemonStep {
    /// Not a command for the daemon; nothing changed.
    Ignored,
    /// Recording started with an empty buffer.
    RecordingStarted,
    /// Recording stopped; too few samples were collected to transcribe.
    TooShort,
    /// Recording stopped; these samples are to be transcribed.
    Transcribe(Vec<i16>),
}

/// The samples after a chunk of audio arrives: appended while recording,
/// dropped otherwise.
pub open spec fn after_audio(recording: bool, samples: Seq<i16>, data: Seq<i16>) -> Seq<i16> {
    if recording {
        samples + data
    } else {
        samples
    }
}

/// The samples after a series of audio chunks arrives.
pub open spec fn after_audio_chunks(recording: bool, samples: Seq<i16>, chunks: Seq<Seq<i16>>) -> Seq<i16>
    decreases chunks.len(),
{
    if chunks.len() == 0 {
        samples
    } else {
        after_audio(recording, after_audio_chunks(recording, samples, chunks.drop_last()), chunks.last())
    }
}

/// Whether a recording of `n` samples is too short to transcribe.
pub open spec fn too_short(n: nat) -> bool {
    n < MIN_SAMPLES
}

impl Recorder {
    /// Outside a recording the buffer holds nothing: every operation keeps
    /// this.
    pub open spec fn well_formed(&self) -> bool {
        !self.recording ==> self.samples@.len() == 0
    }

    /// An idle recorder with an empty buffer.
    pub fn new() -> (r: Recorder)
        ensures
            r.well_formed(),
            !r.recording,
            r.samples@ == Seq::<i16>::empty(),
    {
        Recorder { recording: false, samples: Vec::new() }
    }

    /// A chunk of microphone samples arrives.
    pub fn on_audio(&mut self, data: &[i16])
        ensures
            old(self).well_formed() ==> final(self).well_formed(),
            final(self).recording == old(self).recording,
            final(self).samples@ == after_audio(old(self).recording, old(self).samples@, data@),
            old(self).recording ==> final(self).samples@ == old(self).samples@ + data@,
            !old(self).recording ==> final(self).samples@ == old(self).samples@,
    {
        if self.recording {
            let mut i: usize = 0;
            while i < data.len()
                invariant
                    i <= data.len(),
                    self.recording == old(self).recording,
                    self.samples@ == old(self).samples@ + data@.take(i as int),
                decreases data.len() - i,
            {
                self.samples.push(data[i]);
                assert(data@.take(i + 1) =~= data@.take(i as int).push(data@[i as int]));
                i = i + 1;
            }
            assert(data@.take(data.len() as int) =~= data@);
        }
    }

    /// Starts recording with an empty buffer.
    pub fn start(&mut self)
        ensures
            final(self).well_formed(),
            final(self).recording,
            final(self).samples@ == Seq::<i16>::empty(),
    {
        self.recording = true;
        self.samples.clear();
    }

    /// Stops recording and takes the collected samples, leaving the buffer
    /// empty.
    pub fn stop(&mut self) -> (taken: Vec<i16>)
        ensures
            final(self).well_formed(),
            !final(self).recording,
            final(self).samples@ == Seq::<i16>::empty(),
            taken@ == old(self).samples@,
    {
        self.recording = false;
        let mut taken: Vec<i16> = Vec::new();
        std::mem::swap(&mut taken, &mut self.samples);
        taken
    }

    /// Reacts to a received command: `START` starts recording, `STOP` stops
    /// it and decides whether the collected samples are long enough to
    /// transcribe, anything else is ignored.
    pub fn handle_command(&mut self, cmd: Option<Command>) -> (step: DaemonStep)
        ensures
            old(self).well_formed() ==> final(self).well_formed(),
            cmd == Some(Command::Start) ==> {
                &&& final(self).recording
                &&& final(self).samples@ == Seq::<i16>::empty()
                &&& step is RecordingStarted
            },
            cmd == Some(Command::Stop) ==> {
                &&& !final(self).recording
                &&& final(self).samples@ == Seq::<i16>::empty()
                &&& (too_short(old(self).samples@.len()) <==> step is TooShort)
                &&& (!too_short(old(self).samples@.len()) <==> step is Transcribe)
                &&& (step matches DaemonStep::Transcribe(s) ==> s@ == old(self).samples@)
                &&& (old(self).samples@.len() >= MIN_SAMPLES ==> step is Transcribe)
                &&& (old(self).samples@.len() < MIN_SAMPLES ==> step is TooShort)
            },
            cmd != Some(Command::Start) && cmd != Some(Command::Stop) ==> {
                &&& final(self).recording == old(self).recording
                &&& final(self).samples@ == old(self).samples@
                &&& step is Ignored
            },
    {
        match cmd {
            Some(Command::Start) => {
                self.start();
                DaemonStep::RecordingStarted
            },
            Some(Command::Stop) => {
                let samples = self.stop();
                if samples.len() < MIN_SAMPLES {
                    DaemonStep::TooShort
                } else {
                    DaemonStep::Transcribe(samples)
                }
            },
            _ => DaemonStep::Ignored,
        }
    }
}

/// What `STOP` hands over is exactly the audio that arrived since `START`,
/// in order; audio that arrives while not recording is dropped.
pub proof fn law_recording_collects_audio_since_start(chunks: Seq<Seq<i16>>, samples: Seq<i16>)
    ensures
        after_audio_chunks(true, Seq::empty(), chunks) == chunks.flatten_alt(),
        after_audio_chunks(false, samples, chunks) == samples,
    decreases chunks.len(),
{
    if chunks.len() > 0 {
        law_recording_collects_audio_since_start(chunks.drop_last(), samples);
    } else {
        assert(chunks.flatten_alt() =~= Seq::<i16>::empty());
    }
}

/// Whether the daemon is recording after handling a series of commands, as
/// `handle_command` changes it: `START` turns recording on, `STOP` off,
/// anything else leaves it.
pub open spec fn recording_after(recording: bool, cmds: Seq<Command>) -> bool
    decreases cmds.len(),
{
    if cmds.len() == 0 {
        recording
    } else {
        match cmds.last() {
            Command::Start => true,
            Command::Stop => false,
            Command::Paste => recording_after(recording, cmds.drop_last()),
        }
    }
}

/// A recording is too short exactly when it holds fewer than 1600 samples,
/// a tenth of a second at 16 kHz: every longer recording is transcribed.
pub proof fn law_too_short_threshold(n: nat)
    ensures
        too_short(n) == (n < 1600),
        MIN_SAMPLES == 1600,
        MIN_SAMPLES as int * 10 == SAMPLE_RATE as int,
{
}

/// Listener and daemon together: whatever key events the listener reads,
/// once the daemon has handled the commands they produce, it is recording
/// exactly when the push-to-talk key is held.
pub proof fn law_daemon_records_while_key_held(evs: Seq<RawEvent>)
    ensures
        recording_after(false, key_run(false, evs).1) == key_run(false, evs).0,
{
    law_commands_alternate(evs);
    let cmds = key_run(false, evs).1;
    if cmds.len() > 0 {
        let last = cmds.len() - 1;
        assert(cmds[last] == if last % 2 == 0 {
            Command::Start
        } else {
            Command::Stop
        });
    }
}

} // verus!
