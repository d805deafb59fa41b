//! The control verbs of the engine and what each of them sets in motion.
//!
//! The engine worker alternates between chunks and commands.  What a command
//! means is decided here: the seeks are carried out on the graph and the
//! floww bank, and everything that touches the audio device, the screen or
//! the file system is handed back as a list of actions for the caller to
//! perform in order.

use vstd::prelude::*;
use vstd::string::*;
use crate::floww::{absorb, notices, texts, FlowwBank, FlowwBankView, FlowwPacket};
use crate::graph::{shifted_time, Graph};

verus! {

/// Seconds that `>skip` and `<prev` move the clock.
pub const SKIP_SECONDS: usize = 5;

/// A verb as the user picks it.
#[derive(Clone, Copy, Debug, PartialEq, Eq, Structural)]
pub enum Verb {
    Quit,
    Refresh,
    Render,
    Normalize,
    Play,
    Pause,
    Stop,
    Skip,
    Prev,
    Seek,
    Get,
    NormVals,
}

/// The verb a word stands for, if any.
pub open spec fn verb_named(word: Seq<char>) -> Option<Verb> {
    if word == "quit"@ {
        Some(Verb::Quit)
    } else if word == "refresh"@ {
        Some(Verb::Refresh)
    } else if word == "render"@ {
        Some(Verb::Render)
    } else if word == "normalize"@ {
        Some(Verb::Normalize)
    } else if word == "play"@ {
        Some(Verb::Play)
    } else if word == "pause"@ {
        Some(Verb::Pause)
    } else if word == "stop"@ {
        Some(Verb::Stop)
    } else if word == ">skip"@ {
        Some(Verb::Skip)
    } else if word == "<prev"@ {
        Some(Verb::Prev)
    } else if word == "norm-vals"@ {
        Some(Verb::NormVals)
    } else if word == "set"@ {
        Some(Verb::Seek)
    } else if word == "get"@ {
        Some(Verb::Get)
    } else {
        None
    }
}

/// Reads a verb.
pub fn parse_verb(word: &str) -> (v: Option<Verb>)
    ensures
        v == verb_named(word@),
{
    let w: String = String::from_str(word);
    if w == String::from_str("quit") {
        Some(Verb::Quit)
    } else if w == String::from_str("refresh") {
        Some(Verb::Refresh)
    } else if w == String::from_str("render") {
        Some(Verb::Render)
    } else if w == String::from_str("normalize") {
        Some(Verb::Normalize)
    } else if w == String::from_str("play") {
        Some(Verb::Play)
    } else if w == String::from_str("pause") {
        Some(Verb::Pause)
    } else if w == String::from_str("stop") {
        Some(Verb::Stop)
    } else if w == String::from_str(">skip") {
        Some(Verb::Skip)
    } else if w == String::from_str("<prev") {
        Some(Verb::Prev)
    } else if w == String::from_str("norm-vals") {
        Some(Verb::NormVals)
    } else if w == String::from_str("set") {
        Some(Verb::Seek)
    } else if w == String::from_str("get") {
        Some(Verb::Get)
    } else {
        None
    }
}

/// A command as the engine receives it.
#[derive(Clone, Copy, Debug, PartialEq, Eq, Structural)]
pub enum Command {
    /// Nothing to do but to acknowledge.
    Idle,
    Quit,
    Refresh,
    Render,
    Normalize,
    Play,
    Pause,
    Stop,
    Skip,
    Prev,
    /// Seek to a frame.
    Seek(usize),
    Get,
    NormVals,
}

/// The command a verb becomes.  `Seek` carries the frame to seek to; without
/// one there is nothing to do.
pub open spec fn command_of(verb: Verb, frame: Option<usize>) -> Command {
    match verb {
        Verb::Quit => Command::Quit,
        Verb::Refresh => Command::Refresh,
        Verb::Render => Command::Render,
        Verb::Normalize => Command::Normalize,
        Verb::Play => Command::Play,
        Verb::Pause => Command::Pause,
        Verb::Stop => Command::Stop,
        Verb::Skip => Command::Skip,
        Verb::Prev => Command::Prev,
        Verb::Seek => match frame {
            Some(t) => Command::Seek(t),
            None => Command::Idle,
        },
        Verb::Get => Command::Get,
        Verb::NormVals => Command::NormVals,
    }
}

/// Turns a verb into a command.
pub fn to_command(verb: Verb, frame: Option<usize>) -> (c: Command)
    ensures
        c == command_of(verb, frame),
{
    match verb {
        Verb::Quit => Command::Quit,
        Verb::Refresh => Command::Refresh,
        Verb::Render => Command::Render,
        Verb::Normalize => Command::Normalize,
        Verb::Play => Command::Play,
        Verb::Pause => Command::Pause,
        Verb::Stop => Command::Stop,
        Verb::Skip => Command::Skip,
        Verb::Prev => Command::Prev,
        Verb::Seek => match frame {
            Some(t) => Command::Seek(t),
            None => Command::Idle,
        },
        Verb::Get => Command::Get,
        Verb::NormVals => Command::NormVals,
    }
}

/// Something for the caller to do.
#[derive(Clone, Copy, Debug, PartialEq, Eq, Structural)]
pub enum Action {
    /// Leave the command loop once the command is dealt with.
    Quit,
    /// Rebuild the project from its description.
    Refresh,
    /// Drop what is queued on the audio device.
    ClearQueue,
    /// Halt the audio device.
    PauseDevice,
    /// Let the audio device run.
    ResumeDevice,
    /// Start counting generated audio from now.
    RestartClock,
    /// Render the project to its output file.
    RenderFile,
    /// Scan the project for its peaks.
    ScanNormalize,
    /// Show the current time.
    ReportTime,
    /// Show the peaks of the normalizers.
    ReportNormValues,
    /// Tell that no project is loaded.
    ReportNotLoaded,
    /// Tell the sender that the command is dealt with.
    Acknowledge,
}

/// Whether a command is carried out only on a loaded project.
pub open spec fn needs_project(cmd: Command) -> bool {
    match cmd {
        Command::Render => true,
        Command::Normalize => true,
        Command::Play => true,
        Command::Pause => true,
        Command::Stop => true,
        Command::Skip => true,
        Command::Prev => true,
        Command::Seek(_) => true,
        Command::Get => true,
        Command::NormVals => true,
        _ => false,
    }
}

/// What is left to the caller for a command, in order.  Without a loaded
/// project every command but `Refresh` and `Quit` is inert: it is only
/// reported.  Every command is acknowledged once, at the end.
pub open spec fn actions_for(cmd: Command, loaded: bool) -> Seq<Action> {
    if needs_project(cmd) && !loaded {
        seq![Action::ReportNotLoaded, Action::Acknowledge]
    } else {
        match cmd {
            Command::Quit => seq![Action::Quit, Action::Acknowledge],
            Command::Refresh => seq![Action::Refresh, Action::ClearQueue, Action::PauseDevice, Action::Acknowledge],
            Command::Render => seq![
                Action::ClearQueue,
                Action::PauseDevice,
                Action::RenderFile,
                Action::Acknowledge,
            ],
            Command::Normalize => seq![
                Action::ClearQueue,
                Action::PauseDevice,
                Action::ScanNormalize,
                Action::Acknowledge,
            ],
            Command::Play => seq![Action::RestartClock, Action::ResumeDevice, Action::Acknowledge],
            Command::Pause => seq![Action::PauseDevice, Action::Acknowledge],
            Command::Stop => seq![Action::PauseDevice, Action::ClearQueue, Action::Acknowledge],
            Command::Skip => seq![Action::ClearQueue, Action::Acknowledge],
            Command::Prev => seq![Action::ClearQueue, Action::Acknowledge],
            Command::Seek(_) => seq![Action::ClearQueue, Action::Acknowledge],
            Command::Get => seq![Action::ReportTime, Action::Acknowledge],
            Command::NormVals => seq![Action::ReportNormValues, Action::Acknowledge],
            _ => seq![Action::Acknowledge],
        }
    }
}

/// Whether the engine plays after a command.
pub open spec fn plays_after(cmd: Command, loaded: bool, playing: bool) -> bool {
    if needs_project(cmd) && !loaded {
        playing
    } else {
        match cmd {
            Command::Refresh => false,
            Command::Render => false,
            Command::Normalize => false,
            Command::Play => true,
            Command::Pause => false,
            Command::Stop => false,
            _ => playing,
        }
    }
}

/// The frame a command seeks to, if it seeks: `Stop` returns to the start,
/// `Skip` and `Prev` move five seconds, `Seek` names its frame.
pub open spec fn seek_target(cmd: Command, loaded: bool, t: usize, samplerate: usize) -> Option<usize> {
    if !loaded {
        None
    } else {
        match cmd {
            Command::Stop => Some(0usize),
            Command::Skip => Some(shifted_time(t, skip_frames(samplerate), true)),
            Command::Prev => Some(shifted_time(t, skip_frames(samplerate), false)),
            Command::Seek(frame) => Some(frame),
            _ => None,
        }
    }
}

/// Five seconds in frames, as far as the range goes.
pub open spec fn skip_frames(samplerate: usize) -> usize {
    if SKIP_SECONDS * samplerate > usize::MAX {
        usize::MAX
    } else {
        (SKIP_SECONDS * samplerate) as usize
    }
}

fn skip_len(samplerate: usize) -> (d: usize)
    ensures
        d == skip_frames(samplerate),
{
    if samplerate > usize::MAX / SKIP_SECONDS {
        usize::MAX
    } else {
        SKIP_SECONDS * samplerate
    }
}

/// What the engine worker keeps between commands.
#[derive(Clone, Copy, Debug, PartialEq, Eq, Structural)]
pub struct Transport {
    /// Whether the engine generates audio for the device.
    pub playing: bool,
}

impl Transport {
    /// The transport of an engine that has just started: it does not play.
    pub fn new() -> (t: Self)
        ensures
            t == (Transport { playing: false }),
    {
        Transport { playing: false }
    }

    /// Carries out a command as far as the graph and the floww bank go, and
    /// returns what is left to the caller.  `loaded` tells whether a project
    /// is loaded.
    ///
    /// A command that seeks moves the graph and the floww bank to the same
    /// frame; every other command leaves both as they are.
    pub fn handle(&mut self, cmd: Command, loaded: bool, g: &mut Graph, fb: &mut FlowwBank, samplerate: usize) -> (actions:
        Vec<Action>)
        requires
            old(g).wf(),
            old(fb).wf(),
        ensures
            final(g).wf(),
            final(fb).wf(),
            actions@ == actions_for(cmd, loaded),
            final(self).playing == plays_after(cmd, loaded, old(self).playing),
            match seek_target(cmd, loaded, old(g)@.t, samplerate) {
                Some(frame) => final(g)@ == old(g)@.set_time(frame) && final(fb)@ == old(fb)@.set_time(frame),
                None => final(g)@ == old(g)@ && final(fb)@ == old(fb)@,
            },
    {
        let mut actions: Vec<Action> = Vec::new();
        match cmd {
            Command::Quit => {
                actions.push(Action::Quit);
            },
            Command::Refresh => {
                self.playing = false;
                actions.push(Action::Refresh);
                actions.push(Action::ClearQueue);
                actions.push(Action::PauseDevice);
            },
            Command::Render => {
                if loaded {
                    actions.push(Action::ClearQueue);
                    actions.push(Action::PauseDevice);
                    self.playing = false;
                    actions.push(Action::RenderFile);
                } else {
                    actions.push(Action::ReportNotLoaded);
                }
            },
            Command::Normalize => {
                if loaded {
                    actions.push(Action::ClearQueue);
                    actions.push(Action::PauseDevice);
                    self.playing = false;
                    actions.push(Action::ScanNormalize);
                } else {
                    actions.push(Action::ReportNotLoaded);
                }
            },
            Command::Play => {
                if loaded {
                    self.playing = true;
                    actions.push(Action::RestartClock);
                    actions.push(Action::ResumeDevice);
                } else {
                    actions.push(Action::ReportNotLoaded);
                }
            },
            Command::Pause => {
                if loaded {
                    self.playing = false;
                    actions.push(Action::PauseDevice);
                } else {
                    actions.push(Action::ReportNotLoaded);
                }
            },
            Command::Stop => {
                if loaded {
                    self.playing = false;
                    actions.push(Action::PauseDevice);
                    actions.push(Action::ClearQueue);
                    g.set_time(0);
                    fb.set_time(0);
                } else {
                    actions.push(Action::ReportNotLoaded);
                }
            },
            Command::Skip => {
                if loaded {
                    actions.push(Action::ClearQueue);
                    let time: usize = g.change_time(skip_len(samplerate), true);
                    fb.set_time(time);
                } else {
                    actions.push(Action::ReportNotLoaded);
                }
            },
            Command::Prev => {
                if loaded {
                    actions.push(Action::ClearQueue);
                    let time: usize = g.change_time(skip_len(samplerate), false);
                    fb.set_time(time);
                } else {
                    actions.push(Action::ReportNotLoaded);
                }
            },
            Command::Seek(time) => {
                if loaded {
                    actions.push(Action::ClearQueue);
                    g.set_time(time);
                    fb.set_time(time);
                } else {
                    actions.push(Action::ReportNotLoaded);
                }
            },
            Command::Get => {
                if loaded {
                    actions.push(Action::ReportTime);
                } else {
                    actions.push(Action::ReportNotLoaded);
                }
            },
            Command::NormVals => {
                if loaded {
                    actions.push(Action::ReportNormValues);
                } else {
                    actions.push(Action::ReportNotLoaded);
                }
            },
            Command::Idle => {},
        }
        actions.push(Action::Acknowledge);
        assert(actions@ =~= actions_for(cmd, loaded));
        actions
    }

    /// Whether to generate audio now: only while playing, and playing ends
    /// when the project is gone.
    pub fn keep_playing(&mut self, loaded: bool) -> (go: bool)
        ensures
            go == (old(self).playing && loaded),
            final(self).playing == go,
    {
        if self.playing && !loaded {
            self.playing = false;
        }
        self.playing
    }
}

/// Takes in a batch of live events: the streams are trimmed, the events
/// appended, and the cursors found anew for the graph's time.  Without a
/// loaded project nothing happens and nothing is returned.
pub fn feed(loaded: bool, packets: Vec<FlowwPacket>, g: &Graph, fb: &mut FlowwBank) -> (messages: Option<Vec<String>>)
    requires
        old(fb).wf(),
    ensures
        final(fb).wf(),
        messages is Some == loaded,
        !loaded ==> final(fb)@ == old(fb)@,
        loaded ==> final(fb)@ == fed(old(fb)@, packets@, g@.t) && texts(messages->0@) == notices(packets@),
{
    if !loaded {
        return None;
    }
    fb.trim_streams();
    let msgs: Vec<String> = fb.append_streams(packets);
    let t: usize = g.get_time();
    fb.set_time(t);
    Some(msgs)
}

/// The floww bank after a batch of live events was taken in at time `t`.
pub open spec fn fed(bank: FlowwBankView, packets: Seq<FlowwPacket>, t: usize) -> FlowwBankView {
    let trimmed = FlowwBankView {
        flowws: bank.trimmed_flowws(),
        cursors: bank.trimmed_cursors(),
        ..bank
    };
    let grown = FlowwBankView {
        flowws: absorb(trimmed.flowws, trimmed.names, packets, Some(0usize)),
        ..trimmed
    };
    grown.set_time(t)
}

/// Every command is acknowledged exactly once, as the last of its actions.
pub proof fn lemma_one_acknowledge(cmd: Command, loaded: bool)
    ensures
        actions_for(cmd, loaded).len() > 0,
        actions_for(cmd, loaded).last() == Action::Acknowledge,
        forall|i: int|
            0 <= i < actions_for(cmd, loaded).len() - 1 ==> #[trigger] actions_for(cmd, loaded)[i]
                != Action::Acknowledge,
{
}

/// Without a loaded project every command but `Refresh` and `Quit` is inert:
/// nothing is asked of the caller but to report and to acknowledge, the
/// engine plays or rests as before, and nothing is sought.
pub proof fn lemma_inert_without_project(cmd: Command, playing: bool, t: usize, samplerate: usize)
    requires
        cmd != Command::Refresh,
        cmd != Command::Quit,
    ensures
        forall|i: int|
            0 <= i < actions_for(cmd, false).len() ==> {
                ||| #[trigger] actions_for(cmd, false)[i] == Action::ReportNotLoaded
                ||| actions_for(cmd, false)[i] == Action::Acknowledge
            },
        plays_after(cmd, false, playing) == playing,
        seek_target(cmd, false, t, samplerate) is None,
{
}

} // verus!
