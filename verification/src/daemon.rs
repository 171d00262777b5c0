//! The daemon's worker: how commands switch recording, what becomes of a recording, and how a
//! transcript is delivered.

use vstd::prelude::*;

use crate::config::Config;
use crate::ipc::{DaemonHandle, DaemonState, IpcMessage, Timestamp};
use crate::text::to_decimal;
use crate::text_middleware::try_clean_text;

verus! {

/// Commands from the IPC handler to the daemon's worker.
#[derive(Debug, Clone, Copy, PartialEq, Eq)]
pub enum DaemonCmd {
    Start,
    Stop,
}

/// What the worker does about a command.
#[derive(Debug, Clone, Copy, PartialEq, Eq)]
pub enum WorkerAction {
    /// Start to capture audio.
    StartCapture,
    /// Give itself the command to stop: a start while recording is a toggle.
    RequestStop,
    /// Stop to capture audio, and transcribe what was captured.
    StopCapture,
    /// Nothing: it is not recording.
    Ignore,
}

/// What a command leads to, and whether the worker records behind it.
pub open spec fn obeyed(recording: bool, cmd: DaemonCmd) -> (WorkerAction, bool) {
    match cmd {
        DaemonCmd::Start => if recording {
            (WorkerAction::RequestStop, true)
        } else {
            (WorkerAction::StartCapture, true)
        },
        DaemonCmd::Stop => if recording {
            (WorkerAction::StopCapture, false)
        } else {
            (WorkerAction::Ignore, false)
        },
    }
}

/// The daemon's worker.
pub struct Worker {
    recording: bool,
}

impl Worker {
    /// Whether it records.
    pub closed spec fn records(&self) -> bool {
        self.recording
    }

    /// A worker that does not record.
    pub fn new() -> (worker: Worker)
        ensures
            !worker.records(),
    {
        Worker { recording: false }
    }

    /// Takes in a command.
    pub fn on_cmd(&mut self, cmd: DaemonCmd) -> (action: WorkerAction)
        ensures
            (action, final(self).records()) == obeyed(old(self).records(), cmd),
            action == WorkerAction::StartCapture <==> cmd == DaemonCmd::Start && !old(
                self,
            ).records(),
            action == WorkerAction::RequestStop <==> cmd == DaemonCmd::Start && old(
                self,
            ).records(),
            action == WorkerAction::StopCapture <==> cmd == DaemonCmd::Stop && old(self).records(),
            final(self).records() <==> cmd == DaemonCmd::Start,
    {
        match cmd {
            DaemonCmd::Start => {
                if self.recording {
                    WorkerAction::RequestStop
                } else {
                    self.recording = true;
                    WorkerAction::StartCapture
                }
            },
            DaemonCmd::Stop => {
                if self.recording {
                    self.recording = false;
                    WorkerAction::StopCapture
                } else {
                    WorkerAction::Ignore
                }
            },
        }
    }
}

/// The state that an action of the worker leads to by itself: it records as soon as the capture has
/// started. What a stop leads to, the captured audio decides: see [`state_after_capture`].
pub fn state_after_action(action: WorkerAction) -> (state: Option<DaemonState>)
    ensures
        match state {
            Some(state) => action == WorkerAction::StartCapture && state@
                == crate::ipc::StateModel::Recording,
            None => action != WorkerAction::StartCapture,
        },
{
    match action {
        WorkerAction::StartCapture => Some(DaemonState::Recording),
        WorkerAction::RequestStop => None,
        WorkerAction::StopCapture => None,
        WorkerAction::Ignore => None,
    }
}

/// The state behind a recording of so many samples: without any, an error; else it is transcribed.
pub fn state_after_capture(samples: usize) -> (state: DaemonState)
    ensures
        state@ == (if samples == 0 {
            crate::ipc::StateModel::Error("no audio captured"@)
        } else {
            crate::ipc::StateModel::Transcribing
        }),
{
    if samples == 0 {
        DaemonState::Error("no audio captured".to_string())
    } else {
        DaemonState::Transcribing
    }
}

/// What comes of a transcription: a text to deliver, or the state that tells why there is none.
pub fn after_transcription(result: Result<String, String>) -> (outcome: Result<String, DaemonState>)
    ensures
        match result {
            Ok(text) => if text@.len() > 0 {
                outcome matches Ok(same) && same@ == text@
            } else {
                outcome matches Err(state) && state@ == crate::ipc::StateModel::Error(
                    "no speech detected"@,
                )
            },
            Err(reason) => outcome matches Err(state) && state@ == crate::ipc::StateModel::Error(
                reason@,
            ),
        },
{
    match result {
        Ok(text) => if text.as_str().is_empty() {
            Err(DaemonState::Error("no speech detected".to_string()))
        } else {
            Ok(text)
        },
        Err(reason) => Err(DaemonState::Error(reason)),
    }
}

/// A way to type a text.
#[derive(Debug, Clone, Copy, PartialEq, Eq)]
pub enum TypingRoute {
    /// The daemon's own virtual keyboard.
    Native,
    /// The program `wtype`.
    Wtype,
    /// The `enigo` library.
    Enigo,
}

/// The way to type a text with first: the native one, if it could be set up.
pub fn first_route(native_ready: bool) -> (route: TypingRoute)
    ensures
        route == (if native_ready {
            TypingRoute::Native
        } else {
            TypingRoute::Wtype
        }),
{
    if native_ready {
        TypingRoute::Native
    } else {
        TypingRoute::Wtype
    }
}

/// The way to fall back on when a way to type has failed.
pub open spec fn fallback(route: TypingRoute) -> Option<TypingRoute> {
    match route {
        TypingRoute::Native => Some(TypingRoute::Wtype),
        TypingRoute::Wtype => Some(TypingRoute::Enigo),
        TypingRoute::Enigo => None,
    }
}

/// The way to type with next, if the last one has failed and another is left.
pub fn next_route(route: TypingRoute, succeeded: bool) -> (next: Option<TypingRoute>)
    ensures
        next == (if succeeded {
            None
        } else {
            fallback(route)
        }),
{
    if succeeded {
        return None;
    }
    match route {
        TypingRoute::Native => Some(TypingRoute::Wtype),
        TypingRoute::Wtype => Some(TypingRoute::Enigo),
        TypingRoute::Enigo => None,
    }
}

/// How the clipboard program fared.
#[derive(Debug, Clone, Copy, PartialEq, Eq)]
pub enum CopyOutcome {
    /// It could not be started.
    NotStarted,
    /// It was started, and the text could not be handed to it or its end not be awaited.
    Broken,
    /// It came to its end.
    Exited { success: bool },
}

/// What to do behind it.
#[derive(Debug, Clone, Copy, PartialEq, Eq)]
pub enum CopyStep {
    /// The text is in the clipboard.
    Done,
    /// Report the error.
    Fail,
    /// Write the clipboard by the `arboard` library.
    UseLibrary,
}

/// What to do behind an attempt to copy a text with the clipboard program.
pub fn after_copy(outcome: CopyOutcome) -> (step: CopyStep)
    ensures
        step == CopyStep::Done <==> outcome == (CopyOutcome::Exited { success: true }),
        step == CopyStep::Fail <==> outcome == CopyOutcome::Broken,
{
    match outcome {
        CopyOutcome::NotStarted => CopyStep::UseLibrary,
        CopyOutcome::Broken => CopyStep::Fail,
        CopyOutcome::Exited { success } => if success {
            CopyStep::Done
        } else {
            CopyStep::UseLibrary
        },
    }
}

/// The line in the daemon's log on a transcript: its text, or only its length in bytes.
pub open spec fn log_text(text: Seq<char>, log_transcript: bool) -> Seq<char> {
    if log_transcript {
        "[lds] transcript: \""@ + text + "\""@
    } else {
        "[lds] transcript: "@ + crate::text::decimal(
            (vstd::utf8::encode_utf8(text).len() as usize) as nat,
        ) + " chars"@
    }
}

/// The line in the daemon's log on a transcript.
pub fn log_line(text: &str, log_transcript: bool) -> (line: String)
    ensures
        line@ == log_text(text@, log_transcript),
{
    if log_transcript {
        let mut line: String = "[lds] transcript: \"".to_string();
        line.append(text);
        line.append("\"");
        line
    } else {
        let mut line: String = "[lds] transcript: ".to_string();
        line.append(to_decimal(text.len() as u64).as_str());
        line.append(" chars");
        line
    }
}

/// A transcript that is ready to be delivered: saved, put into the clipboard, and typed if that is
/// wanted.
#[derive(Debug)]
pub struct Delivery {
    /// The text.
    pub text: String,
    /// The line for the daemon's log.
    pub log_line: String,
    /// Whether it is typed.
    pub auto_type: bool,
}

/// What comes of a cleaned transcript: nothing where no text is left, else its delivery.
pub fn plan_delivery(text: String, cfg: &Config) -> (delivery: Option<Delivery>)
    ensures
        match delivery {
            Some(delivery) => {
                &&& text@.len() > 0
                &&& delivery.text@ == text@
                &&& delivery.log_line@ == log_text(text@, cfg.log_transcript)
                &&& delivery.auto_type == cfg.auto_type
            },
            None => text@.len() == 0,
        },
{
    if text.as_str().is_empty() {
        return None;
    }
    let line: String = log_line(text.as_str(), cfg.log_transcript);
    Some(Delivery { text, log_line: line, auto_type: cfg.auto_type })
}

/// A step of a delivery.
#[derive(Debug, Clone, Copy, PartialEq, Eq)]
pub enum DeliveryStep {
    /// Save the text to the transcript log.
    Save,
    /// Write it to the clipboard.
    Copy,
    /// Type it.
    Type,
    /// Tell all clients of it.
    Announce,
}

/// The step of a delivery behind `step`, whatever came of that one.
pub open spec fn step_behind(step: DeliveryStep, auto_type: bool) -> Option<DeliveryStep> {
    match step {
        DeliveryStep::Save => Some(DeliveryStep::Copy),
        DeliveryStep::Copy => if auto_type {
            Some(DeliveryStep::Type)
        } else {
            Some(DeliveryStep::Announce)
        },
        DeliveryStep::Type => Some(DeliveryStep::Announce),
        DeliveryStep::Announce => None,
    }
}

impl Delivery {
    /// The first step of the delivery.
    pub fn first_step(&self) -> (step: DeliveryStep)
        ensures
            step == DeliveryStep::Save,
    {
        DeliveryStep::Save
    }

    /// The step behind another one. A step that failed skips none of the later ones, so nothing is
    /// asked of what came of it.
    pub fn next_step(&self, step: DeliveryStep) -> (next: Option<DeliveryStep>)
        ensures
            next == step_behind(step, self.auto_type),
    {
        match step {
            DeliveryStep::Save => Some(DeliveryStep::Copy),
            DeliveryStep::Copy => if self.auto_type {
                Some(DeliveryStep::Type)
            } else {
                Some(DeliveryStep::Announce)
            },
            DeliveryStep::Type => Some(DeliveryStep::Announce),
            DeliveryStep::Announce => None,
        }
    }
}

/// Why there is nothing to deliver.
#[derive(Debug, Clone, Copy, PartialEq, Eq)]
pub enum Undelivered {
    /// A search of the text middleware gave up.
    Unclean,
    /// No text is left of the transcript.
    NoSpeech,
}

/// Cleans a raw transcript and plans its delivery.
pub fn prepare_delivery(raw: &str, cfg: &Config) -> (result: Result<Delivery, Undelivered>)
    ensures
        match result {
            Ok(delivery) => {
                &&& crate::text_middleware::cleaned(raw@) == Some(delivery.text@)
                &&& delivery.text@.len() > 0
                &&& delivery.log_line@ == log_text(delivery.text@, cfg.log_transcript)
                &&& delivery.auto_type == cfg.auto_type
                &&& crate::text_middleware::presentable(delivery.text@)
                &&& !crate::text_middleware::no_speech(delivery.text@)
            },
            Err(Undelivered::Unclean) => crate::text_middleware::cleaned(raw@) is None,
            Err(Undelivered::NoSpeech) => crate::text_middleware::cleaned(raw@) matches Some(text)
                && text.len() == 0,
        },
{
    match try_clean_text(raw) {
        Some(text) => match plan_delivery(text, cfg) {
            Some(delivery) => Ok(delivery),
            None => Err(Undelivered::NoSpeech),
        },
        None => Err(Undelivered::Unclean),
    }
}

/// Notes that a transcript leaves nothing to deliver, and returns the message that tells all
/// clients so.
pub fn announce_no_speech(handle: &mut DaemonHandle, now: Timestamp) -> (message: IpcMessage)
    ensures
        final(handle).state@ == crate::ipc::StateModel::Error("no speech detected"@),
        message@ == crate::ipc::state_event(final(handle).state@, now),
{
    handle.set_state(DaemonState::Error("no speech detected".to_string()), now)
}

/// Notes that a transcript has been delivered, and returns the messages that tell all clients of
/// it: the text, then the state.
pub fn announce_delivery(handle: &mut DaemonHandle, text: &str, now: Timestamp) -> (messages: Vec<
    IpcMessage,
>)
    ensures
        final(handle).state@ == crate::ipc::StateModel::ClipboardWritten,
        crate::ipc::models(messages@) == seq![
            crate::ipc::final_transcript(text@, now),
            crate::ipc::state_event(crate::ipc::StateModel::ClipboardWritten, now),
        ],
{
    let mut messages: Vec<IpcMessage> = Vec::new();
    messages.push(handle.announce_transcript(text.to_string(), now));
    messages.push(handle.set_state(DaemonState::ClipboardWritten, now));
    assert(crate::ipc::models(messages@) =~= seq![
        crate::ipc::final_transcript(text@, now),
        crate::ipc::state_event(crate::ipc::StateModel::ClipboardWritten, now),
    ]);
    messages
}

/// Whether audio is captured behind an action of the worker.
pub open spec fn captures(captured: bool, action: WorkerAction) -> bool {
    match action {
        WorkerAction::StartCapture => true,
        WorkerAction::StopCapture => false,
        _ => captured,
    }
}

/// The worker records if and only if audio is captured, whatever commands come: no command starts a
/// capture that runs, or stops one that does not.
pub proof fn law_recording_follows_the_capture(recording: bool, captured: bool, cmd: DaemonCmd)
    requires
        recording == captured,
    ensures
        ({
            let (action, records) = obeyed(recording, cmd);
            &&& records == captures(captured, action)
            &&& action == WorkerAction::StartCapture ==> !captured
            &&& action == WorkerAction::StopCapture ==> captured
        }),
{
}

/// A start toggles: the first one starts to record, and the next, with the stop that the worker
/// then gives itself, ends the recording.
pub proof fn law_start_toggles(recording: bool)
    ensures
        ({
            let (first, on) = obeyed(recording, DaemonCmd::Start);
            let (second, still_on) = obeyed(on, DaemonCmd::Start);
            let (third, off) = obeyed(still_on, DaemonCmd::Stop);
            &&& on && still_on && !off
            &&& first == WorkerAction::StartCapture <==> !recording
            &&& second == WorkerAction::RequestStop
            &&& third == WorkerAction::StopCapture
        }),
{
}

/// A transcript that is not to be logged leaves no more in the log than its length: two texts of
/// the same length in bytes leave the same line.
pub proof fn law_log_keeps_private(a: Seq<char>, b: Seq<char>)
    requires
        vstd::utf8::encode_utf8(a).len() == vstd::utf8::encode_utf8(b).len(),
    ensures
        log_text(a, false) == log_text(b, false),
{
}

/// How many ways to type are left behind one.
pub open spec fn routes_left(route: TypingRoute) -> nat {
    match route {
        TypingRoute::Native => 2,
        TypingRoute::Wtype => 1,
        TypingRoute::Enigo => 0,
    }
}

/// Every way to type is tried at most once, and all that are left are tried before typing is given
/// up.
pub proof fn law_typing_falls_back_to_the_end(route: TypingRoute)
    ensures
        match fallback(route) {
            Some(next) => routes_left(next) + 1 == routes_left(route),
            None => routes_left(route) == 0,
        },
{
}

/// How many steps are left of a delivery behind `step`, at most.
pub open spec fn steps_left(step: DeliveryStep) -> nat {
    match step {
        DeliveryStep::Save => 3,
        DeliveryStep::Copy => 2,
        DeliveryStep::Type => 1,
        DeliveryStep::Announce => 0,
    }
}

/// The steps of a delivery from `step` on.
pub open spec fn steps_from(step: DeliveryStep, auto_type: bool) -> Seq<DeliveryStep>
    decreases steps_left(step),
{
    match step_behind(step, auto_type) {
        Some(next) => seq![step] + steps_from(next, auto_type),
        None => seq![step],
    }
}

/// A transcript is saved, then written to the clipboard, then typed if that is wanted, and announced
/// last; no step is left out, whatever comes of the others.
pub proof fn law_delivery_goes_to_the_end(auto_type: bool)
    ensures
        steps_from(DeliveryStep::Save, auto_type) == if auto_type {
            seq![
                DeliveryStep::Save,
                DeliveryStep::Copy,
                DeliveryStep::Type,
                DeliveryStep::Announce,
            ]
        } else {
            seq![DeliveryStep::Save, DeliveryStep::Copy, DeliveryStep::Announce]
        },
{
    reveal_with_fuel(steps_from, 4);
    assert(steps_from(DeliveryStep::Save, auto_type) =~= if auto_type {
        seq![DeliveryStep::Save, DeliveryStep::Copy, DeliveryStep::Type, DeliveryStep::Announce]
    } else {
        seq![DeliveryStep::Save, DeliveryStep::Copy, DeliveryStep::Announce]
    });
}

/// What each command does, recording or not: a start starts a capture, or asks for a stop while one
/// runs; a stop stops it, or does nothing where none runs.
pub proof fn law_commands_do_what_they_say(cmd: DaemonCmd)
    ensures
        obeyed(false, DaemonCmd::Start) == (WorkerAction::StartCapture, true),
        obeyed(true, DaemonCmd::Start) == (WorkerAction::RequestStop, true),
        obeyed(true, DaemonCmd::Stop) == (WorkerAction::StopCapture, false),
        obeyed(false, DaemonCmd::Stop) == (WorkerAction::Ignore, false),
        obeyed(obeyed(true, cmd).1, DaemonCmd::Stop).1 == false,
{
}

/// Where transcripts are logged, the line holds the whole text, and different texts leave different
/// lines; where they are not, it holds the number of bytes.
pub proof fn law_log_shows_text_or_length(a: Seq<char>, b: Seq<char>)
    ensures
        log_text(a, true) == "[lds] transcript: \""@ + a + "\""@,
        a != b ==> log_text(a, true) != log_text(b, true),
        vstd::utf8::encode_utf8(a).len() <= u32::MAX ==> log_text(a, false) == "[lds] transcript: "@
            + crate::text::decimal(vstd::utf8::encode_utf8(a).len()) + " chars"@,
{
    let before = "[lds] transcript: \""@;
    let after = "\""@;
    if a != b && before + a + after == before + b + after {
        assert((before + a + after).len() == (before + b + after).len());
        assert((before + a + after).subrange(before.len() as int, (before.len() + a.len()) as int)
            =~= a);
        assert((before + b + after).subrange(before.len() as int, (before.len() + b.len()) as int)
            =~= b);
    }
}

/// Each step of a delivery has one step behind it, and the announcement none; only behind the
/// clipboard does it matter whether the text is to be typed.
pub proof fn law_steps_follow_each_other(auto_type: bool)
    ensures
        step_behind(DeliveryStep::Save, auto_type) == Some(DeliveryStep::Copy),
        step_behind(DeliveryStep::Copy, true) == Some(DeliveryStep::Type),
        step_behind(DeliveryStep::Copy, false) == Some(DeliveryStep::Announce),
        step_behind(DeliveryStep::Type, auto_type) == Some(DeliveryStep::Announce),
        step_behind(DeliveryStep::Announce, auto_type) is None,
{
}

} // verus!
