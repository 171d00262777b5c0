//! Streaming transcription: when an utterance begins and ends, what audio belongs to it, and what
//! text comes of it.

use vstd::prelude::*;

use crate::config::Config;
use crate::ipc::{DaemonHandle, DaemonState, IpcMessage, Payload, Timestamp};
use crate::text::trim;
use crate::vad::VadResult;

verus! {

/// The most audio of one utterance that is kept, in samples: two minutes.
pub const MAX_BUFFER_SAMPLES: usize = 1_920_000;

/// The settings of the streaming mode.
#[derive(Debug)]
pub struct StreamingConfig {
    /// The time between two looks at the audio, in milliseconds.
    pub chunk_interval_ms: u64,
    /// Whether clients learn of partial transcripts.
    pub partial_results: bool,
    /// Language hint for whisper.
    pub language: String,
    /// Initial prompt for whisper.
    pub initial_prompt: String,
    /// The least audio to look for speech in, in samples.
    pub min_audio_for_vad: usize,
    /// How many chunks of silence end an utterance.
    pub silence_chunks_to_finalize: usize,
    /// The least audio before the first transcription pass, in milliseconds.
    pub min_audio_ms: u64,
}

impl Clone for StreamingConfig {
    fn clone(&self) -> (copy: StreamingConfig)
        ensures
            copy == *self,
    {
        StreamingConfig {
            chunk_interval_ms: self.chunk_interval_ms,
            partial_results: self.partial_results,
            language: self.language.clone(),
            initial_prompt: self.initial_prompt.clone(),
            min_audio_for_vad: self.min_audio_for_vad,
            silence_chunks_to_finalize: self.silence_chunks_to_finalize,
            min_audio_ms: self.min_audio_ms,
        }
    }
}

impl From<&Config> for StreamingConfig {
    fn from(cfg: &Config) -> (result: StreamingConfig) {
        StreamingConfig {
            chunk_interval_ms: cfg.chunk_interval_ms,
            partial_results: cfg.partial_results,
            language: cfg.language.clone(),
            initial_prompt: cfg.initial_prompt.clone(),
            min_audio_for_vad: 16000,
            silence_chunks_to_finalize: 3,
            min_audio_ms: cfg.min_audio_ms,
        }
    }
}

impl vstd::std_specs::convert::FromSpecImpl<&Config> for StreamingConfig {
    open spec fn obeys_from_spec() -> bool {
        true
    }

    open spec fn from_spec(cfg: &Config) -> StreamingConfig {
        StreamingConfig {
            chunk_interval_ms: cfg.chunk_interval_ms,
            partial_results: cfg.partial_results,
            language: cfg.language,
            initial_prompt: cfg.initial_prompt,
            min_audio_for_vad: 16000,
            silence_chunks_to_finalize: 3,
            min_audio_ms: cfg.min_audio_ms,
        }
    }
}

/// What to do behind a look at the audio.
#[derive(Debug, Clone, Copy, PartialEq, Eq)]
pub enum Step {
    /// Wait for more audio.
    Wait,
    /// Look for speech in [`StreamingCoordinator::vad_audio`].
    Detect,
    /// Transcribe [`StreamingCoordinator::utterance`].
    Transcribe,
}

/// Streaming transcription coordinator, for samples of type `T`.
pub struct StreamingCoordinator<T> {
    config: StreamingConfig,
    speech_buffer: Vec<T>,
    new_samples: Vec<T>,
    silence_count: usize,
    in_utterance: bool,
    transcribed: bool,
    final_text: String,
    utterance_text: String,
}

/// The state of a coordinator.
pub struct StreamingModel<T> {
    /// The audio of the utterance under way.
    pub speech: Seq<T>,
    /// The audio that came since the last look.
    pub fresh: Seq<T>,
    /// How many chunks of silence have come in a row.
    pub silence: nat,
    /// Whether an utterance is under way.
    pub in_utterance: bool,
    /// Whether a transcription pass has been made.
    pub transcribed: bool,
    /// The text of the utterances so far.
    pub text: Seq<char>,
    /// The text that partial transcripts are shown behind.
    pub shown: Seq<char>,
}

/// The state in which nothing has been heard, and `shown` has been shown in earlier runs.
pub open spec fn waiting<T>(shown: Seq<char>) -> StreamingModel<T> {
    StreamingModel {
        speech: Seq::<T>::empty(),
        fresh: Seq::<T>::empty(),
        silence: 0,
        in_utterance: false,
        transcribed: false,
        text: Seq::empty(),
        shown,
    }
}

/// The last `limit` elements of `s`, or all of them.
pub open spec fn latest<T>(s: Seq<T>, limit: int) -> Seq<T> {
    if s.len() > limit {
        s.skip(s.len() - limit)
    } else {
        s
    }
}

/// The state with some new audio: behind the utterance under way, of which the latest part is
/// kept, or by itself.
pub open spec fn with_audio<T>(m: StreamingModel<T>, audio: Seq<T>) -> StreamingModel<T> {
    if m.in_utterance {
        StreamingModel {
            speech: latest(m.speech + audio, MAX_BUFFER_SAMPLES as int),
            fresh: Seq::empty(),
            ..m
        }
    } else {
        StreamingModel { fresh: audio, ..m }
    }
}

/// The audio to look for speech in.
pub open spec fn audible<T>(m: StreamingModel<T>) -> Seq<T> {
    if m.in_utterance {
        m.speech
    } else {
        m.fresh
    }
}

/// The chunk of silence behind `silence` others is the last that an utterance waits for.
pub open spec fn silent_enough(silence: nat, limit: nat) -> bool {
    silence + 1 >= limit
}

/// So many samples are `ms` milliseconds of audio at least, or all that is kept.
pub open spec fn long_enough(samples: nat, ms: u64) -> bool {
    samples >= 16 * ms || samples >= MAX_BUFFER_SAMPLES
}

/// A chunk of silence ends the utterance under way: it has been silent for long enough, and the
/// first transcription pass has the audio that it needs.
pub open spec fn ends_utterance<T>(m: StreamingModel<T>, limit: nat, min_audio_ms: u64) -> bool {
    &&& m.in_utterance
    &&& silent_enough(m.silence, limit)
    &&& m.transcribed || long_enough(m.speech.len(), min_audio_ms)
}

/// The state behind a look for speech: speech begins an utterance or goes on with it; silence in
/// an utterance counts.
pub open spec fn with_detection<T>(m: StreamingModel<T>, has_speech: bool, limit: nat) ->
    StreamingModel<T> {
    if has_speech {
        if m.in_utterance {
            StreamingModel { silence: 0, ..m }
        } else {
            StreamingModel {
                speech: m.speech + m.fresh,
                fresh: Seq::empty(),
                silence: 0,
                in_utterance: true,
                ..m
            }
        }
    } else if m.in_utterance && !silent_enough(m.silence, limit) {
        StreamingModel { silence: m.silence + 1, ..m }
    } else {
        m
    }
}

/// `text` with `more` and a space behind it, or as it is where there is nothing more.
pub open spec fn with_text(text: Seq<char>, more: Seq<char>) -> Seq<char> {
    if more.len() > 0 {
        (text + more).push(' ')
    } else {
        text
    }
}

/// The state behind an utterance whose text is `text`.
pub open spec fn without_utterance<T>(m: StreamingModel<T>, text: Seq<char>) -> StreamingModel<T> {
    StreamingModel {
        speech: Seq::empty(),
        silence: 0,
        in_utterance: false,
        transcribed: true,
        text: with_text(m.text, text),
        ..m
    }
}

/// The messages on a transcribed stretch of audio: the text, and the state with all text so far.
pub open spec fn partial_messages(
    shown: Seq<char>,
    text: Seq<char>,
    wanted: bool,
    now: Timestamp,
) -> Seq<crate::ipc::MessageModel> {
    if wanted && text.len() > 0 {
        seq![
            crate::ipc::event(
                "partial_transcript"@,
                crate::ipc::PayloadModel::Transcript { text, is_final: false },
                now,
            ),
            crate::ipc::state_event(
                crate::ipc::StateModel::Streaming { partial_text: shown + text },
                now,
            ),
        ]
    } else {
        Seq::empty()
    }
}

/// The text of a transcription pass: one that failed gives none.
pub open spec fn pass_text(result: Result<String, String>) -> Seq<char> {
    match result {
        Ok(text) => text@,
        Err(_) => Seq::empty(),
    }
}

impl<T> View for StreamingCoordinator<T> {
    type V = StreamingModel<T>;

    closed spec fn view(&self) -> StreamingModel<T> {
        StreamingModel {
            speech: self.speech_buffer@,
            fresh: self.new_samples@,
            silence: self.silence_count as nat,
            in_utterance: self.in_utterance,
            transcribed: self.transcribed,
            text: self.final_text@,
            shown: self.utterance_text@,
        }
    }
}

impl<T> StreamingCoordinator<T> {
    /// The settings.
    pub closed spec fn settings(&self) -> StreamingConfig {
        self.config
    }

    /// A coordinator that waits for speech.
    pub fn new(config: StreamingConfig) -> (coordinator: StreamingCoordinator<T>)
        ensures
            coordinator.settings() == config,
            coordinator@ == waiting::<T>(Seq::empty()),
    {
        StreamingCoordinator {
            config,
            speech_buffer: Vec::new(),
            new_samples: Vec::new(),
            silence_count: 0,
            in_utterance: false,
            transcribed: false,
            final_text: String::new(),
            utterance_text: String::new(),
        }
    }

    /// Begins a run: forgets the audio and text of an earlier one, but for what clients have been
    /// shown.
    pub fn begin(&mut self, handle: &mut DaemonHandle, now: Timestamp) -> (message: IpcMessage)
        ensures
            final(self).settings() == old(self).settings(),
            final(self)@ == waiting::<T>(old(self)@.shown),
            final(handle).state@ == (crate::ipc::StateModel::Streaming {
                partial_text: Seq::empty(),
            }),
            message@ == crate::ipc::state_event(final(handle).state@, now),
    {
        self.speech_buffer = Vec::new();
        self.new_samples = Vec::new();
        self.silence_count = 0;
        self.in_utterance = false;
        self.transcribed = false;
        self.final_text = String::new();
        handle.set_state(DaemonState::Streaming { partial_text: String::new() }, now)
    }

    /// Takes in the audio that has come since the last look. There is enough of it to look for
    /// speech, or not yet.
    pub fn hear(&mut self, samples: Vec<T>) -> (step: Step)
        ensures
            final(self).settings() == old(self).settings(),
            final(self)@ == with_audio(old(self)@, samples@),
            step == (if audible(final(self)@).len() < old(self).settings().min_audio_for_vad {
                Step::Wait
            } else {
                Step::Detect
            }),
    {
        let mut samples: Vec<T> = samples;
        let ghost audio = samples@;
        if self.in_utterance {
            let ghost all = self.speech_buffer@ + audio;
            self.speech_buffer.append(&mut samples);
            self.new_samples = Vec::new();
            if self.speech_buffer.len() > MAX_BUFFER_SAMPLES {
                let excess: usize = self.speech_buffer.len() - MAX_BUFFER_SAMPLES;
                let kept: Vec<T> = self.speech_buffer.split_off(excess);
                assert(kept@ =~= all.skip(excess as int));
                self.speech_buffer = kept;
            }
            if self.speech_buffer.len() < self.config.min_audio_for_vad {
                Step::Wait
            } else {
                Step::Detect
            }
        } else {
            self.new_samples = samples;
            if self.new_samples.len() < self.config.min_audio_for_vad {
                Step::Wait
            } else {
                Step::Detect
            }
        }
    }

    /// The audio to look for speech in.
    pub fn vad_audio(&self) -> (audio: &Vec<T>)
        ensures
            audio@ == audible(self@),
    {
        if self.in_utterance {
            &self.speech_buffer
        } else {
            &self.new_samples
        }
    }

    /// The message that tells all clients whether there is speech.
    pub fn vad_status(&self, result: VadResult, handle: &DaemonHandle, now: Timestamp) -> (message:
        IpcMessage)
        ensures
            message@ == crate::ipc::event(
                "vad_status"@,
                crate::ipc::PayloadModel::VadStatus {
                    speech_detected: result.has_speech,
                    probability: result.probability,
                },
                now,
            ),
    {
        handle.broadcast_event(
            "vad_status",
            Payload::VadStatus {
                speech_detected: result.has_speech,
                probability: result.probability,
            },
            now,
        )
    }

    /// Takes in whether there is speech in the audio. The utterance goes on, or has ended and is to
    /// be transcribed.
    pub fn on_vad(&mut self, has_speech: bool) -> (step: Step)
        ensures
            final(self).settings() == old(self).settings(),
            final(self)@ == with_detection(
                old(self)@,
                has_speech,
                old(self).settings().silence_chunks_to_finalize as nat,
            ),
            step == (if !has_speech && ends_utterance(
                old(self)@,
                old(self).settings().silence_chunks_to_finalize as nat,
                old(self).settings().min_audio_ms,
            ) {
                Step::Transcribe
            } else {
                Step::Wait
            }),
    {
        if has_speech {
            if !self.in_utterance {
                self.in_utterance = true;
                let mut fresh: Vec<T> = Vec::new();
                fresh.append(&mut self.new_samples);
                self.speech_buffer.append(&mut fresh);
                assert(self.speech_buffer@ =~= old(self)@.speech + old(self)@.fresh);
            }
            self.silence_count = 0;
            Step::Wait
        } else if self.in_utterance {
            let limit: usize = self.config.silence_chunks_to_finalize;
            if limit <= 1 || self.silence_count >= limit - 1 {
                let samples: usize = self.speech_buffer.len();
                if self.transcribed || samples >= MAX_BUFFER_SAMPLES || samples as u128 >= 16
                    * self.config.min_audio_ms as u128 {
                    Step::Transcribe
                } else {
                    Step::Wait
                }
            } else {
                self.silence_count = self.silence_count + 1;
                Step::Wait
            }
        } else {
            Step::Wait
        }
    }

    /// The audio to transcribe.
    pub fn utterance(&self) -> (audio: &Vec<T>)
        ensures
            audio@ == self@.speech,
    {
        &self.speech_buffer
    }

    /// Begins to transcribe the audio of the utterance under way, and returns the message that tells
    /// all clients so: nothing where there is no audio, which is not transcribed and gives no text.
    pub fn begin_transcription(&self, handle: &mut DaemonHandle, now: Timestamp) -> (message: Option<
        IpcMessage,
    >)
        ensures
            match message {
                Some(message) => {
                    &&& self@.speech.len() > 0
                    &&& final(handle).state@ == crate::ipc::StateModel::Transcribing
                    &&& message@ == crate::ipc::state_event(final(handle).state@, now)
                },
                None => self@.speech.len() == 0 && final(handle).state@ == old(handle).state@,
            },
    {
        if self.speech_buffer.len() == 0 {
            None
        } else {
            Some(handle.set_state(DaemonState::Transcribing, now))
        }
    }

    /// Notes the text of a transcribed stretch of audio, and returns the messages that tell all
    /// clients of it.
    pub fn on_transcribed(
        &mut self,
        text: &str,
        handle: &mut DaemonHandle,
        now: Timestamp,
    ) -> (messages: Vec<IpcMessage>)
        ensures
            final(self).settings() == old(self).settings(),
            final(self)@ == (StreamingModel {
                shown: with_text(old(self)@.shown, text@),
                ..old(self)@
            }),
            crate::ipc::models(messages@) == partial_messages(
                old(self)@.shown,
                text@,
                old(self).settings().partial_results,
                now,
            ),
            final(handle).state@ == (if old(self).settings().partial_results && text@.len() > 0 {
                crate::ipc::StateModel::Streaming { partial_text: old(self)@.shown + text@ }
            } else {
                old(handle).state@
            }),
    {
        let mut messages: Vec<IpcMessage> = Vec::new();
        if self.config.partial_results && !text.is_empty() {
            let mut full: String = self.utterance_text.clone();
            full.append(text);
            messages.push(
                handle.broadcast_event(
                    "partial_transcript",
                    Payload::Transcript { text: text.to_string(), is_final: false },
                    now,
                ),
            );
            messages.push(handle.set_state(DaemonState::Streaming { partial_text: full }, now));
        }
        if !text.is_empty() {
            self.utterance_text.append(text);
            self.utterance_text.push(' ');
        }
        assert(crate::ipc::models(messages@) =~= partial_messages(
            old(self)@.shown,
            text@,
            old(self).settings().partial_results,
            now,
        ));
        messages
    }

    /// Takes in what came of a transcription pass, and returns its text with the messages that tell
    /// all clients of it. A pass that failed counts as one without text: no message is sent, and what
    /// clients have been shown stays.
    pub fn on_pass(
        &mut self,
        result: Result<String, String>,
        handle: &mut DaemonHandle,
        now: Timestamp,
    ) -> (outcome: (String, Vec<IpcMessage>))
        ensures
            outcome.0@ == pass_text(result),
            final(self).settings() == old(self).settings(),
            final(self)@ == (StreamingModel {
                shown: with_text(old(self)@.shown, pass_text(result)),
                ..old(self)@
            }),
            crate::ipc::models(outcome.1@) == partial_messages(
                old(self)@.shown,
                pass_text(result),
                old(self).settings().partial_results,
                now,
            ),
            final(handle).state@ == (if old(self).settings().partial_results && pass_text(
                result,
            ).len() > 0 {
                crate::ipc::StateModel::Streaming {
                    partial_text: old(self)@.shown + pass_text(result),
                }
            } else {
                old(handle).state@
            }),
            result is Err ==> final(self)@ == old(self)@ && outcome.1@.len() == 0
                && final(handle).state@ == old(handle).state@,
    {
        let text: String = match result {
            Ok(text) => text,
            Err(_) => String::new(),
        };
        let messages: Vec<IpcMessage> = self.on_transcribed(text.as_str(), handle, now);
        assert(crate::ipc::models(messages@).len() == messages@.len());
        (text, messages)
    }

    /// Takes in the text of an utterance that silence has ended. The run is over, with the text it
    /// gives, as soon as there is any.
    pub fn on_utterance(&mut self, text: &str) -> (result: Option<String>)
        ensures
            final(self).settings() == old(self).settings(),
            final(self)@ == without_utterance(old(self)@, text@),
            match result {
                Some(all) => all@.len() > 0 && all@ == crate::text::trimmed(final(self)@.text),
                None => crate::text::trimmed(final(self)@.text).len() == 0,
            },
    {
        if !text.is_empty() {
            self.final_text.append(text);
            self.final_text.push(' ');
        }
        self.speech_buffer = Vec::new();
        self.in_utterance = false;
        self.transcribed = true;
        self.silence_count = 0;
        let all: String = trim(self.final_text.as_str());
        if all.as_str().is_empty() {
            None
        } else {
            Some(all)
        }
    }

    /// The text of a run that was aborted, given the text of the utterance under way.
    pub fn on_abort(&self, text: &str) -> (result: String)
        ensures
            result@ == crate::text::trimmed(self@.text + text@),
    {
        let mut all: String = self.final_text.clone();
        all.append(text);
        trim(all.as_str())
    }

    /// The text of a run whose audio has come to its end, given the text of the utterance under
    /// way.
    pub fn on_closed(&self, text: &str) -> (result: String)
        ensures
            result@ == self@.text + text@,
    {
        let mut all: String = self.final_text.clone();
        all.append(text);
        all
    }
}

/// Whether `n` chunks of silence in a row are enough to end an utterance that has already seen
/// `silence` of them.
pub open spec fn ended_within(silence: nat, limit: nat, n: nat) -> bool
    decreases n,
{
    n > 0 && (silent_enough(silence, limit) || ended_within(
        silence + 1,
        limit,
        (n - 1) as nat,
    ))
}

proof fn lemma_ended_within(silence: nat, limit: nat, n: nat)
    ensures
        ended_within(silence, limit, n) <==> n > 0 && silence + n >= limit,
    decreases n,
{
    if n > 0 && !silent_enough(silence, limit) {
        lemma_ended_within(silence + 1, limit, (n - 1) as nat);
    }
}

/// Behind speech, an utterance has been silent for long enough with the chunk of silence that makes
/// up the set number in a row, and not before.
pub proof fn law_utterance_ends_after_silence(limit: nat, n: nat)
    requires
        limit > 0,
    ensures
        ended_within(0, limit, n) <==> n >= limit,
{
    lemma_ended_within(0, limit, n);
}

/// No transcription pass that silence leads to is the first one of a run and has less audio than it
/// needs; once a pass has been made, silence alone decides.
pub proof fn law_first_pass_has_enough_audio<T>(m: StreamingModel<T>, limit: nat, min_audio_ms: u64)
    ensures
        ends_utterance(m, limit, min_audio_ms) && !m.transcribed ==> long_enough(
            m.speech.len(),
            min_audio_ms,
        ),
        m.in_utterance && m.transcribed ==> (ends_utterance(m, limit, min_audio_ms)
            <==> silent_enough(m.silence, limit)),
{
}

/// The audio of an utterance under way does not grow beyond two minutes, and what is kept of it is
/// its latest part, without a gap.
pub proof fn law_buffer_is_bounded<T>(m: StreamingModel<T>, audio: Seq<T>)
    requires
        m.in_utterance,
    ensures
        with_audio(m, audio).speech.len() <= MAX_BUFFER_SAMPLES,
        with_audio(m, audio).speech.is_suffix_of(m.speech + audio),
        (m.speech + audio).len() <= MAX_BUFFER_SAMPLES ==> with_audio(m, audio).speech == m.speech
            + audio,
{
}

/// Between utterances there is no audio of an earlier one and no silence is counted; within one,
/// less silence has come than ends it.
pub open spec fn settled<T>(m: StreamingModel<T>, limit: nat) -> bool {
    &&& !m.in_utterance ==> m.speech.len() == 0 && m.silence == 0
    &&& limit > 0 ==> m.silence < limit
}

/// Whatever is heard, found and transcribed, no audio or silence of one utterance is counted to
/// another.
pub proof fn law_utterances_are_kept_apart<T>(
    m: StreamingModel<T>,
    audio: Seq<T>,
    has_speech: bool,
    text: Seq<char>,
    limit: nat,
)
    requires
        settled(m, limit),
    ensures
        settled(waiting::<T>(m.shown), limit),
        settled(with_audio(m, audio), limit),
        settled(with_detection(m, has_speech, limit), limit),
        settled(without_utterance(m, text), limit),
{
}

/// An utterance begins with the audio in which its speech was found; audio without speech before
/// it is dropped.
pub proof fn law_utterance_begins_with_speech<T>(
    m: StreamingModel<T>,
    silent: Seq<T>,
    spoken: Seq<T>,
    limit: nat,
)
    requires
        settled(m, limit),
        !m.in_utterance,
    ensures
        ({
            let quiet = with_detection(with_audio(m, silent), false, limit);
            let begun = with_detection(with_audio(quiet, spoken), true, limit);
            &&& !quiet.in_utterance
            &&& begun.in_utterance
            &&& begun.speech == spoken
            &&& begun.silence == 0
        }),
{
    assert(m.speech + spoken =~= spoken);
}

/// In an utterance all audio is gathered, in order, as long as two minutes hold it; beyond that the
/// latest two minutes are kept: 1920000 samples.
pub proof fn law_utterance_gathers_its_audio<T>(m: StreamingModel<T>, a: Seq<T>, b: Seq<T>)
    requires
        m.in_utterance,
    ensures
        m.speech.len() + a.len() + b.len() <= 1_920_000 ==> with_audio(with_audio(m, a), b).speech
            == m.speech + a + b,
        with_audio(with_audio(m, a), b).speech == with_audio(m, a + b).speech,
        m.speech.len() + a.len() > 1_920_000 ==> with_audio(m, a).speech.len() == 1_920_000,
        a.len() <= 1_920_000 ==> a.is_suffix_of(with_audio(m, a).speech),
        with_audio(m, a).in_utterance,
        with_audio(m, a).silence == m.silence,
        with_audio(m, a).text == m.text,
        with_audio(m, a).shown == m.shown,
        audible(with_audio(m, a)) == with_audio(m, a).speech,
{
    let limit = MAX_BUFFER_SAMPLES as int;
    let x = m.speech + a;
    let whole = m.speech + (a + b);
    assert(x + b =~= whole);
    if x.len() > limit {
        let y = x.skip(x.len() - limit) + b;
        assert(y =~= whole.skip(x.len() - limit));
        assert(latest(y, limit) =~= latest(whole, limit));
    }
    if a.len() <= limit {
        let kept = with_audio(m, a).speech;
        assert(a =~= kept.subrange(kept.len() - a.len(), kept.len() as int));
    }
}

/// Outside an utterance, what has just come is looked at by itself.
pub proof fn law_silence_is_looked_at_by_itself<T>(m: StreamingModel<T>, a: Seq<T>)
    requires
        !m.in_utterance,
    ensures
        audible(with_audio(m, a)) == a,
        with_audio(m, a).speech == m.speech,
        !with_audio(m, a).in_utterance,
{
}

/// A look for speech leaves the audio of an utterance and all text as they are. Speech starts the
/// count of silence anew; without it, the count goes up by one until it ends the utterance.
pub proof fn law_looking_changes_only_the_count<T>(m: StreamingModel<T>, has_speech: bool, limit: nat)
    requires
        m.in_utterance,
    ensures
        with_detection(m, has_speech, limit).speech == m.speech,
        with_detection(m, has_speech, limit).in_utterance,
        with_detection(m, has_speech, limit).text == m.text,
        with_detection(m, has_speech, limit).shown == m.shown,
        with_detection(m, has_speech, limit).transcribed == m.transcribed,
        has_speech ==> with_detection(m, has_speech, limit).silence == 0,
        !has_speech && m.silence + 1 < limit ==> with_detection(m, has_speech, limit).silence
            == m.silence + 1,
{
}

/// With enough audio, an utterance ends at the chunk of silence that makes up the set number, and at
/// none before it, whatever was counted before its last speech.
pub proof fn law_set_silence_ends_an_utterance<T>(m: StreamingModel<T>, limit: nat, ms: u64, n: nat)
    requires
        m.in_utterance,
        m.speech.len() * 1000 >= ms * 16000,
        n < limit,
    ensures
        ({
            let silent = after_silence(with_detection(m, true, limit), limit, n);
            &&& silent.in_utterance
            &&& silent.speech == m.speech
            &&& ends_utterance(silent, limit, ms) <==> n + 1 == limit
        }),
{
    lemma_after_silence(with_detection(m, true, limit), limit, n);
}

/// The state behind `n` chunks of silence.
pub open spec fn after_silence<T>(m: StreamingModel<T>, limit: nat, n: nat) -> StreamingModel<T>
    decreases n,
{
    if n == 0 {
        m
    } else {
        with_detection(after_silence(m, limit, (n - 1) as nat), false, limit)
    }
}

proof fn lemma_after_silence<T>(m: StreamingModel<T>, limit: nat, n: nat)
    requires
        m.in_utterance,
        m.silence == 0,
        n < limit,
    ensures
        after_silence(m, limit, n) == (StreamingModel { silence: n, ..m }),
    decreases n,
{
    if n > 0 {
        lemma_after_silence(m, limit, (n - 1) as nat);
    }
}

/// The first pass of a run waits for its audio, counted at 16000 samples a second, or for a full
/// buffer; later passes do not.
pub proof fn law_first_pass_waits_for_its_audio<T>(m: StreamingModel<T>, limit: nat, ms: u64)
    requires
        m.in_utterance,
        m.silence + 1 >= limit,
    ensures
        ends_utterance(m, limit, ms) <==> m.transcribed || m.speech.len() * 1000 >= ms * 16000
            || m.speech.len() >= 1_920_000,
{
}

/// The text of a run is that of its utterances, one after another, each with a space behind it; an
/// utterance without text adds nothing.
pub proof fn law_text_of_utterances_is_gathered<T>(
    m: StreamingModel<T>,
    first: Seq<char>,
    second: Seq<char>,
)
    ensures
        first.len() > 0 && second.len() > 0 ==> without_utterance(
            without_utterance(m, first),
            second,
        ).text == m.text + first + seq![' '] + second + seq![' '],
        without_utterance(m, Seq::<char>::empty()).text == m.text,
        without_utterance(m, first).shown == m.shown,
        without_utterance(m, first).transcribed,
{
    assert(((m.text + first).push(' ') + second).push(' ') =~= m.text + first + seq![' '] + second
        + seq![' ']);
}

/// Clients learn of a stretch's text if and only if they want to and there is any: first the text
/// itself, not marked as final, then the state with all that was shown before it and the text.
pub proof fn law_partial_transcripts_are_shown(
    shown: Seq<char>,
    text: Seq<char>,
    wanted: bool,
    now: Timestamp,
)
    ensures
        partial_messages(shown, text, wanted, now).len() == if wanted && text.len() > 0 {
            2nat
        } else {
            0nat
        },
        wanted && text.len() > 0 ==> {
            let messages = partial_messages(shown, text, wanted, now);
            &&& messages[0].msg_type == "partial_transcript"@
            &&& messages[0].payload == Some(
                crate::ipc::PayloadModel::Transcript { text, is_final: false },
            )
            &&& messages[0].ts == Some(now)
            &&& messages[1].msg_type == "state"@
            &&& messages[1].payload == Some(
                crate::ipc::PayloadModel::State(
                    crate::ipc::StateModel::Streaming { partial_text: shown + text },
                ),
            )
        },
{
}

/// What came of a pass is its text, or nothing where it failed.
pub proof fn law_failed_pass_has_no_text(text: String, reason: String)
    ensures
        pass_text(Ok(text)) == text@,
        pass_text(Err(reason)).len() == 0,
{
}

/// The settings of the streaming mode are those of the daemon, each as it is configured, whatever the
/// others are; speech is looked for in a second of audio at least, and three chunks of silence end an
/// utterance.
pub proof fn law_settings_come_from_the_configuration(cfg: Config)
    ensures
        <StreamingConfig as vstd::std_specs::convert::FromSpec<&Config>>::obeys_from_spec(),
        ({
            let settings =
                <StreamingConfig as vstd::std_specs::convert::FromSpec<&Config>>::from_spec(&cfg);
            &&& settings.chunk_interval_ms == cfg.chunk_interval_ms
            &&& settings.partial_results == cfg.partial_results
            &&& settings.language@ == cfg.language@
            &&& settings.initial_prompt@ == cfg.initial_prompt@
            &&& settings.min_audio_ms == cfg.min_audio_ms
            &&& settings.min_audio_for_vad == 16000
            &&& settings.silence_chunks_to_finalize == 3
        }),
{
}

/// A run begins with nothing heard, no silence counted, no utterance under way, no pass made and no
/// text; only what was shown before stays.
pub proof fn law_run_begins_with_nothing<T>(shown: Seq<char>)
    ensures
        waiting::<T>(shown).speech.len() == 0,
        waiting::<T>(shown).fresh.len() == 0,
        waiting::<T>(shown).silence == 0,
        !waiting::<T>(shown).in_utterance,
        !waiting::<T>(shown).transcribed,
        waiting::<T>(shown).text.len() == 0,
        waiting::<T>(shown).shown == shown,
{
}

/// New audio changes nothing but the audio: in an utterance it goes behind that of the utterance, and
/// none is left to be looked at by itself; outside one it takes the place of what was looked at before.
pub proof fn law_audio_changes_only_the_audio<T>(m: StreamingModel<T>, audio: Seq<T>)
    ensures
        with_audio(m, audio).silence == m.silence,
        with_audio(m, audio).in_utterance == m.in_utterance,
        with_audio(m, audio).transcribed == m.transcribed,
        with_audio(m, audio).text == m.text,
        with_audio(m, audio).shown == m.shown,
        m.in_utterance ==> with_audio(m, audio).fresh.len() == 0,
        m.in_utterance ==> audible(m) == m.speech,
        !m.in_utterance ==> with_audio(m, audio).fresh == audio,
        !m.in_utterance ==> with_audio(m, audio).speech == m.speech,
        !m.in_utterance ==> audible(m) == m.fresh,
{
}

/// Outside an utterance a look without speech changes nothing; one with speech begins an utterance
/// with what was looked at, and changes no text. In an utterance that has been silent for long enough
/// already, more silence changes nothing.
pub proof fn law_speech_begins_an_utterance<T>(m: StreamingModel<T>, limit: nat)
    ensures
        !m.in_utterance ==> with_detection(m, false, limit) == m,
        !m.in_utterance ==> {
            let begun = with_detection(m, true, limit);
            &&& begun.in_utterance
            &&& begun.speech == m.speech + m.fresh
            &&& begun.fresh.len() == 0
            &&& begun.silence == 0
            &&& begun.transcribed == m.transcribed
            &&& begun.text == m.text
            &&& begun.shown == m.shown
        },
        m.in_utterance ==> with_detection(m, true, limit).fresh == m.fresh,
        m.in_utterance ==> with_detection(m, false, limit).fresh == m.fresh,
        m.in_utterance && m.silence + 1 >= limit ==> with_detection(m, false, limit) == m,
{
}

/// No utterance ends where none is under way, or before the set silence.
pub proof fn law_no_utterance_ends_early<T>(m: StreamingModel<T>, limit: nat, ms: u64)
    ensures
        !m.in_utterance ==> !ends_utterance(m, limit, ms),
        m.silence + 1 < limit ==> !ends_utterance(m, limit, ms),
{
}

/// Behind an utterance nothing of its audio and silence is left, and its text stands behind the text
/// there was; what clients have been shown, and audio that was not looked at yet, stay.
pub proof fn law_utterance_leaves_its_text<T>(m: StreamingModel<T>, text: Seq<char>)
    ensures
        without_utterance(m, text).speech.len() == 0,
        without_utterance(m, text).silence == 0,
        !without_utterance(m, text).in_utterance,
        without_utterance(m, text).transcribed,
        without_utterance(m, text).fresh == m.fresh,
        without_utterance(m, text).shown == m.shown,
        text.len() > 0 ==> without_utterance(m, text).text == m.text + text + seq![' '],
        text.len() == 0 ==> without_utterance(m, text).text == m.text,
        text.len() > 0 ==> with_text(m.shown, text) == m.shown + text + seq![' '],
        text.len() == 0 ==> with_text(m.shown, text) == m.shown,
{
    assert((m.text + text).push(' ') =~= m.text + text + seq![' ']);
    assert((m.shown + text).push(' ') =~= m.shown + text + seq![' ']);
}

} // verus!
