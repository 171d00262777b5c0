use lds::ipc::{DaemonHandle, DaemonState, Payload, Timestamp};
use lds::streaming::{Step, StreamingConfig, StreamingCoordinator, MAX_BUFFER_SAMPLES};
use lds::vad::{Probability, VadResult};

const NOW: Timestamp = Timestamp { secs: 3, nanos: 4 };

fn coordinator(min_audio_for_vad: usize, partial_results: bool) -> StreamingCoordinator<f32> {
    StreamingCoordinator::new(StreamingConfig {
        chunk_interval_ms: 2000,
        partial_results,
        language: String::new(),
        initial_prompt: String::new(),
        min_audio_for_vad,
        silence_chunks_to_finalize: 3,
        min_audio_ms: 0,
    })
}

#[test]
fn too_little_audio_is_waited_on() {
    let mut c = coordinator(4, true);
    assert_eq!(c.hear(vec![0.0; 3]), Step::Wait);
    assert_eq!(c.hear(vec![0.0; 4]), Step::Detect);
    assert_eq!(c.vad_audio().len(), 4);
}

#[test]
fn an_utterance_begins_with_speech() {
    let mut c = coordinator(1, true);
    c.hear(vec![0.1]);
    assert_eq!(c.on_vad(false), Step::Wait);
    assert!(c.utterance().is_empty());
    c.hear(vec![0.2, 0.3]);
    assert_eq!(c.on_vad(true), Step::Wait);
    assert_eq!(c.utterance(), &vec![0.2, 0.3]);
    c.hear(vec![0.4]);
    assert_eq!(c.vad_audio(), &vec![0.2, 0.3, 0.4]);
    assert_eq!(c.on_vad(true), Step::Wait);
    assert_eq!(c.utterance(), &vec![0.2, 0.3, 0.4]);
}

#[test]
fn three_chunks_of_silence_end_an_utterance() {
    let mut c = coordinator(1, true);
    c.hear(vec![0.2]);
    c.on_vad(true);
    assert_eq!(c.on_vad(false), Step::Wait);
    assert_eq!(c.on_vad(false), Step::Wait);
    assert_eq!(c.on_vad(true), Step::Wait);
    assert_eq!(c.on_vad(false), Step::Wait);
    assert_eq!(c.on_vad(false), Step::Wait);
    assert_eq!(c.on_vad(false), Step::Transcribe);
    assert_eq!(c.on_utterance("hello"), Some("hello".to_string()));
    assert!(c.utterance().is_empty());
}

#[test]
fn an_utterance_without_text_goes_on_listening() {
    let mut c = coordinator(1, true);
    c.hear(vec![0.2]);
    c.on_vad(true);
    assert_eq!(c.on_utterance(""), None);
    assert_eq!(c.on_utterance("  "), None);
    assert_eq!(c.hear(vec![0.3]), Step::Detect);
    assert_eq!(c.vad_audio(), &vec![0.3]);
    assert_eq!(c.on_utterance("words"), Some("words".to_string()));
}

#[test]
fn the_first_pass_waits_for_enough_audio() {
    let mut c = StreamingCoordinator::<u8>::new(StreamingConfig {
        chunk_interval_ms: 2000,
        partial_results: true,
        language: String::new(),
        initial_prompt: String::new(),
        min_audio_for_vad: 1,
        silence_chunks_to_finalize: 2,
        min_audio_ms: 2,
    });
    c.hear(vec![0; 31]);
    c.on_vad(true);
    for _ in 0..5 {
        assert_eq!(c.on_vad(false), Step::Wait);
    }
    c.hear(vec![0; 1]);
    assert_eq!(c.on_vad(false), Step::Transcribe);
    assert_eq!(c.on_utterance(""), None);
    c.hear(vec![0; 1]);
    c.on_vad(true);
    assert_eq!(c.on_vad(false), Step::Wait);
    assert_eq!(c.on_vad(false), Step::Transcribe);
}

#[test]
fn a_full_buffer_is_enough_audio() {
    let mut c = StreamingCoordinator::<u8>::new(StreamingConfig {
        chunk_interval_ms: 2000,
        partial_results: true,
        language: String::new(),
        initial_prompt: String::new(),
        min_audio_for_vad: 1,
        silence_chunks_to_finalize: 1,
        min_audio_ms: u64::MAX,
    });
    c.hear(vec![0; MAX_BUFFER_SAMPLES - 1]);
    c.on_vad(true);
    assert_eq!(c.on_vad(false), Step::Wait);
    c.hear(vec![0; 1]);
    assert_eq!(c.on_vad(false), Step::Transcribe);
}

#[test]
fn utterances_are_kept_apart() {
    let mut c = coordinator(1, true);
    c.hear(vec![0.1]);
    c.on_vad(true);
    c.on_vad(false);
    c.on_vad(false);
    assert_eq!(c.on_vad(false), Step::Transcribe);
    assert_eq!(c.on_utterance(""), None);
    c.hear(vec![0.2]);
    c.on_vad(true);
    assert_eq!(c.utterance(), &vec![0.2]);
    assert_eq!(c.on_vad(false), Step::Wait);
    assert_eq!(c.on_vad(false), Step::Wait);
    assert_eq!(c.on_vad(false), Step::Transcribe);
}

#[test]
fn the_latest_audio_is_kept() {
    let mut c = coordinator(1, true);
    c.hear(vec![0.0; 10]);
    c.on_vad(true);
    let mut more = vec![0.5; MAX_BUFFER_SAMPLES];
    more[MAX_BUFFER_SAMPLES - 1] = 0.75;
    c.hear(more);
    assert_eq!(c.utterance().len(), MAX_BUFFER_SAMPLES);
    assert_eq!(c.utterance()[0], 0.5);
    assert_eq!(c.utterance()[MAX_BUFFER_SAMPLES - 1], 0.75);
}

#[test]
fn ends_of_a_run() {
    let mut c = coordinator(1, true);
    c.on_utterance(" ");
    assert_eq!(c.on_abort("last words "), "last words");
    assert_eq!(c.on_closed("last words "), "  last words ");
}

#[test]
fn partial_transcripts_are_announced() {
    let mut c = coordinator(1, true);
    let mut handle = DaemonHandle::new();
    let begun = c.begin(&mut handle, NOW);
    assert!(matches!(
        &begun.payload,
        Some(Payload::State(DaemonState::Streaming { partial_text })) if partial_text.is_empty()
    ));
    assert_eq!(c.on_transcribed("one", &mut handle, NOW).len(), 2);
    let messages = c.on_transcribed("two", &mut handle, NOW);
    assert_eq!(messages[0].msg_type, "partial_transcript");
    assert!(matches!(
        &messages[0].payload,
        Some(Payload::Transcript { text, is_final: false }) if text == "two"
    ));
    assert!(matches!(
        &messages[1].payload,
        Some(Payload::State(DaemonState::Streaming { partial_text })) if partial_text == "one two"
    ));
    assert!(matches!(
        &handle.state,
        DaemonState::Streaming { partial_text } if partial_text == "one two"
    ));
    assert!(c.on_transcribed("", &mut handle, NOW).is_empty());
}

#[test]
fn partial_transcripts_can_be_switched_off() {
    let mut c = coordinator(1, false);
    let mut handle = DaemonHandle::new();
    assert!(c.on_transcribed("one", &mut handle, NOW).is_empty());
    assert!(matches!(handle.state, DaemonState::Idle));
}

#[test]
fn a_failed_pass_gives_no_text() {
    let mut c = coordinator(1, true);
    let mut handle = DaemonHandle::new();
    let (text, messages) = c.on_pass(Ok("one".to_string()), &mut handle, NOW);
    assert_eq!(text, "one");
    assert_eq!(messages.len(), 2);
    let (text, messages) = c.on_pass(Err("gpu gone".to_string()), &mut handle, NOW);
    assert_eq!(text, "");
    assert!(messages.is_empty());
    assert!(matches!(
        &handle.state,
        DaemonState::Streaming { partial_text } if partial_text == "one"
    ));
    let (_, messages) = c.on_pass(Ok("two".to_string()), &mut handle, NOW);
    assert!(matches!(
        &messages[1].payload,
        Some(Payload::State(DaemonState::Streaming { partial_text })) if partial_text == "one two"
    ));
}

#[test]
fn transcription_is_announced() {
    let mut c = coordinator(1, true);
    let mut handle = DaemonHandle::new();
    assert!(c.begin_transcription(&mut handle, NOW).is_none());
    assert!(matches!(handle.state, DaemonState::Idle));
    c.hear(vec![0.2]);
    c.on_vad(true);
    let message = c.begin_transcription(&mut handle, NOW).unwrap();
    assert_eq!(message.msg_type, "state");
    assert!(matches!(handle.state, DaemonState::Transcribing));
}

#[test]
fn speech_is_announced() {
    let c = coordinator(1, true);
    let probability = Probability { bits: 0.875f32.to_bits() };
    let handle = DaemonHandle::new();
    let message = c.vad_status(VadResult { has_speech: true, probability }, &handle, NOW);
    assert_eq!(message.msg_type, "vad_status");
    assert!(matches!(
        &message.payload,
        Some(Payload::VadStatus { speech_detected: true, probability: p }) if *p == probability
    ));
}
