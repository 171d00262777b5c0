use lds::config::Config;
use lds::daemon::{
    after_copy, after_transcription, announce_delivery, announce_no_speech, first_route, log_line,
    next_route, plan_delivery, prepare_delivery, state_after_action, state_after_capture, CopyOutcome, CopyStep,
    DaemonCmd, DeliveryStep, TypingRoute, Undelivered, Worker, WorkerAction,
};
use lds::ipc::{DaemonHandle, DaemonState, Payload, Timestamp};

const NOW: Timestamp = Timestamp { secs: 7, nanos: 500 };

#[test]
fn starting_twice_is_a_toggle() {
    let mut worker = Worker::new();
    assert_eq!(worker.on_cmd(DaemonCmd::Start), WorkerAction::StartCapture);
    assert_eq!(worker.on_cmd(DaemonCmd::Start), WorkerAction::RequestStop);
    assert_eq!(worker.on_cmd(DaemonCmd::Stop), WorkerAction::StopCapture);
    assert_eq!(worker.on_cmd(DaemonCmd::Stop), WorkerAction::Ignore);
    assert_eq!(worker.on_cmd(DaemonCmd::Start), WorkerAction::StartCapture);
}

#[test]
fn a_started_capture_records() {
    assert!(matches!(
        state_after_action(WorkerAction::StartCapture),
        Some(DaemonState::Recording)
    ));
    for action in [WorkerAction::RequestStop, WorkerAction::StopCapture, WorkerAction::Ignore] {
        assert!(state_after_action(action).is_none());
    }
}

#[test]
fn captured_audio_is_transcribed() {
    assert!(matches!(state_after_capture(0), DaemonState::Error(e) if e == "no audio captured"));
    assert!(matches!(state_after_capture(1), DaemonState::Transcribing));
}

#[test]
fn transcriptions_lead_to_delivery_or_an_error() {
    assert!(matches!(after_transcription(Ok("hi".to_string())), Ok(t) if t == "hi"));
    assert!(matches!(
        after_transcription(Ok(String::new())),
        Err(DaemonState::Error(e)) if e == "no speech detected"
    ));
    assert!(matches!(
        after_transcription(Err("whisper transcription failed".to_string())),
        Err(DaemonState::Error(e)) if e == "whisper transcription failed"
    ));
}

#[test]
fn typing_falls_back() {
    assert_eq!(first_route(true), TypingRoute::Native);
    assert_eq!(first_route(false), TypingRoute::Wtype);
    assert_eq!(next_route(TypingRoute::Native, false), Some(TypingRoute::Wtype));
    assert_eq!(next_route(TypingRoute::Wtype, false), Some(TypingRoute::Enigo));
    assert_eq!(next_route(TypingRoute::Enigo, false), None);
    assert_eq!(next_route(TypingRoute::Native, true), None);
}

#[test]
fn clipboard_falls_back() {
    assert_eq!(after_copy(CopyOutcome::Exited { success: true }), CopyStep::Done);
    assert_eq!(after_copy(CopyOutcome::Exited { success: false }), CopyStep::UseLibrary);
    assert_eq!(after_copy(CopyOutcome::NotStarted), CopyStep::UseLibrary);
    assert_eq!(after_copy(CopyOutcome::Broken), CopyStep::Fail);
}

#[test]
fn log_lines_keep_the_text_private() {
    assert_eq!(log_line("secret", true), "[lds] transcript: \"secret\"");
    assert_eq!(log_line("secret", false), "[lds] transcript: 6 chars");
    assert_eq!(log_line("public", false), log_line("secret", false));
    assert_eq!(log_line("é", false), "[lds] transcript: 2 chars");
}

#[test]
fn deliveries_are_planned() {
    let mut cfg = Config::default_for(None);
    let delivery = plan_delivery("Hi".to_string(), &cfg).unwrap();
    assert_eq!(delivery.text, "Hi");
    assert!(delivery.auto_type);
    assert_eq!(delivery.log_line, "[lds] transcript: 2 chars");
    cfg.update(Some(false), None);
    assert!(!plan_delivery("Hi".to_string(), &cfg).unwrap().auto_type);
    assert!(plan_delivery(String::new(), &cfg).is_none());
}

#[test]
fn raw_transcripts_are_prepared() {
    let mut cfg = Config::default_for(None);
    cfg.log_transcript = true;
    let delivery = prepare_delivery("hello there small world", &cfg).unwrap();
    assert_eq!(delivery.text, "Hello there small world.");
    assert_eq!(delivery.log_line, "[lds] transcript: \"Hello there small world.\"");
    assert_eq!(prepare_delivery("okay", &cfg).unwrap_err(), Undelivered::NoSpeech);
    assert_eq!(
        prepare_delivery(&"a".repeat(1_000_000), &cfg).unwrap_err(),
        Undelivered::Unclean
    );
}

#[test]
fn deliveries_are_announced() {
    let mut handle = DaemonHandle::new();
    let messages = announce_delivery(&mut handle, "Hi there", NOW);
    assert!(matches!(handle.state, DaemonState::ClipboardWritten));
    assert_eq!(messages.len(), 2);
    assert_eq!(messages[0].msg_type, "final_transcript");
    assert_eq!(messages[0].ts, Some(NOW));
    assert!(matches!(
        &messages[0].payload,
        Some(Payload::Transcript { text, is_final: true }) if text == "Hi there"
    ));
    assert_eq!(messages[1].msg_type, "state");
    assert!(matches!(
        &messages[1].payload,
        Some(Payload::State(DaemonState::ClipboardWritten))
    ));
}

#[test]
fn silence_is_announced() {
    let mut handle = DaemonHandle::new();
    let message = announce_no_speech(&mut handle, NOW);
    assert!(matches!(&handle.state, DaemonState::Error(e) if e == "no speech detected"));
    assert_eq!(message.msg_type, "state");
}

#[test]
fn deliveries_take_their_steps_in_order() {
    let mut cfg = Config::default_for(None);
    for auto_type in [true, false] {
        cfg.update(Some(auto_type), None);
        let delivery = plan_delivery("Hi".to_string(), &cfg).unwrap();
        let mut steps = vec![delivery.first_step()];
        while let Some(next) = delivery.next_step(*steps.last().unwrap()) {
            steps.push(next);
        }
        let mut expected = vec![DeliveryStep::Save, DeliveryStep::Copy];
        if auto_type {
            expected.push(DeliveryStep::Type);
        }
        expected.push(DeliveryStep::Announce);
        assert_eq!(steps, expected);
    }
}
