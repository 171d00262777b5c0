use lds::ipc::{
    callback_for, on_frame, Callback, ClientAction, ClientFrame, DaemonHandle,
    DaemonState, Handlers, IpcMessage, Payload, Timestamp,
};
use lds::ldsctl::{is_answer, request, CtlCommand};

const NOW: Timestamp = Timestamp { secs: 1, nanos: 2 };
const ALL: Handlers = Handlers { start: true, stop: true, abort: true };
const NONE: Handlers = Handlers { start: false, stop: false, abort: false };

fn message(msg_type: &str) -> IpcMessage {
    IpcMessage {
        msg_type: msg_type.to_string(),
        id: Some("9".to_string()),
        ts: None,
        payload: None,
    }
}

fn error_of(message: &IpcMessage) -> &str {
    assert_eq!(message.msg_type, "error");
    match &message.payload {
        Some(Payload::Error(reason)) => reason,
        _ => panic!("no reason"),
    }
}

#[test]
fn callbacks_are_chosen() {
    assert_eq!(callback_for("start_session", ALL), Some(Callback::Start));
    assert_eq!(callback_for("stop_session", ALL), Some(Callback::Stop));
    assert_eq!(callback_for("abort", ALL), Some(Callback::Abort));
    assert_eq!(callback_for("status", ALL), None);
    assert_eq!(callback_for("other", ALL), None);
    assert_eq!(callback_for("abort", NONE), None);
}

#[test]
fn status_shows_the_state() {
    let mut handle = DaemonHandle::new();
    handle.set_state(DaemonState::Streaming { partial_text: "so far".to_string() }, NOW);
    let (reply, events) = handle.handle_request(&message("status"), None, NOW);
    assert_eq!(reply.msg_type, "status");
    assert_eq!(reply.id, Some("9".to_string()));
    assert_eq!(reply.ts, None);
    assert!(matches!(
        &reply.payload,
        Some(Payload::Status(DaemonState::Streaming { partial_text })) if partial_text == "so far"
    ));
    assert!(events.is_empty());
}

#[test]
fn sessions_are_started() {
    let mut handle = DaemonHandle::new();
    let (reply, events) =
        handle.handle_request(&message("start_session"), Some(Ok(String::new())), NOW);
    assert_eq!(reply.msg_type, "session_started");
    assert!(reply.payload.is_none());
    assert!(matches!(handle.state, DaemonState::Recording));
    assert_eq!(events.len(), 1);
    assert_eq!(events[0].msg_type, "state");
    assert_eq!(events[0].ts, Some(NOW));
    assert_eq!(events[0].id, None);
    assert!(matches!(&events[0].payload, Some(Payload::State(DaemonState::Recording))));
}

#[test]
fn sessions_are_stopped() {
    let mut handle = DaemonHandle::new();
    let (reply, events) =
        handle.handle_request(&message("stop_session"), Some(Ok("bye".to_string())), NOW);
    assert_eq!(reply.msg_type, "session_stopped");
    assert!(matches!(&reply.payload, Some(Payload::Text(t)) if t == "bye"));
    assert!(matches!(handle.state, DaemonState::ClipboardWritten));
    assert_eq!(events.len(), 2);
    assert_eq!(events[0].msg_type, "state");
    assert_eq!(events[1].msg_type, "final_transcript");
    assert!(matches!(
        &events[1].payload,
        Some(Payload::Transcript { text, is_final: true }) if text == "bye"
    ));
}

#[test]
fn aborts_are_answered() {
    let mut handle = DaemonHandle::new();
    let (reply, events) = handle.handle_request(&message("abort"), Some(Ok(String::new())), NOW);
    assert_eq!(reply.msg_type, "aborted");
    assert!(events.is_empty());
}

#[test]
fn refused_requests_change_nothing() {
    let mut handle = DaemonHandle::new();
    for (kind, outcome, reason) in [
        ("start_session", None, "no start handler registered"),
        ("stop_session", None, "no stop handler registered"),
        ("abort", None, "no abort handler registered"),
        ("start_session", Some(Err("mic gone".to_string())), "mic gone"),
        ("stop_session", Some(Err("gpu gone".to_string())), "gpu gone"),
        ("reboot", None, "unknown request type: reboot"),
        ("", None, "unknown request type: "),
    ] {
        let (reply, events) = handle.handle_request(&message(kind), outcome, NOW);
        assert_eq!(error_of(&reply), reason);
        assert_eq!(reply.id, Some("9".to_string()));
        assert!(events.is_empty());
        assert!(matches!(handle.state, DaemonState::Idle));
    }
}

#[test]
fn events_carry_the_time() {
    let handle = DaemonHandle::new();
    let event = handle.broadcast_event("final_transcript", Payload::Text("x".to_string()), NOW);
    assert_eq!(event.msg_type, "final_transcript");
    assert_eq!(event.id, None);
    assert_eq!(event.ts, Some(NOW));
}

#[test]
fn transcripts_are_announced_as_final() {
    let event = DaemonHandle::new().announce_transcript("x".to_string(), NOW);
    assert_eq!(event.msg_type, "final_transcript");
    assert!(matches!(
        &event.payload,
        Some(Payload::Transcript { text, is_final: true }) if text == "x"
    ));
}

#[test]
fn states_are_copied() {
    for state in [
        DaemonState::Idle,
        DaemonState::Recording,
        DaemonState::Transcribing,
        DaemonState::Streaming { partial_text: "p".to_string() },
        DaemonState::ClipboardWritten,
        DaemonState::Error("e".to_string()),
    ] {
        assert_eq!(format!("{:?}", state.clone()), format!("{state:?}"));
    }
}

#[test]
fn frames_are_acted_on() {
    assert_eq!(on_frame(ClientFrame::Text { is_request: true }), ClientAction::Answer);
    assert_eq!(on_frame(ClientFrame::Text { is_request: false }), ClientAction::Ignore);
    assert_eq!(on_frame(ClientFrame::Ping), ClientAction::Pong);
    assert_eq!(on_frame(ClientFrame::Close), ClientAction::Disconnect);
    assert_eq!(on_frame(ClientFrame::Ended), ClientAction::Disconnect);
    assert_eq!(on_frame(ClientFrame::Other), ClientAction::Ignore);
}

#[test]
fn control_requests() {
    assert_eq!(request(CtlCommand::Status), ("status", "1"));
    assert_eq!(request(CtlCommand::Start), ("start_session", "2"));
    assert_eq!(request(CtlCommand::Stop), ("stop_session", "3"));
}

#[test]
fn control_waits_for_the_end_of_a_session() {
    assert!(is_answer(CtlCommand::Status, "anything"));
    assert!(is_answer(CtlCommand::Start, "anything"));
    assert!(!is_answer(CtlCommand::Stop, "{\"type\":\"state\"}"));
    assert!(is_answer(CtlCommand::Stop, "{\"type\":\"session_stopped\",\"id\":\"3\"}"));
    assert!(is_answer(CtlCommand::Stop, "{\"type\":\"error\",\"id\":\"3\"}"));
    assert!(!is_answer(CtlCommand::Stop, "error"));
}
