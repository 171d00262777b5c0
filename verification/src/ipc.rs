//! What the daemon says to its clients: the messages, the state they learn of, and how a request
//! is answered.

use vstd::prelude::*;

use crate::text::same_text;
use crate::vad::Probability;

verus! {

/// Daemon state exposed via IPC.
#[derive(Debug)]
pub enum DaemonState {
    Idle,
    Recording,
    Transcribing,
    Streaming { partial_text: String },
    ClipboardWritten,
    Error(String),
}

/// A daemon state with its text as a sequence of characters.
pub enum StateModel {
    Idle,
    Recording,
    Transcribing,
    Streaming { partial_text: Seq<char> },
    ClipboardWritten,
    Error(Seq<char>),
}

impl View for DaemonState {
    type V = StateModel;

    open spec fn view(&self) -> StateModel {
        match *self {
            DaemonState::Idle => StateModel::Idle,
            DaemonState::Recording => StateModel::Recording,
            DaemonState::Transcribing => StateModel::Transcribing,
            DaemonState::Streaming { partial_text } => StateModel::Streaming {
                partial_text: partial_text@,
            },
            DaemonState::ClipboardWritten => StateModel::ClipboardWritten,
            DaemonState::Error(reason) => StateModel::Error(reason@),
        }
    }
}

impl Clone for DaemonState {
    fn clone(&self) -> (copy: DaemonState)
        ensures
            copy == *self,
    {
        match self {
            DaemonState::Idle => DaemonState::Idle,
            DaemonState::Recording => DaemonState::Recording,
            DaemonState::Transcribing => DaemonState::Transcribing,
            DaemonState::Streaming { partial_text } => DaemonState::Streaming {
                partial_text: partial_text.clone(),
            },
            DaemonState::ClipboardWritten => DaemonState::ClipboardWritten,
            DaemonState::Error(reason) => DaemonState::Error(reason.clone()),
        }
    }
}

/// A point in time: the time since the Unix epoch.
#[derive(Debug, Clone, Copy, PartialEq, Eq)]
pub struct Timestamp {
    /// Whole seconds.
    pub secs: u64,
    /// Nanoseconds beyond them.
    pub nanos: u32,
}

/// What a message carries.
#[derive(Debug)]
pub enum Payload {
    /// The state itself.
    State(DaemonState),
    /// An object with the field `state`.
    Status(DaemonState),
    /// An object with the field `text`.
    Text(String),
    /// An object with the fields `text` and `is_final`.
    Transcript { text: String, is_final: bool },
    /// An object with the fields `speech_detected` and `probability`.
    VadStatus { speech_detected: bool, probability: Probability },
    /// An object with the field `error`.
    Error(String),
}

/// A payload with its text as a sequence of characters.
pub enum PayloadModel {
    State(StateModel),
    Status(StateModel),
    Text(Seq<char>),
    Transcript { text: Seq<char>, is_final: bool },
    VadStatus { speech_detected: bool, probability: Probability },
    Error(Seq<char>),
}

impl View for Payload {
    type V = PayloadModel;

    open spec fn view(&self) -> PayloadModel {
        match *self {
            Payload::State(state) => PayloadModel::State(state@),
            Payload::Status(state) => PayloadModel::Status(state@),
            Payload::Text(text) => PayloadModel::Text(text@),
            Payload::Transcript { text, is_final } => PayloadModel::Transcript {
                text: text@,
                is_final,
            },
            Payload::VadStatus { speech_detected, probability } => PayloadModel::VadStatus {
                speech_detected,
                probability,
            },
            Payload::Error(reason) => PayloadModel::Error(reason@),
        }
    }
}

/// IPC message envelope.
#[derive(Debug)]
pub struct IpcMessage {
    /// What kind of message it is.
    pub msg_type: String,
    /// The number by which a client tells its requests apart.
    pub id: Option<String>,
    /// When the message was sent.
    pub ts: Option<Timestamp>,
    /// What the message carries.
    pub payload: Option<Payload>,
}

/// A message with its texts as sequences of characters.
pub struct MessageModel {
    /// See [`IpcMessage::msg_type`].
    pub msg_type: Seq<char>,
    /// See [`IpcMessage::id`].
    pub id: Option<Seq<char>>,
    /// See [`IpcMessage::ts`].
    pub ts: Option<Timestamp>,
    /// See [`IpcMessage::payload`].
    pub payload: Option<PayloadModel>,
}

/// The text of an optional string.
pub open spec fn optional_text(text: Option<String>) -> Option<Seq<char>> {
    match text {
        Some(text) => Some(text@),
        None => None,
    }
}

impl View for IpcMessage {
    type V = MessageModel;

    open spec fn view(&self) -> MessageModel {
        MessageModel {
            msg_type: self.msg_type@,
            id: optional_text(self.id),
            ts: self.ts,
            payload: match self.payload {
                Some(payload) => Some(payload@),
                None => None,
            },
        }
    }
}

/// The models of some messages.
pub open spec fn models(messages: Seq<IpcMessage>) -> Seq<MessageModel> {
    messages.map_values(|message: IpcMessage| message@)
}

/// The message that something has happened.
pub open spec fn event(msg_type: Seq<char>, payload: PayloadModel, now: Timestamp) -> MessageModel {
    MessageModel { msg_type, id: None, ts: Some(now), payload: Some(payload) }
}

/// The message that the daemon has a new state.
pub open spec fn state_event(state: StateModel, now: Timestamp) -> MessageModel {
    event("state"@, PayloadModel::State(state), now)
}

/// The message that a transcript is final.
pub open spec fn final_transcript(text: Seq<char>, now: Timestamp) -> MessageModel {
    event("final_transcript"@, PayloadModel::Transcript { text, is_final: true }, now)
}

/// The answer to the request with the number `id`.
pub open spec fn reply(
    msg_type: Seq<char>,
    id: Option<Seq<char>>,
    payload: Option<PayloadModel>,
) -> MessageModel {
    MessageModel { msg_type, id, ts: None, payload }
}

/// The answer that a request has failed.
pub open spec fn error_reply(id: Option<Seq<char>>, reason: Seq<char>) -> MessageModel {
    reply("error"@, id, Some(PayloadModel::Error(reason)))
}

/// The handlers that have been registered.
#[derive(Debug, Clone, Copy)]
pub struct Handlers {
    /// For the start of a session.
    pub start: bool,
    /// For the end of a session.
    pub stop: bool,
    /// For the end of a transcription under way.
    pub abort: bool,
}

/// The handler that a request needs.
#[derive(Debug, Clone, Copy, PartialEq, Eq)]
pub enum Callback {
    Start,
    Stop,
    Abort,
}

/// The handler that is called for a request of the kind `msg_type`, if it is registered.
pub open spec fn handler_of(msg_type: Seq<char>, handlers: Handlers) -> Option<Callback> {
    if msg_type == "start_session"@ && handlers.start {
        Some(Callback::Start)
    } else if msg_type == "stop_session"@ && handlers.stop {
        Some(Callback::Stop)
    } else if msg_type == "abort"@ && handlers.abort {
        Some(Callback::Abort)
    } else {
        None
    }
}

/// What comes of a request: the new state, the answer, and the events for all clients.
pub struct Handling {
    /// The state of the daemon behind the request.
    pub state: StateModel,
    /// The answer.
    pub reply: MessageModel,
    /// The events that all clients learn of.
    pub events: Seq<MessageModel>,
}

/// How a request is answered by a daemon in the state `state`, given what its handler returned: a
/// text or an error, or nothing where none was called.
pub open spec fn handling(
    state: StateModel,
    msg_type: Seq<char>,
    id: Option<Seq<char>>,
    outcome: Option<Result<Seq<char>, Seq<char>>>,
    now: Timestamp,
) -> Handling {
    let none = Seq::<MessageModel>::empty();
    if msg_type == "status"@ {
        Handling { state, reply: reply("status"@, id, Some(PayloadModel::Status(state))), events: none }
    } else if msg_type == "start_session"@ {
        match outcome {
            Some(Ok(_)) => Handling {
                state: StateModel::Recording,
                reply: reply("session_started"@, id, None),
                events: seq![state_event(StateModel::Recording, now)],
            },
            Some(Err(reason)) => Handling { state, reply: error_reply(id, reason), events: none },
            None => Handling {
                state,
                reply: error_reply(id, "no start handler registered"@),
                events: none,
            },
        }
    } else if msg_type == "stop_session"@ {
        match outcome {
            Some(Ok(text)) => Handling {
                state: StateModel::ClipboardWritten,
                reply: reply("session_stopped"@, id, Some(PayloadModel::Text(text))),
                events: seq![
                    state_event(StateModel::ClipboardWritten, now),
                    final_transcript(text, now),
                ],
            },
            Some(Err(reason)) => Handling { state, reply: error_reply(id, reason), events: none },
            None => Handling {
                state,
                reply: error_reply(id, "no stop handler registered"@),
                events: none,
            },
        }
    } else if msg_type == "abort"@ {
        match outcome {
            Some(_) => Handling { state, reply: reply("aborted"@, id, None), events: none },
            None => Handling {
                state,
                reply: error_reply(id, "no abort handler registered"@),
                events: none,
            },
        }
    } else {
        Handling { state, reply: error_reply(id, "unknown request type: "@ + msg_type), events: none }
    }
}

/// The texts of what a handler returned.
pub open spec fn outcome_text(outcome: Option<Result<String, String>>) -> Option<
    Result<Seq<char>, Seq<char>>,
> {
    match outcome {
        Some(Ok(text)) => Some(Ok(text@)),
        Some(Err(reason)) => Some(Err(reason@)),
        None => None,
    }
}

/// The handler to call for a request, if any.
pub fn callback_for(msg_type: &str, handlers: Handlers) -> (callback: Option<Callback>)
    ensures
        callback == handler_of(msg_type@, handlers),
{
    if handlers.start && same_text(msg_type, "start_session") {
        Some(Callback::Start)
    } else if handlers.stop && same_text(msg_type, "stop_session") {
        Some(Callback::Stop)
    } else if handlers.abort && same_text(msg_type, "abort") {
        Some(Callback::Abort)
    } else {
        None
    }
}

fn copy_id(id: &Option<String>) -> (copy: Option<String>)
    ensures
        optional_text(copy) == optional_text(*id),
{
    match id {
        Some(id) => Some(id.clone()),
        None => None,
    }
}

fn plain_reply(msg_type: &str, id: &Option<String>, payload: Option<Payload>) -> (message:
    IpcMessage)
    ensures
        message@ == reply(
            msg_type@,
            optional_text(*id),
            match payload {
                Some(payload) => Some(payload@),
                None => None,
            },
        ),
{
    IpcMessage { msg_type: msg_type.to_string(), id: copy_id(id), ts: None, payload }
}

fn refusal(id: &Option<String>, reason: String) -> (message: IpcMessage)
    ensures
        message@ == error_reply(optional_text(*id), reason@),
{
    plain_reply("error", id, Some(Payload::Error(reason)))
}

/// The state that clients ask for and learn of.
pub struct DaemonHandle {
    /// The state.
    pub state: DaemonState,
}

impl DaemonHandle {
    /// An idle daemon.
    pub fn new() -> (handle: DaemonHandle)
        ensures
            handle.state@ == StateModel::Idle,
    {
        DaemonHandle { state: DaemonState::Idle }
    }

    /// Takes on a new state, and returns the message that tells all clients of it.
    pub fn set_state(&mut self, new_state: DaemonState, now: Timestamp) -> (message: IpcMessage)
        ensures
            final(self).state == new_state,
            final(self).state@ == new_state@,
            message@ == state_event(new_state@, now),
            message.payload == Some(Payload::State(new_state)),
    {
        self.state = new_state.clone();
        self.broadcast_event("state", Payload::State(new_state), now)
    }

    /// The message that tells all clients of an event.
    pub fn broadcast_event(&self, msg_type: &str, payload: Payload, now: Timestamp) -> (message:
        IpcMessage)
        ensures
            message@ == event(msg_type@, payload@, now),
            message.msg_type@ == msg_type@,
            message.id is None,
            message.ts == Some(now),
            message.payload == Some(payload),
    {
        IpcMessage {
            msg_type: msg_type.to_string(),
            id: None,
            ts: Some(now),
            payload: Some(payload),
        }
    }

    /// The message that tells all clients of a final transcript.
    pub fn announce_transcript(&self, text: String, now: Timestamp) -> (message: IpcMessage)
        ensures
            message@ == final_transcript(text@, now),
            message.payload == Some(Payload::Transcript { text, is_final: true }),
    {
        self.broadcast_event("final_transcript", Payload::Transcript { text, is_final: true }, now)
    }

    /// Answers a request, given what the handler returned that [`callback_for`] names, and returns
    /// the answer and the events for all clients.
    pub fn handle_request(
        &mut self,
        msg: &IpcMessage,
        outcome: Option<Result<String, String>>,
        now: Timestamp,
    ) -> (result: (IpcMessage, Vec<IpcMessage>))
        ensures
            ({
                let expected = handling(
                    old(self).state@,
                    msg.msg_type@,
                    optional_text(msg.id),
                    outcome_text(outcome),
                    now,
                );
                &&& final(self).state@ == expected.state
                &&& result.0@ == expected.reply
                &&& models(result.1@) == expected.events
            }),
    {
        let mut events: Vec<IpcMessage> = Vec::new();
        let ghost expected = handling(
            old(self).state@,
            msg.msg_type@,
            optional_text(msg.id),
            outcome_text(outcome),
            now,
        );
        let kind: &str = msg.msg_type.as_str();
        let answer: IpcMessage = if same_text(kind, "status") {
            plain_reply("status", &msg.id, Some(Payload::Status(self.state.clone())))
        } else if same_text(kind, "start_session") {
            match outcome {
                Some(Ok(_)) => {
                    events.push(self.set_state(DaemonState::Recording, now));
                    plain_reply("session_started", &msg.id, None)
                },
                Some(Err(reason)) => refusal(&msg.id, reason),
                None => refusal(&msg.id, "no start handler registered".to_string()),
            }
        } else if same_text(kind, "stop_session") {
            match outcome {
                Some(Ok(text)) => {
                    events.push(self.set_state(DaemonState::ClipboardWritten, now));
                    events.push(self.announce_transcript(text.clone(), now));
                    plain_reply("session_stopped", &msg.id, Some(Payload::Text(text)))
                },
                Some(Err(reason)) => refusal(&msg.id, reason),
                None => refusal(&msg.id, "no stop handler registered".to_string()),
            }
        } else if same_text(kind, "abort") {
            match outcome {
                Some(_) => plain_reply("aborted", &msg.id, None),
                None => refusal(&msg.id, "no abort handler registered".to_string()),
            }
        } else {
            let mut reason: String = "unknown request type: ".to_string();
            reason.append(kind);
            refusal(&msg.id, reason)
        };
        assert(models(events@) =~= expected.events);
        (answer, events)
    }
}

/// What a client's connection hands over.
#[derive(Debug, Clone, Copy, PartialEq, Eq)]
pub enum ClientFrame {
    /// A text, and whether it reads as a request.
    Text { is_request: bool },
    /// A ping.
    Ping,
    /// The wish to close the connection.
    Close,
    /// The end of the connection.
    Ended,
    /// Anything else, an error among it.
    Other,
}

/// What to do about it.
#[derive(Debug, Clone, Copy, PartialEq, Eq)]
pub enum ClientAction {
    /// Handle the request and send the answer.
    Answer,
    /// Send a pong with the same data.
    Pong,
    /// Leave the client.
    Disconnect,
    /// Go on.
    Ignore,
}

/// What to do about what a client's connection hands over.
pub fn on_frame(frame: ClientFrame) -> (action: ClientAction)
    ensures
        action == ClientAction::Answer <==> frame == (ClientFrame::Text { is_request: true }),
        action == ClientAction::Pong <==> frame == ClientFrame::Ping,
        action == ClientAction::Disconnect <==> frame == ClientFrame::Close || frame
            == ClientFrame::Ended,
{
    match frame {
        ClientFrame::Text { is_request } => if is_request {
            ClientAction::Answer
        } else {
            ClientAction::Ignore
        },
        ClientFrame::Ping => ClientAction::Pong,
        ClientFrame::Close => ClientAction::Disconnect,
        ClientFrame::Ended => ClientAction::Disconnect,
        ClientFrame::Other => ClientAction::Ignore,
    }
}

/// Every answer has the number of the request, so that the client can tell which one it answers,
/// and no time stamp.
pub proof fn law_reply_carries_the_id(
    state: StateModel,
    msg_type: Seq<char>,
    id: Option<Seq<char>>,
    outcome: Option<Result<Seq<char>, Seq<char>>>,
    now: Timestamp,
)
    ensures
        handling(state, msg_type, id, outcome, now).reply.id == id,
        handling(state, msg_type, id, outcome, now).reply.ts is None,
{
}

/// Whoever asks for the status learns the state as it is, and asking changes nothing.
pub proof fn law_status_shows_the_state(
    state: StateModel,
    id: Option<Seq<char>>,
    outcome: Option<Result<Seq<char>, Seq<char>>>,
    now: Timestamp,
)
    ensures
        ({
            let result = handling(state, "status"@, id, outcome, now);
            &&& result.state == state
            &&& result.reply == reply("status"@, id, Some(PayloadModel::Status(state)))
            &&& result.events.len() == 0
        }),
{
}

/// The kinds of request, and those of answers, are told apart.
proof fn lemma_request_kinds()
    ensures
        "status"@ != "start_session"@,
        "status"@ != "stop_session"@,
        "status"@ != "abort"@,
        "start_session"@ != "stop_session"@,
        "start_session"@ != "abort"@,
        "stop_session"@ != "abort"@,
        "error"@ != "status"@,
        "error"@ != "session_started"@,
        "error"@ != "session_stopped"@,
        "error"@ != "aborted"@,
{
    reveal_strlit("status");
    reveal_strlit("start_session");
    reveal_strlit("stop_session");
    reveal_strlit("abort");
    reveal_strlit("error");
    reveal_strlit("session_started");
    reveal_strlit("session_stopped");
    reveal_strlit("aborted");
    assert("error"@.len() == 5);
    assert("abort"@.len() == 5);
    assert("start_session"@.len() == 13);
    assert("stop_session"@.len() == 12);
    assert("status"@.len() == 6);
    assert("session_started"@.len() == 15);
    assert("session_stopped"@.len() == 15);
    assert("aborted"@.len() == 7);
}

/// A request is refused, with an error and nothing else, if and only if it is of no known kind, or
/// needs a handler that is not registered, or its handler failed (that for an abort cannot): the
/// state stays, and the other clients learn nothing.
pub proof fn law_refused_request_changes_nothing(
    state: StateModel,
    msg_type: Seq<char>,
    id: Option<Seq<char>>,
    handlers: Handlers,
    outcome: Option<Result<Seq<char>, Seq<char>>>,
    now: Timestamp,
)
    requires
        outcome is Some <==> handler_of(msg_type, handlers) is Some,
    ensures
        ({
            let result = handling(state, msg_type, id, outcome, now);
            let served = msg_type == "status"@ || match handler_of(msg_type, handlers) {
                Some(Callback::Abort) => true,
                Some(_) => outcome matches Some(Ok(_)),
                None => false,
            };
            &&& result.reply.msg_type == "error"@ <==> !served
            &&& !served ==> result.state == state && result.events.len() == 0
        }),
{
    lemma_request_kinds();
}

/// The state changes only where a session is started or stopped, and then all clients learn of it
/// first.
pub proof fn law_state_change_is_announced(
    state: StateModel,
    msg_type: Seq<char>,
    id: Option<Seq<char>>,
    outcome: Option<Result<Seq<char>, Seq<char>>>,
    now: Timestamp,
)
    ensures
        ({
            let result = handling(state, msg_type, id, outcome, now);
            &&& result.state != state ==> result.events.len() > 0
            &&& result.events.len() > 0 ==> result.events[0] == state_event(result.state, now)
        }),
{
}

/// A state shown is the state itself, with its text as it is.
pub proof fn law_state_view_is_faithful(state: DaemonState)
    ensures
        state is Idle <==> state@ is Idle,
        state is Recording <==> state@ is Recording,
        state is Transcribing <==> state@ is Transcribing,
        state is ClipboardWritten <==> state@ is ClipboardWritten,
        forall|text: Seq<char>|
            state@ == (StateModel::Streaming { partial_text: text }) <==> match state {
                DaemonState::Streaming { partial_text } => partial_text@ == text,
                _ => false,
            },
        forall|text: Seq<char>|
            state@ == StateModel::Error(text) <==> match state {
                DaemonState::Error(reason) => reason@ == text,
                _ => false,
            },
{
}

/// A payload shown is the payload itself, with its texts, marks and numbers as they are.
pub proof fn law_payload_view_is_faithful(payload: Payload, text: Seq<char>, flag: bool)
    ensures
        payload@ == PayloadModel::Text(text) <==> match payload {
            Payload::Text(own) => own@ == text,
            _ => false,
        },
        payload@ == PayloadModel::Error(text) <==> match payload {
            Payload::Error(own) => own@ == text,
            _ => false,
        },
        payload@ == (PayloadModel::Transcript { text, is_final: flag }) <==> match payload {
            Payload::Transcript { text: own, is_final } => own@ == text && is_final == flag,
            _ => false,
        },
        match payload {
            Payload::State(state) => payload@ == PayloadModel::State(state@),
            Payload::Status(state) => payload@ == PayloadModel::Status(state@),
            Payload::VadStatus { speech_detected, probability } => payload@
                == (PayloadModel::VadStatus { speech_detected, probability }),
            _ => true,
        },
{
}

/// A message shown is the message itself, and a list of messages is shown one by one.
pub proof fn law_message_view_is_faithful(message: IpcMessage, messages: Seq<IpcMessage>)
    ensures
        message@.msg_type == message.msg_type@,
        message@.ts == message.ts,
        match message.id {
            Some(id) => message@.id == Some(id@),
            None => message@.id is None,
        },
        match message.payload {
            Some(payload) => message@.payload == Some(payload@),
            None => message@.payload is None,
        },
        models(messages).len() == messages.len(),
        forall|i: int| 0 <= i < messages.len() ==> models(messages)[i] == (#[trigger] messages[i])@,
{
}

/// Every event has its kind, the time and what it carries, and no number; a final transcript is
/// carried whole and marked as final.
pub proof fn law_events_carry_what_they_tell(
    msg_type: Seq<char>,
    payload: PayloadModel,
    text: Seq<char>,
    state: StateModel,
    now: Timestamp,
)
    ensures
        event(msg_type, payload, now).msg_type == msg_type,
        event(msg_type, payload, now).payload == Some(payload),
        event(msg_type, payload, now).ts == Some(now),
        event(msg_type, payload, now).id is None,
        final_transcript(text, now).msg_type == "final_transcript"@,
        final_transcript(text, now).payload == Some(
            PayloadModel::Transcript { text, is_final: true },
        ),
        final_transcript(text, now).ts == Some(now),
        final_transcript(text, now).id is None,
        state_event(state, now).msg_type == "state"@,
        state_event(state, now).payload == Some(PayloadModel::State(state)),
        state_event(state, now).ts == Some(now),
        state_event(state, now).id is None,
{
}

/// A session that is started makes the daemon record; one that is stopped gives its text, whole, to
/// the client that asked and to all clients, behind the new state; an abort is confirmed and changes
/// nothing.
pub proof fn law_served_requests(
    state: StateModel,
    id: Option<Seq<char>>,
    text: Seq<char>,
    now: Timestamp,
)
    ensures
        ({
            let started = handling(state, "start_session"@, id, Some(Ok(text)), now);
            &&& started.state == StateModel::Recording
            &&& started.reply.msg_type == "session_started"@
            &&& started.reply.payload is None
            &&& started.events == seq![state_event(StateModel::Recording, now)]
        }),
        ({
            let stopped = handling(state, "stop_session"@, id, Some(Ok(text)), now);
            &&& stopped.state == StateModel::ClipboardWritten
            &&& stopped.reply.msg_type == "session_stopped"@
            &&& stopped.reply.payload == Some(PayloadModel::Text(text))
            &&& stopped.events.len() == 2
            &&& stopped.events[0] == state_event(StateModel::ClipboardWritten, now)
            &&& stopped.events[1].msg_type == "final_transcript"@
            &&& stopped.events[1].payload == Some(
                PayloadModel::Transcript { text, is_final: true },
            )
        }),
        ({
            let aborted = handling(state, "abort"@, id, Some(Ok(text)), now);
            &&& aborted.state == state
            &&& aborted.reply.msg_type == "aborted"@
            &&& aborted.events.len() == 0
        }),
{
    lemma_request_kinds();
}

/// A refusal says why: what the handler said, that there is no handler, or what the request was.
pub proof fn law_refusals_say_why(
    state: StateModel,
    kind: Seq<char>,
    id: Option<Seq<char>>,
    reason: Seq<char>,
    outcome: Option<Result<Seq<char>, Seq<char>>>,
    now: Timestamp,
)
    ensures
        handling(state, "start_session"@, id, Some(Err(reason)), now).reply.payload == Some(
            PayloadModel::Error(reason),
        ),
        handling(state, "stop_session"@, id, Some(Err(reason)), now).reply.payload == Some(
            PayloadModel::Error(reason),
        ),
        handling(state, "start_session"@, id, None, now).reply.payload == Some(
            PayloadModel::Error("no start handler registered"@),
        ),
        handling(state, "stop_session"@, id, None, now).reply.payload == Some(
            PayloadModel::Error("no stop handler registered"@),
        ),
        handling(state, "abort"@, id, None, now).reply.payload == Some(
            PayloadModel::Error("no abort handler registered"@),
        ),
        kind != "status"@ && kind != "start_session"@ && kind != "stop_session"@ && kind
            != "abort"@ ==> {
            let refused = handling(state, kind, id, outcome, now);
            &&& refused.state == state
            &&& refused.reply.msg_type == "error"@
            &&& refused.reply.payload == Some(
                PayloadModel::Error("unknown request type: "@ + kind),
            )
            &&& refused.events.len() == 0
        },
{
    lemma_request_kinds();
}

/// A handler is called for the request that is its own, and for no other, and only where it is
/// registered; the other handlers make no difference.
pub proof fn law_handlers_serve_their_own_requests(kind: Seq<char>, handlers: Handlers)
    ensures
        handler_of(kind, handlers) == Some(Callback::Start) <==> kind == "start_session"@
            && handlers.start,
        handler_of(kind, handlers) == Some(Callback::Stop) <==> kind == "stop_session"@
            && handlers.stop,
        handler_of(kind, handlers) == Some(Callback::Abort) <==> kind == "abort"@
            && handlers.abort,
{
    lemma_request_kinds();
}

/// What a handler returned is taken as it is: its text where it succeeded, an empty one among them,
/// and its reason where it failed.
pub proof fn law_outcome_is_taken_as_it_is(text: String, reason: String)
    ensures
        outcome_text(Some(Ok(text))) == Some(Ok::<Seq<char>, Seq<char>>(text@)),
        outcome_text(Some(Err(reason))) == Some(Err::<Seq<char>, Seq<char>>(reason@)),
        outcome_text(None) is None,
{
}

/// An abort is confirmed whatever its handler returned, and changes nothing; the events of a stopped
/// session carry the time, and the answers to a start and an abort carry nothing.
pub proof fn law_abort_is_always_confirmed(
    state: StateModel,
    id: Option<Seq<char>>,
    outcome: Result<Seq<char>, Seq<char>>,
    text: Seq<char>,
    now: Timestamp,
)
    ensures
        ({
            let aborted = handling(state, "abort"@, id, Some(outcome), now);
            &&& aborted.state == state
            &&& aborted.reply.msg_type == "aborted"@
            &&& aborted.reply.payload is None
            &&& aborted.events.len() == 0
        }),
        handling(state, "stop_session"@, id, Some(Ok(text)), now).events[1].ts == Some(now),
        handling(state, "stop_session"@, id, Some(Ok(text)), now).events[1].id is None,
{
    lemma_request_kinds();
}

} // verus!
