//! The control program: what it asks of the daemon, and when it has its answer.

use vstd::prelude::*;

use crate::text::contains_text;

verus! {

/// What the control program is asked to do.
#[derive(Debug, Clone, Copy, PartialEq, Eq)]
pub enum CtlCommand {
    /// Query daemon status.
    Status,
    /// Start recording session.
    Start,
    /// Stop recording session.
    Stop,
}

/// The kind of the request for a command.
pub open spec fn kind_of(command: CtlCommand) -> Seq<char> {
    match command {
        CtlCommand::Status => "status"@,
        CtlCommand::Start => "start_session"@,
        CtlCommand::Stop => "stop_session"@,
    }
}

/// The number of the request for a command.
pub open spec fn id_of(command: CtlCommand) -> Seq<char> {
    match command {
        CtlCommand::Status => "1"@,
        CtlCommand::Start => "2"@,
        CtlCommand::Stop => "3"@,
    }
}

/// The kind and the number of the request for a command.
pub fn request(command: CtlCommand) -> (request: (&'static str, &'static str))
    ensures
        request.0@ == kind_of(command),
        request.1@ == id_of(command),
{
    match command {
        CtlCommand::Status => ("status", "1"),
        CtlCommand::Start => ("start_session", "2"),
        CtlCommand::Stop => ("stop_session", "3"),
    }
}

/// The message `message` ends the wait for an answer to the command.
pub open spec fn answers(command: CtlCommand, message: Seq<char>) -> bool {
    match command {
        CtlCommand::Stop => {
            ||| crate::text::holds_text(message, "session_stopped"@)
            ||| crate::text::holds_text(message, "\"error\""@)
        },
        _ => true,
    }
}

/// Whether a message ends the wait for an answer. The first one does, but for the end of a session:
/// there events come before the answer.
pub fn is_answer(command: CtlCommand, message: &str) -> (result: bool)
    ensures
        result == answers(command, message@),
{
    match command {
        CtlCommand::Stop => contains_text(message, "session_stopped") || contains_text(
            message,
            "\"error\"",
        ),
        _ => true,
    }
}

/// A request to stop is answered by a message that tells of a stopped session or an error, wherever
/// in the message that stands, and by no other; the other requests by the first message there is.
pub proof fn law_stop_waits_for_its_answer(before: Seq<char>, after: Seq<char>, message: Seq<char>)
    ensures
        answers(CtlCommand::Stop, before + "session_stopped"@ + after),
        answers(CtlCommand::Stop, before + "\"error\""@ + after),
        answers(CtlCommand::Stop, message) ==> (exists|a: Seq<char>, b: Seq<char>|
            message == #[trigger] (a + "session_stopped"@ + b)) || (exists|a: Seq<char>, b: Seq<char>|
            message == #[trigger] (a + "\"error\""@ + b)),
        answers(CtlCommand::Status, message),
        answers(CtlCommand::Start, message),
{
    let stopped = "session_stopped"@;
    let error = "\"error\""@;
    crate::text::law_held_text_stands_between_others(before + stopped + after, stopped);
    crate::text::law_held_text_stands_between_others(before + error + after, error);
    crate::text::law_held_text_stands_between_others(message, stopped);
    crate::text::law_held_text_stands_between_others(message, error);
}

/// The control program's requests are ones that the daemon serves, each by its own kind and number.
pub proof fn law_requests_are_known_to_the_daemon(
    state: crate::ipc::StateModel,
    text: Seq<char>,
    now: crate::ipc::Timestamp,
)
    ensures
        crate::ipc::handling(
            state,
            kind_of(CtlCommand::Status),
            Some(id_of(CtlCommand::Status)),
            None,
            now,
        ).reply.payload == Some(crate::ipc::PayloadModel::Status(state)),
        crate::ipc::handling(
            state,
            kind_of(CtlCommand::Start),
            Some(id_of(CtlCommand::Start)),
            Some(Ok(text)),
            now,
        ).state == crate::ipc::StateModel::Recording,
        crate::ipc::handling(
            state,
            kind_of(CtlCommand::Stop),
            Some(id_of(CtlCommand::Stop)),
            Some(Ok(text)),
            now,
        ).reply.payload == Some(crate::ipc::PayloadModel::Text(text)),
{
    crate::ipc::law_status_shows_the_state(state, Some(id_of(CtlCommand::Status)), None, now);
    crate::ipc::law_served_requests(state, Some(id_of(CtlCommand::Start)), text, now);
    crate::ipc::law_served_requests(state, Some(id_of(CtlCommand::Stop)), text, now);
}

/// The requests have the kinds that the daemon knows, and no two commands share a number.
pub proof fn law_requests_are_told_apart(a: CtlCommand, b: CtlCommand)
    requires
        a != b,
    ensures
        id_of(a) != id_of(b),
        kind_of(a) != kind_of(b),
        id_of(a).len() == 1 && '1' <= id_of(a)[0] <= '3',
        a == CtlCommand::Status ==> id_of(a)[0] == '1' && kind_of(a) == "status"@,
        a == CtlCommand::Start ==> id_of(a)[0] == '2' && kind_of(a) == "start_session"@,
        a == CtlCommand::Stop ==> id_of(a)[0] == '3' && kind_of(a) == "stop_session"@,
{
    reveal_strlit("1");
    reveal_strlit("2");
    reveal_strlit("3");
    reveal_strlit("status");
    reveal_strlit("start_session");
    reveal_strlit("stop_session");
    assert("status"@.len() == 6);
    assert("start_session"@.len() == 13);
    assert("stop_session"@.len() == 12);
    assert(id_of(a)[0] != id_of(b)[0]);
}

} // verus!
