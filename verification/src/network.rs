//! The line protocol of networked sockets: the commands a client sends and
//! how it reads the replies.
use vstd::prelude::*;
use vstd::string::*;
use crate::text::{text_equal, trim_text, trimmed};

verus! {

/// A command of the socket protocol.
#[derive(Debug, Clone, Copy, PartialEq, Eq)]
pub enum SocketCommand {
    On,
    Off,
    State,
    Power,
}

/// The word of a command.
pub open spec fn command_word(c: SocketCommand) -> Seq<char> {
    match c {
        SocketCommand::On => "ON"@,
        SocketCommand::Off => "OFF"@,
        SocketCommand::State => "STATE"@,
        SocketCommand::Power => "POWER"@,
    }
}

impl SocketCommand {
    /// The line sent for the command: its word and a line break.
    pub fn line(&self) -> (r: String)
        ensures
            r@ == command_word(*self) + "\n"@,
    {
        let mut r = match self {
            SocketCommand::On => String::from_str("ON"),
            SocketCommand::Off => String::from_str("OFF"),
            SocketCommand::State => String::from_str("STATE"),
            SocketCommand::Power => String::from_str("POWER"),
        };
        r.append("\n");
        r
    }
}

/// A reply that a command did not expect.
#[derive(Debug, Clone, PartialEq)]
pub enum ReplyError {
    Unexpected,
}

/// The message of a reply error.
pub open spec fn reply_error_message(e: ReplyError) -> Seq<char> {
    "некорректный ответ"@
}

impl ReplyError {
    /// The human-readable message of the error.
    pub fn message(&self) -> (r: String)
        ensures
            r@ == reply_error_message(*self),
    {
        String::from_str("некорректный ответ")
    }
}

/// Reads the reply to `ON` or `OFF`: the command took effect when the reply,
/// trimmed, is `OK`.
pub fn command_acknowledged(reply: &str) -> (r: Result<(), ReplyError>)
    ensures
        r is Ok <==> trimmed(reply@) == "OK"@,
{
    let t = trim_text(reply);
    if text_equal(t.as_str(), "OK") {
        Ok(())
    } else {
        Err(ReplyError::Unexpected)
    }
}

/// Reads the reply to `STATE`: the socket is on when the reply, trimmed, is
/// `ON`.
pub fn reply_says_on(reply: &str) -> (r: bool)
    ensures
        r == (trimmed(reply@) == "ON"@),
{
    let t = trim_text(reply);
    text_equal(t.as_str(), "ON")
}

/// Of the readings that came in since the last look, in order of arrival,
/// the latest; `None` when none came, and the reader waits for the next.
pub fn latest_reading<T>(queued: Vec<T>) -> (r: Option<T>)
    ensures
        r == (if queued@.len() == 0 {
            None
        } else {
            Some(queued@.last())
        }),
{
    let mut queued = queued;
    queued.pop()
}

} // verus!
