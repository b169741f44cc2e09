//! Commands of the dispatcher and the normalization of inbound events into them.
use vstd::prelude::*;

use crate::params::BacklogParams;
use crate::text::same_text;
use crate::token::{decode_token, is_token, token_text};

verus! {

/// A vote toggle on one issue of a backlog page: `has_vote` is whether the user has voted.
#[derive(Clone, Debug, PartialEq)]
pub struct VoteForIssueParams {
    pub id: String,
    pub has_vote: bool,
}

/// The payload that an inline action carries through its correlation token.
#[derive(Clone, Debug, PartialEq)]
pub enum CallbackParams {
    BacklogNext(BacklogParams),
    BacklogPrev(BacklogParams),
    VoteForIssue(VoteForIssueParams),
    BacklogStop,
}

/// A typed command, normalized from an inbound event.
#[derive(Clone, Debug, PartialEq)]
pub enum BotCommand {
    Start,
    Backlog(BacklogParams),
    Login,
    Stop,
    Text(String),
    NewIssue,
    BacklogStop,
    BacklogNext(BacklogParams),
    BacklogPrev(BacklogParams),
    BacklogVoteForIssue(VoteForIssueParams),
    Save,
    Cancel,
    /// An inline action whose token could not be read back.
    Invalid,
}

/// An inbound event of the messaging front end.
#[derive(Clone, Debug, PartialEq)]
pub enum InboundEvent {
    /// A message; `text` is absent for messages that hold no text.
    Message { from: i64, text: Option<String> },
    /// An inline-action callback with the token it carries, if any.
    Callback { from: i64, data: Option<String> },
    /// Any other kind of event.
    Other,
}

#[derive(Clone, Copy, Debug, PartialEq, Eq, Structural)]
pub enum NormalizeError {
    UnsupportedUpdate,
}

/// The number of issues on a backlog page opened by `/backlog`.
pub const BACKLOG_PAGE_SIZE: i32 = 5;

/// The command that a text message stands for.
pub open spec fn command_of_text(text: String) -> BotCommand {
    if text@ == "/backlog"@ {
        BotCommand::Backlog(BacklogParams { top: BACKLOG_PAGE_SIZE, skip: 0 })
    } else if text@ == "/start"@ {
        BotCommand::Start
    } else if text@ == "/login"@ {
        BotCommand::Login
    } else if text@ == "/stop"@ {
        BotCommand::Stop
    } else if text@ == "/new_issue"@ {
        BotCommand::NewIssue
    } else if text@ == "/save"@ {
        BotCommand::Save
    } else if text@ == "/cancel"@ {
        BotCommand::Cancel
    } else {
        BotCommand::Text(text)
    }
}

/// The command that an inline action carrying `p` stands for.
pub open spec fn command_of_callback(p: CallbackParams) -> BotCommand {
    match p {
        CallbackParams::BacklogStop => BotCommand::BacklogStop,
        CallbackParams::BacklogNext(b) => BotCommand::BacklogNext(b),
        CallbackParams::BacklogPrev(b) => BotCommand::BacklogPrev(b),
        CallbackParams::VoteForIssue(v) => BotCommand::BacklogVoteForIssue(v),
    }
}

/// Whether `r` is what a callback carrying `data` normalizes to.
pub open spec fn callback_command(data: Seq<char>, r: BotCommand) -> bool {
    if is_token(data) {
        exists|p: CallbackParams| token_text(p) == data && r == command_of_callback(p)
    } else {
        r == BotCommand::Invalid
    }
}

impl BotCommand {
    /// The text of a free-text command.
    pub fn get_message_text(&self) -> (r: Option<String>)
        ensures
            match self {
                BotCommand::Text(t) => r == Some(*t),
                _ => r is None,
            },
    {
        match self {
            BotCommand::Text(t) => Some(t.clone()),
            _ => None,
        }
    }
}

/// Normalizes the text of a message: a keyword or free text.
pub fn command_from_text(text: String) -> (r: BotCommand)
    ensures
        r == command_of_text(text),
{
    if same_text(text.as_str(), "/backlog") {
        BotCommand::Backlog(BacklogParams::new(BACKLOG_PAGE_SIZE))
    } else if same_text(text.as_str(), "/start") {
        BotCommand::Start
    } else if same_text(text.as_str(), "/login") {
        BotCommand::Login
    } else if same_text(text.as_str(), "/stop") {
        BotCommand::Stop
    } else if same_text(text.as_str(), "/new_issue") {
        BotCommand::NewIssue
    } else if same_text(text.as_str(), "/save") {
        BotCommand::Save
    } else if same_text(text.as_str(), "/cancel") {
        BotCommand::Cancel
    } else {
        BotCommand::Text(text)
    }
}

/// Normalizes the token of an inline action; a token that cannot be read back is `Invalid`.
pub fn command_from_callback(data: &str) -> (r: BotCommand)
    ensures
        callback_command(data@, r),
{
    match decode_token(data) {
        Ok(p) => {
            let r = match p {
                CallbackParams::BacklogStop => BotCommand::BacklogStop,
                CallbackParams::BacklogNext(b) => BotCommand::BacklogNext(b),
                CallbackParams::BacklogPrev(b) => BotCommand::BacklogPrev(b),
                CallbackParams::VoteForIssue(v) => BotCommand::BacklogVoteForIssue(v),
            };
            r
        },
        Err(_) => BotCommand::Invalid,
    }
}

/// The user an event comes from, for the kinds of events that are handled.
pub fn event_user(event: &InboundEvent) -> (r: Option<i64>)
    ensures
        match event {
            InboundEvent::Message { from, .. } => r == Some(*from),
            InboundEvent::Callback { from, .. } => r == Some(*from),
            InboundEvent::Other => r is None,
        },
{
    match event {
        InboundEvent::Message { from, .. } => Some(*from),
        InboundEvent::Callback { from, .. } => Some(*from),
        InboundEvent::Other => None,
    }
}

/// Turns an inbound event into a command. Fails only for event kinds that are not handled:
/// messages without text and events other than messages and callbacks.
pub fn normalize(event: InboundEvent) -> (r: Result<BotCommand, NormalizeError>)
    ensures
        match event {
            InboundEvent::Message { text: Some(t), .. } => r == Ok::<BotCommand, NormalizeError>(
                command_of_text(t),
            ),
            InboundEvent::Callback { data: Some(d), .. } => r is Ok && callback_command(
                d@,
                r->Ok_0,
            ),
            InboundEvent::Callback { data: None, .. } => r == Ok::<BotCommand, NormalizeError>(
                BotCommand::Invalid,
            ),
            _ => r == Err::<BotCommand, NormalizeError>(NormalizeError::UnsupportedUpdate),
        },
{
    match event {
        InboundEvent::Message { text: Some(t), .. } => Ok(command_from_text(t)),
        InboundEvent::Callback { data: Some(d), .. } => Ok(command_from_callback(d.as_str())),
        InboundEvent::Callback { data: None, .. } => Ok(BotCommand::Invalid),
        _ => Err(NormalizeError::UnsupportedUpdate),
    }
}

} // verus!
