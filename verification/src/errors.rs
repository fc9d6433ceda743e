//! What can go wrong in the chat service.

use vstd::prelude::*;
use vstd::string::StringExecFns;

verus! {

/// The errors of the chat service.
#[derive(Debug, PartialEq, Eq)]
pub enum ChatErrors {
    /// A known command with too few fields; holds what is missing.
    InvalidCommand(String),
    /// An unknown command; holds its name.
    CommandNotSupport(String),
    /// A message was to be sent while no room was current.
    UnknownCurrentChan,
    /// No room has this id.
    RoomNotFound(String),
}

/// A `ChatErrors` value with its strings as character sequences.
pub enum ChatErrorsView {
    InvalidCommand(Seq<char>),
    CommandNotSupport(Seq<char>),
    UnknownCurrentChan,
    RoomNotFound(Seq<char>),
}

impl View for ChatErrors {
    type V = ChatErrorsView;

    open spec fn view(&self) -> ChatErrorsView {
        match self {
            ChatErrors::InvalidCommand(m) => ChatErrorsView::InvalidCommand(m@),
            ChatErrors::CommandNotSupport(c) => ChatErrorsView::CommandNotSupport(c@),
            ChatErrors::UnknownCurrentChan => ChatErrorsView::UnknownCurrentChan,
            ChatErrors::RoomNotFound(r) => ChatErrorsView::RoomNotFound(r@),
        }
    }
}

/// The text that describes an error.
pub open spec fn describe(e: ChatErrorsView) -> Seq<char> {
    match e {
        ChatErrorsView::InvalidCommand(m) => "invalid cmd: "@ + m,
        ChatErrorsView::CommandNotSupport(c) => "cmd: "@ + c + " is not support"@,
        ChatErrorsView::UnknownCurrentChan => "not set current channel yet"@,
        ChatErrorsView::RoomNotFound(r) => "chan "@ + r + " not found"@,
    }
}

impl Clone for ChatErrors {
    fn clone(&self) -> (copy: Self)
        ensures
            copy@ == self@,
    {
        match self {
            ChatErrors::InvalidCommand(m) => ChatErrors::InvalidCommand(m.clone()),
            ChatErrors::CommandNotSupport(c) => ChatErrors::CommandNotSupport(c.clone()),
            ChatErrors::UnknownCurrentChan => ChatErrors::UnknownCurrentChan,
            ChatErrors::RoomNotFound(r) => ChatErrors::RoomNotFound(r.clone()),
        }
    }
}

impl ChatErrors {
    /// The text that describes this error.
    pub fn to_string(&self) -> (text: String)
        ensures
            text@ == describe(self@),
    {
        match self {
            ChatErrors::InvalidCommand(m) => {
                let mut text = String::from_str("invalid cmd: ");
                text.append(m.as_str());
                text
            },
            ChatErrors::CommandNotSupport(c) => {
                let mut text = String::from_str("cmd: ");
                text.append(c.as_str());
                text.append(" is not support");
                text
            },
            ChatErrors::UnknownCurrentChan => String::from_str("not set current channel yet"),
            ChatErrors::RoomNotFound(r) => {
                let mut text = String::from_str("chan ");
                text.append(r.as_str());
                text.append(" not found");
                text
            },
        }
    }
}

} // verus!
