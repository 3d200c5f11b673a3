//! The structured forms a protocol line passes through: the parsed
//! [`Message`], the extracted [`CommanderOrder`], and the parse failures the
//! hardened parser reports instead of aborting.

use vstd::prelude::*;

use crate::identity::User;
use crate::identity::UserView;
use crate::tokens::texts_view;

verus! {

/// Ghost image of a [`Message`].
pub struct MessageView {
    pub sender: UserView,
    pub command: Seq<char>,
    pub parameters: Seq<Seq<char>>,
}

/// One parsed protocol line: who sent it, its command token, and the
/// remaining tokens in wire order.
pub struct Message {
    pub sender: User,
    pub command: String,
    pub parameters: Vec<String>,
}

impl View for Message {
    type V = MessageView;

    open spec fn view(&self) -> MessageView {
        MessageView {
            sender: self.sender@,
            command: self.command@,
            parameters: texts_view(self.parameters@),
        }
    }
}

impl Message {
    /// Builds a message from its three fields.
    pub fn new(sender: User, command: String, parameters: Vec<String>) -> (r: Message)
        ensures
            r@ == (MessageView {
                sender: sender@,
                command: command@,
                parameters: texts_view(parameters@),
            }),
    {
        Message { sender, command, parameters }
    }
}

/// Ghost image of a [`CommanderOrder`].
pub struct OrderView {
    pub command: Seq<char>,
    pub parameters: Seq<Seq<char>>,
}

/// A privileged instruction taken from an authorized message: the trigger
/// token with its leading marker stripped, and the remaining parameters.
pub struct CommanderOrder {
    pub command: String,
    pub parameters: Vec<String>,
}

impl View for CommanderOrder {
    type V = OrderView;

    open spec fn view(&self) -> OrderView {
        OrderView { command: self.command@, parameters: texts_view(self.parameters@) }
    }
}

/// Why a line was dropped rather than parsed.  Malformed input never aborts
/// the process: each of these is an ordinary value the caller logs and
/// skips.
#[derive(PartialEq, Eq, Structural, Clone, Copy, Debug)]
pub enum ParseError {
    /// The line has fewer than two whitespace-separated tokens.
    MissingCommand,
    /// A sender prefix carries a user separator but lacks the leading colon,
    /// or its ident and vhost are not joined by exactly one at-sign.
    MalformedSender,
    /// An authorized order lacks its two leading parameters, or its trigger
    /// token lacks the leading marker.
    MalformedOrder,
}

/// View of a sender parse result.
pub open spec fn res_user_view(r: Result<User, ParseError>) -> Result<UserView, ParseError> {
    match r {
        Ok(u) => Ok(u@),
        Err(e) => Err(e),
    }
}

/// View of a message parse result.
pub open spec fn res_msg_view(r: Result<Message, ParseError>) -> Result<
    MessageView,
    ParseError,
> {
    match r {
        Ok(m) => Ok(m@),
        Err(e) => Err(e),
    }
}

/// View of an order extraction result.
pub open spec fn res_order_view(r: Result<CommanderOrder, ParseError>) -> Result<
    OrderView,
    ParseError,
> {
    match r {
        Ok(o) => Ok(o@),
        Err(e) => Err(e),
    }
}

} // verus!
