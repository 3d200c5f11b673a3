//! The decision heart of the connection's read loop.  Each received line is
//! judged once: does it call for the keepalive reply, does it dispatch an
//! order of the configured controller to a registered handler, or is it
//! dropped — silently when merely unauthorized or unregistered, with a
//! reported [`ParseError`] when malformed.  The surrounding application
//! performs what was decided: it sends the reply and invokes the handler.

use vstd::prelude::*;

use crate::identity::user_eq;
use crate::identity::User;
use crate::keepalive::ack_cmd;
use crate::keepalive::cmd_start;
use crate::keepalive::is_probe_cmd;
use crate::keepalive::keepalive_reply_of;
use crate::keepalive::probe_cmd;
use crate::keepalive::probe_reply;
use crate::message::ParseError;
use crate::parser::parse_msg;
use crate::parser::parse_order;
use crate::parser::spec_parse_msg;
use crate::parser::spec_parse_order;
use crate::registry::lookup_spec;
use crate::registry::Registry;
use crate::tokens::lemma_token_start;
use crate::tokens::texts_view;
use crate::tokens::tokens_of;

verus! {

/// Whether a line calls for the keepalive reply: it parses, its sender
/// resolves to the server, and its command token is the probe command.
pub open spec fn wants_keepalive(line: Seq<char>) -> bool {
    match spec_parse_msg(line) {
        Ok(m) => m.sender.is_server && m.command == probe_cmd(),
        Err(_) => false,
    }
}

/// A dispatch decision: the handler slot that fires, and the order's
/// parameters to hand it.
pub struct Dispatch {
    pub handler: usize,
    pub parameters: Vec<String>,
}

/// Everything one received line calls for.  Keepalive and dispatch are
/// judged independently, so both may be set for the same line.
pub struct Reaction {
    /// The keepalive reply to send back verbatim, when the line is a
    /// server-sent probe.
    pub pong: Option<String>,
    /// The handler to invoke, when the line is a well-formed, registered
    /// order of the controller.
    pub dispatch: Option<Dispatch>,
    /// The parse failure to log, when the line is dropped as malformed.
    pub error: Option<ParseError>,
}

/// For a line that earns the keepalive reply, the reply substitutes the
/// command token alone — the token the keepalive condition fixes as the
/// probe — and every character before and after it stays in place.
pub proof fn lemma_keepalive_reply_substitutes_cmd(line: Seq<char>)
    requires
        wants_keepalive(line),
    ensures
        ({
            let c = cmd_start(line) as int;
            &&& c + 4 <= line.len()
            &&& line.subrange(c, c + 4) == probe_cmd()
            &&& keepalive_reply_of(line) == line.take(c) + ack_cmd() + line.skip(c + 4)
        }),
{
    assert(probe_cmd().len() == 4);
    if line.len() > 0 && line[0] == ':' {
        lemma_token_start(line, 1);
        assert(tokens_of(line)[1] == probe_cmd());
    } else {
        lemma_token_start(line, 0);
        assert(tokens_of(line)[0] == probe_cmd());
    }
}

/// Decides how to react to one received line, given the configured
/// controller identity and the registered triggers.
///
/// The reply exists exactly for a server-sent probe, and is the raw line
/// with the command token alone substituted by the acknowledgment, never a
/// re-serialization.  A handler
/// fires exactly when the line parses, its sender equals the controller in
/// all four fields, its order is well-formed, and the order's command
/// matches a registered trigger exactly; an unauthorized sender or an
/// unregistered trigger is dropped silently, a malformed line only with its
/// reported failure.
pub fn react(line: &str, commander: &User, registry: &Registry) -> (r: Reaction)
    ensures
        (r.pong is Some) == wants_keepalive(line@),
        r.pong matches Some(p) ==> p@ == keepalive_reply_of(line@),
        (match spec_parse_msg(line@) {
            Err(e) => r.dispatch is None && r.error == Some(e),
            Ok(m) => {
                if user_eq(m.sender, commander@) {
                    match spec_parse_order(m.parameters) {
                        Err(e) => r.dispatch is None && r.error == Some(e),
                        Ok(o) => r.error is None && (match lookup_spec(registry@, o.command) {
                            Some(slot) => {
                                &&& r.dispatch matches Some(d)
                                &&& d.handler == slot
                                &&& texts_view(d.parameters@) == o.parameters
                            },
                            None => r.dispatch is None,
                        }),
                    }
                } else {
                    r.dispatch is None && r.error is None
                }
            },
        }),
{
    let msg = match parse_msg(line) {
        Ok(m) => m,
        Err(e) => {
            return Reaction { pong: None, dispatch: None, error: Some(e) };
        },
    };
    let pong = if msg.sender.is_server() && is_probe_cmd(msg.command.as_str()) {
        Some(probe_reply(line))
    } else {
        None
    };
    if msg.sender == *commander {
        match parse_order(&msg.parameters) {
            Ok(order) => {
                match registry.lookup(order.command.as_str()) {
                    Some(slot) => Reaction {
                        pong,
                        dispatch: Some(Dispatch { handler: slot, parameters: order.parameters }),
                        error: None,
                    },
                    None => Reaction { pong, dispatch: None, error: None },
                }
            },
            Err(e) => Reaction { pong, dispatch: None, error: Some(e) },
        }
    } else {
        Reaction { pong, dispatch: None, error: None }
    }
}

} // verus!
