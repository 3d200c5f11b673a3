//! Protocol core of an automated chat-network participant.
//!
//! The library turns one trimmed protocol line at a time into a structured
//! message, recognizes keepalive probes, authorizes a single controller
//! identity, and decides which registered handler an authorized order
//! dispatches to.  All I/O stays outside; every function here is verified.

pub mod chars;
pub mod identity;
pub mod keepalive;
pub mod lines;
pub mod message;
pub mod parser;
pub mod react;
pub mod registry;
pub mod tokens;

pub use identity::User;
pub use keepalive::probe_reply;
pub use lines::frame;
pub use lines::join_line;
pub use lines::nick_line;
pub use lines::part_line;
pub use lines::trim_line;
pub use lines::user_line;
pub use message::CommanderOrder;
pub use message::Message;
pub use message::ParseError;
pub use parser::parse_msg;
pub use parser::parse_order;
pub use parser::parse_sender;
pub use react::react;
pub use react::Dispatch;
pub use react::Reaction;
pub use registry::Registry;
