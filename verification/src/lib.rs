//! A small verified core for a terminal XMPP chat session: addressing,
//! stanza classification (including message carbons), outgoing stanza
//! construction, and the session state machine.

pub mod addr;
pub mod args;
pub mod classify;
pub mod outgoing;
pub mod session;
pub mod stanza;
pub mod text;
