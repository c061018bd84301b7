//! Events: everything a plugin may react to.

use crate::jid::FullJid;
use crate::message::Message;
use vstd::prelude::*;

verus! {

/// Something that happened in the session.
#[derive(Debug)]
pub enum Event {
    /// The account is connected.
    Connected(FullJid),
    /// The account is no longer connected.
    Disconnected(FullJid),
    /// A message came in, goes out or was made for the user.
    Message(Message),
    /// The account joined a room.
    Join(FullJid),
}

} // verus!
