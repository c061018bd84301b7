//! Messages: direct, group and locally made log messages in one model.
//!
//! A message is known by its identifier alone: two messages are equal when
//! their identifiers are, whatever their direction, text or time.

use crate::jid::BareJid;
use crate::jid::BareJidView;
use crate::jid::Jid;
use crate::jid::JidView;
use crate::wire::fresh_id;
use crate::wire::message_element;
use crate::wire::now;
use crate::wire::stanza_element;
use std::hash::Hash;
use std::hash::Hasher;
use vstd::prelude::*;
use vstd::string::StringExecFns;
use xmpp_parsers::Element;

verus! {

/// An instant: seconds since the Unix epoch, and nanoseconds within the second.
#[derive(Debug, Clone, Copy, PartialEq, Eq, Structural)]
pub struct Timestamp {
    pub secs: i64,
    pub nanos: u32,
}

/// A message between two accounts.
#[derive(Debug)]
pub struct ChatMessage {
    pub id: String,
    pub timestamp: Timestamp,
    pub from: BareJid,
    pub from_full: Jid,
    pub to: BareJid,
    pub to_full: Jid,
    pub body: String,
}

/// A message in a room.
#[derive(Debug)]
pub struct GroupchatMessage {
    pub id: String,
    pub timestamp: Timestamp,
    pub from: BareJid,
    pub from_full: Jid,
    pub to: BareJid,
    pub to_full: Jid,
    pub body: String,
}

/// A message of the protocol.
#[derive(Debug)]
pub enum XmppMessage {
    Chat(ChatMessage),
    Groupchat(GroupchatMessage),
}

/// A message that the client made for its own user. It has no sender and no
/// recipient.
#[derive(Debug)]
pub struct LogMessage {
    pub id: String,
    pub timestamp: Timestamp,
    pub body: String,
}

/// Any message, with its direction.
#[derive(Debug)]
pub enum Message {
    Incoming(XmppMessage),
    Outgoing(XmppMessage),
    Log(LogMessage),
}

/// The marker that tells a direct message from a group message on the wire.
#[derive(Debug, Clone, Copy, PartialEq, Eq, Structural)]
pub enum MessageType {
    Chat,
    Groupchat,
}

/// An outgoing message as the protocol library takes it: the recipient, the
/// identifier, the type marker and one body under a language key.
#[derive(Debug)]
pub struct MessageStanza {
    pub to: BareJid,
    pub id: String,
    pub type_: MessageType,
    pub lang: String,
    pub body: String,
}

/// What a [`MessageStanza`] stands for.
pub struct MessageStanzaView {
    pub to: BareJidView,
    pub id: Seq<char>,
    pub type_: MessageType,
    pub lang: Seq<char>,
    pub body: Seq<char>,
}

impl View for MessageStanza {
    type V = MessageStanzaView;

    open spec fn view(&self) -> MessageStanzaView {
        MessageStanzaView {
            to: self.to@,
            id: self.id@,
            type_: self.type_,
            lang: self.lang@,
            body: self.body@,
        }
    }
}

/// What a protocol message holds, whichever of the two kinds it is.
pub struct EnvelopeView {
    pub id: Seq<char>,
    pub timestamp: Timestamp,
    pub from: BareJidView,
    pub from_full: JidView,
    pub to: BareJidView,
    pub to_full: JidView,
    pub body: Seq<char>,
}

/// The envelope of a message made from a pair of addresses: each address is
/// kept as given and in its bare form.
pub open spec fn envelope(
    id: Seq<char>,
    timestamp: Timestamp,
    from_full: JidView,
    to_full: JidView,
    body: Seq<char>,
) -> EnvelopeView {
    EnvelopeView {
        id,
        timestamp,
        from: from_full.bare(),
        from_full,
        to: to_full.bare(),
        to_full,
        body,
    }
}

impl View for ChatMessage {
    type V = EnvelopeView;

    open spec fn view(&self) -> EnvelopeView {
        EnvelopeView {
            id: self.id@,
            timestamp: self.timestamp,
            from: self.from@,
            from_full: self.from_full@,
            to: self.to@,
            to_full: self.to_full@,
            body: self.body@,
        }
    }
}

impl View for GroupchatMessage {
    type V = EnvelopeView;

    open spec fn view(&self) -> EnvelopeView {
        EnvelopeView {
            id: self.id@,
            timestamp: self.timestamp,
            from: self.from@,
            from_full: self.from_full@,
            to: self.to@,
            to_full: self.to_full@,
            body: self.body@,
        }
    }
}

impl XmppMessage {
    /// The type marker of the message.
    pub open spec fn kind(&self) -> MessageType {
        match self {
            XmppMessage::Chat(_) => MessageType::Chat,
            XmppMessage::Groupchat(_) => MessageType::Groupchat,
        }
    }

    /// What the message holds.
    pub open spec fn envelope(&self) -> EnvelopeView {
        match self {
            XmppMessage::Chat(message) => message@,
            XmppMessage::Groupchat(message) => message@,
        }
    }
}

/// The language key of a body that names no language.
pub open spec fn unlabeled() -> Seq<char> {
    Seq::empty()
}

impl Message {
    /// The identifier of the message.
    pub open spec fn spec_id(&self) -> Seq<char> {
        match self {
            Message::Incoming(message) => message.envelope().id,
            Message::Outgoing(message) => message.envelope().id,
            Message::Log(message) => message.id@,
        }
    }

    /// The text of the message.
    pub open spec fn spec_body(&self) -> Seq<char> {
        match self {
            Message::Incoming(message) => message.envelope().body,
            Message::Outgoing(message) => message.envelope().body,
            Message::Log(message) => message.body@,
        }
    }

    /// The stanza that carries the message to its recipient. Only an outgoing
    /// message has one: it goes to the bare address of the recipient, with
    /// the message's identifier and type marker, and with its text as the one
    /// body, under the key that names no language.
    pub open spec fn outgoing_stanza(&self) -> Option<MessageStanzaView> {
        match self {
            Message::Outgoing(message) => Some(
                MessageStanzaView {
                    to: message.envelope().to,
                    id: message.envelope().id,
                    type_: message.kind(),
                    lang: unlabeled(),
                    body: message.envelope().body,
                },
            ),
            Message::Incoming(_) => None,
            Message::Log(_) => None,
        }
    }

    /// A direct message that came in.
    pub fn incoming_chat(
        id: &str,
        timestamp: Timestamp,
        from_full: &Jid,
        to_full: &Jid,
        body: &str,
    ) -> (message: Message)
        ensures
            message matches Message::Incoming(XmppMessage::Chat(chat)) && chat@ == envelope(
                id@,
                timestamp,
                from_full@,
                to_full@,
                body@,
            ),
    {
        Message::Incoming(
            XmppMessage::Chat(
                ChatMessage {
                    id: String::from_str(id),
                    timestamp,
                    from: from_full.to_bare(),
                    from_full: from_full.clone(),
                    to: to_full.to_bare(),
                    to_full: to_full.clone(),
                    body: String::from_str(body),
                },
            ),
        )
    }

    /// A direct message that goes out.
    pub fn outgoing_chat(
        id: &str,
        timestamp: Timestamp,
        from_full: &Jid,
        to_full: &Jid,
        body: &str,
    ) -> (message: Message)
        ensures
            message matches Message::Outgoing(XmppMessage::Chat(chat)) && chat@ == envelope(
                id@,
                timestamp,
                from_full@,
                to_full@,
                body@,
            ),
    {
        Message::Outgoing(
            XmppMessage::Chat(
                ChatMessage {
                    id: String::from_str(id),
                    timestamp,
                    from: from_full.to_bare(),
                    from_full: from_full.clone(),
                    to: to_full.to_bare(),
                    to_full: to_full.clone(),
                    body: String::from_str(body),
                },
            ),
        )
    }

    /// A group message that came in.
    pub fn incoming_groupchat(
        id: &str,
        timestamp: Timestamp,
        from_full: &Jid,
        to_full: &Jid,
        body: &str,
    ) -> (message: Message)
        ensures
            message matches Message::Incoming(XmppMessage::Groupchat(chat)) && chat@ == envelope(
                id@,
                timestamp,
                from_full@,
                to_full@,
                body@,
            ),
    {
        Message::Incoming(
            XmppMessage::Groupchat(
                GroupchatMessage {
                    id: String::from_str(id),
                    timestamp,
                    from: from_full.to_bare(),
                    from_full: from_full.clone(),
                    to: to_full.to_bare(),
                    to_full: to_full.clone(),
                    body: String::from_str(body),
                },
            ),
        )
    }

    /// A group message that goes out.
    pub fn outgoing_groupchat(
        id: &str,
        timestamp: Timestamp,
        from_full: &Jid,
        to_full: &Jid,
        body: &str,
    ) -> (message: Message)
        ensures
            message matches Message::Outgoing(XmppMessage::Groupchat(chat)) && chat@ == envelope(
                id@,
                timestamp,
                from_full@,
                to_full@,
                body@,
            ),
    {
        Message::Outgoing(
            XmppMessage::Groupchat(
                GroupchatMessage {
                    id: String::from_str(id),
                    timestamp,
                    from: from_full.to_bare(),
                    from_full: from_full.clone(),
                    to: to_full.to_bare(),
                    to_full: to_full.clone(),
                    body: String::from_str(body),
                },
            ),
        )
    }

    /// A log message with the identifier and the time that the caller gives.
    pub fn log_with(id: String, timestamp: Timestamp, msg: String) -> (message: Message)
        ensures
            message == Message::Log(LogMessage { id, timestamp, body: msg }),
    {
        Message::Log(LogMessage { id, timestamp, body: msg })
    }

    /// A log message made now: its identifier is drawn at random and is 36
    /// characters long, its time is read from the clock.
    pub fn log(msg: String) -> (message: Message)
        ensures
            message is Log,
            message.spec_body() == msg@,
            message.spec_id().len() == 36,
    {
        let id = fresh_id();
        let timestamp = now();
        Message::log_with(id, timestamp, msg)
    }

    /// The identifier of the message.
    pub fn id(&self) -> (id: &String)
        ensures
            id@ == self.spec_id(),
    {
        match self {
            Message::Outgoing(XmppMessage::Chat(message)) => &message.id,
            Message::Incoming(XmppMessage::Chat(message)) => &message.id,
            Message::Outgoing(XmppMessage::Groupchat(message)) => &message.id,
            Message::Incoming(XmppMessage::Groupchat(message)) => &message.id,
            Message::Log(message) => &message.id,
        }
    }

    /// The text of the message.
    pub fn body(&self) -> (body: &str)
        ensures
            body@ == self.spec_body(),
    {
        match self {
            Message::Outgoing(XmppMessage::Chat(message)) => message.body.as_str(),
            Message::Incoming(XmppMessage::Chat(message)) => message.body.as_str(),
            Message::Outgoing(XmppMessage::Groupchat(message)) => message.body.as_str(),
            Message::Incoming(XmppMessage::Groupchat(message)) => message.body.as_str(),
            Message::Log(message) => message.body.as_str(),
        }
    }

    /// The stanza that carries the message to its recipient, if it has one.
    pub fn to_stanza(&self) -> (stanza: Option<MessageStanza>)
        ensures
            stanza is Some <==> self.outgoing_stanza() is Some,
            stanza matches Some(s) ==> Some(s@) == self.outgoing_stanza(),
    {
        match self {
            Message::Outgoing(XmppMessage::Chat(message)) => Some(
                MessageStanza {
                    to: message.to.clone(),
                    id: message.id.clone(),
                    type_: MessageType::Chat,
                    lang: String::new(),
                    body: message.body.clone(),
                },
            ),
            Message::Outgoing(XmppMessage::Groupchat(message)) => Some(
                MessageStanza {
                    to: message.to.clone(),
                    id: message.id.clone(),
                    type_: MessageType::Groupchat,
                    lang: String::new(),
                    body: message.body.clone(),
                },
            ),
            Message::Incoming(_) => None,
            Message::Log(_) => None,
        }
    }
}

impl Clone for ChatMessage {
    fn clone(&self) -> (r: Self)
        ensures
            r == *self,
    {
        ChatMessage {
            id: self.id.clone(),
            timestamp: self.timestamp,
            from: self.from.clone(),
            from_full: self.from_full.clone(),
            to: self.to.clone(),
            to_full: self.to_full.clone(),
            body: self.body.clone(),
        }
    }
}

impl Clone for GroupchatMessage {
    fn clone(&self) -> (r: Self)
        ensures
            r == *self,
    {
        GroupchatMessage {
            id: self.id.clone(),
            timestamp: self.timestamp,
            from: self.from.clone(),
            from_full: self.from_full.clone(),
            to: self.to.clone(),
            to_full: self.to_full.clone(),
            body: self.body.clone(),
        }
    }
}

impl Clone for XmppMessage {
    fn clone(&self) -> (r: Self)
        ensures
            r == *self,
    {
        match self {
            XmppMessage::Chat(message) => XmppMessage::Chat(message.clone()),
            XmppMessage::Groupchat(message) => XmppMessage::Groupchat(message.clone()),
        }
    }
}

impl Clone for LogMessage {
    fn clone(&self) -> (r: Self)
        ensures
            r == *self,
    {
        LogMessage { id: self.id.clone(), timestamp: self.timestamp, body: self.body.clone() }
    }
}

impl Clone for Message {
    fn clone(&self) -> (r: Self)
        ensures
            r == *self,
    {
        match self {
            Message::Incoming(message) => Message::Incoming(message.clone()),
            Message::Outgoing(message) => Message::Outgoing(message.clone()),
            Message::Log(message) => Message::Log(message.clone()),
        }
    }
}

impl PartialEq for Message {
    fn eq(&self, other: &Self) -> (r: bool) {
        *self.id() == *other.id()
    }
}

impl vstd::std_specs::cmp::PartialEqSpecImpl for Message {
    open spec fn obeys_eq_spec() -> bool {
        true
    }

    open spec fn eq_spec(&self, other: &Self) -> bool {
        self.spec_id() == other.spec_id()
    }
}

impl Eq for Message {}

impl Hash for Message {
    fn hash<H: Hasher>(&self, state: &mut H) {
        self.id().hash(state)
    }
}

impl TryFrom<Message> for Element {
    type Error = ();

    /// The element that carries an outgoing message. A message that came in
    /// and a log message have none.
    fn try_from(message: Message) -> (r: Result<Element, ()>) {
        match message.to_stanza() {
            Some(stanza) => Ok(stanza_element(&stanza)),
            None => Err(()),
        }
    }
}

impl vstd::std_specs::convert::TryFromSpecImpl<Message> for Element {
    open spec fn obeys_try_from_spec() -> bool {
        true
    }

    /// An outgoing message becomes the element of its stanza; a message that
    /// came in and a log message are refused.
    open spec fn try_from_spec(message: Message) -> Result<Element, ()> {
        match message.outgoing_stanza() {
            Some(stanza) => Ok(message_element(stanza)),
            None => Err(()),
        }
    }
}

} // verus!
