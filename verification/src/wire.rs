//! The calls that the library makes into other crates and into parts of the
//! standard library that the verifier does not know: building protocol
//! elements, drawing identifiers, reading the clock, posting on a channel and
//! hashing a string.
//!
//! Nothing in this file is proved. Each item says what it takes for granted.

use crate::message::MessageStanza;
use crate::message::MessageStanzaView;
use crate::message::MessageType;
use crate::message::Timestamp;
use futures::unsync::mpsc::UnboundedSender;
use futures::Sink;
use std::hash::Hash;
use std::hash::Hasher;
use tokio_xmpp::Packet;
use vstd::prelude::*;
use xmpp_parsers::message::Body;
use xmpp_parsers::Element;

verus! {

/// `xmpp_parsers::Element` (minidom's `Element`): one XML element of the
/// protocol. The library builds and carries elements; it never looks inside.
#[verifier::external_type_specification]
#[verifier::external_body]
pub struct ExElement(xmpp_parsers::Element);

/// `futures::unsync::mpsc::UnboundedSender`: the sending end of an unbounded
/// channel between tasks of one thread.
#[verifier::external_type_specification]
#[verifier::external_body]
#[verifier::reject_recursive_types(T)]
pub struct ExUnboundedSender<T>(futures::unsync::mpsc::UnboundedSender<T>);

/// `tokio_xmpp::Packet`: what travels on an XMPP stream.
#[verifier::external_type_specification]
#[verifier::external_body]
pub struct ExPacket(tokio_xmpp::Packet);

/// `Hash::hash` of `String`, of the standard library: feeds the string to the
/// hasher. Nothing is claimed of the hasher afterwards.
pub assume_specification<H: Hasher>[ <String as Hash>::hash ](s: &String, state: &mut H);

/// The element that `xmpp_parsers` writes for a message stanza: the result of
/// `Element::from` on an `xmpp_parsers::message::Message` that holds the
/// stanza's recipient, identifier, type and its one body under the stanza's
/// language key, and nothing else.
pub uninterp spec fn message_element(stanza: MessageStanzaView) -> Element;

/// The element that `xmpp_parsers` writes for the request that switches
/// message carbons on: the result of `Element::from` on
/// `Iq::from_set(id, carbons::Enable)`.
pub uninterp spec fn carbons_enable_element(id: Seq<char>) -> Element;

/// Builds the `xmpp_parsers::message::Message` that a stanza describes and
/// turns it into an element with `Element::from`. The contract gives the
/// result its name; that the same stanza always yields the same element is
/// taken for granted.
#[verifier::external_body]
pub(crate) fn stanza_element(stanza: &MessageStanza) -> (element: Element)
    ensures
        element == message_element(stanza@),
{
    let to = xmpp_parsers::BareJid { node: stanza.to.node.clone(), domain: stanza.to.domain.clone() };
    let mut message = xmpp_parsers::message::Message::new(Some(xmpp_parsers::Jid::Bare(to)));
    message.id = Some(stanza.id.clone());
    message.type_ = match stanza.type_ {
        MessageType::Chat => xmpp_parsers::message::MessageType::Chat,
        MessageType::Groupchat => xmpp_parsers::message::MessageType::Groupchat,
    };
    message.bodies.insert(stanza.lang.clone(), Body(stanza.body.clone()));
    message.into()
}

/// Builds `Iq::from_set(id, carbons::Enable)` and turns it into an element
/// with `Element::from`. The contract gives the result its name.
#[verifier::external_body]
pub(crate) fn carbons_enable(id: String) -> (element: Element)
    ensures
        element == carbons_enable_element(id@),
{
    xmpp_parsers::iq::Iq::from_set(id, xmpp_parsers::carbons::Enable).into()
}

/// Draws a random identifier with `uuid::Uuid::new_v4` and writes it with
/// `to_string`, which gives the hyphenated form: 36 characters. Which
/// identifier comes out is left open.
#[verifier::external_body]
pub(crate) fn fresh_id() -> (id: String)
    ensures
        id@.len() == 36,
{
    uuid::Uuid::new_v4().to_string()
}

/// Reads the clock with `chrono::Utc::now` and hands the instant back as
/// seconds since the epoch and nanoseconds within the second. Nothing is
/// claimed of the instant.
#[verifier::external_body]
pub(crate) fn now() -> (timestamp: Timestamp) {
    let now = chrono::Utc::now();
    Timestamp { secs: now.timestamp(), nanos: now.timestamp_subsec_nanos() }
}

/// Posts an element on a channel as `Packet::Stanza`, with `Sink::start_send`
/// on the sender. The result says whether the channel took it; nothing is
/// claimed of it, for it depends on the receiving end.
#[verifier::external_body]
pub(crate) fn post(sink: &UnboundedSender<Packet>, element: Element) -> (delivered: bool) {
    let mut sink = sink;
    sink.start_send(Packet::Stanza(element)).is_ok()
}

} // verus!
