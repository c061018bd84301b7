use aparte::command::{Command, CommandError};
use aparte::contact::{Contact, Group, Presence};
use aparte::jid::{BareJid, FullJid, Jid};
use std::collections::hash_map::DefaultHasher;
use std::hash::{Hash, Hasher};
use xmpp_parsers::roster::Subscription;

fn hash_of<T: Hash>(value: &T) -> u64 {
    let mut hasher = DefaultHasher::new();
    value.hash(&mut hasher);
    hasher.finish()
}

fn contact(jid: BareJid, name: Option<&str>, presence: Presence) -> Contact {
    Contact {
        jid,
        name: name.map(|n| n.to_string()),
        subscription: Subscription::Both,
        presence,
        groups: vec![Group("friends".to_string())],
    }
}

#[test]
fn full_address_is_written_with_node_and_resource() {
    assert_eq!(FullJid::new("alice", "example.org", "laptop").to_string(), "alice@example.org/laptop");
}

#[test]
fn full_address_without_node_is_written_without_at_sign() {
    let jid = FullJid { node: None, domain: "example.org".to_string(), resource: "r".to_string() };
    assert_eq!(jid.to_string(), "example.org/r");
}

#[test]
fn bare_address_is_written_without_resource() {
    assert_eq!(BareJid::new("alice", "example.org").to_string(), "alice@example.org");
    assert_eq!(BareJid::domain("example.org").to_string(), "example.org");
}

#[test]
fn text_form_agrees_with_the_jid_crate() {
    let ours = FullJid::new("alice", "example.org", "laptop").to_string();
    let theirs = xmpp_parsers::FullJid::new("alice", "example.org", "laptop").to_string();
    assert_eq!(ours, theirs);
    let ours = BareJid::domain("example.org").to_string();
    let theirs = xmpp_parsers::BareJid::domain("example.org").to_string();
    assert_eq!(ours, theirs);
}

#[test]
fn bare_form_drops_the_resource() {
    let full = FullJid::new("alice", "example.org", "laptop");
    assert!(full.to_bare() == BareJid::new("alice", "example.org"));
    assert!(Jid::Full(full).to_bare() == BareJid::new("alice", "example.org"));
    let bare = BareJid::new("room", "muc.example.org");
    assert!(Jid::Bare(bare.clone()).to_bare() == bare);
}

#[test]
fn addresses_are_equal_when_all_parts_are() {
    assert!(FullJid::new("a", "b", "c") == FullJid::new("a", "b", "c"));
    assert!(FullJid::new("a", "b", "c") != FullJid::new("a", "b", "d"));
    assert!(BareJid::new("a", "b") != BareJid::domain("b"));
    assert!(Jid::Bare(BareJid::new("a", "b")) != Jid::Full(FullJid::new("a", "b", "c")));
    assert!(Jid::Full(FullJid::new("a", "b", "c")).clone() == Jid::Full(FullJid::new("a", "b", "c")));
}

#[test]
fn groups_are_equal_by_name() {
    assert!(Group("work".to_string()) == Group("work".to_string()));
    assert!(Group("work".to_string()) != Group("home".to_string()));
    assert_eq!(hash_of(&Group("work".to_string())), hash_of(&Group("work".to_string())));
    assert!(Group("work".to_string()).clone() == Group("work".to_string()));
}

#[test]
fn contacts_are_equal_by_address_alone() {
    let a = contact(BareJid::new("carol", "example.org"), Some("Carol"), Presence::Available);
    let b = contact(BareJid::new("carol", "example.org"), None, Presence::Dnd);
    let c = contact(BareJid::new("dave", "example.org"), Some("Carol"), Presence::Available);
    assert!(a == b);
    assert_eq!(hash_of(&a), hash_of(&b));
    assert!(a != c);
}

#[test]
fn contact_copy_keeps_every_field() {
    let a = contact(BareJid::new("carol", "example.org"), Some("Carol"), Presence::Xa);
    let b = a.clone();
    assert!(b.jid == a.jid);
    assert_eq!(b.name, Some("Carol".to_string()));
    assert_eq!(b.subscription, Subscription::Both);
    assert_eq!(b.presence, Presence::Xa);
    assert_eq!(b.groups.len(), 1);
    assert!(b.groups[0] == Group("friends".to_string()));
}

#[test]
fn presences_are_told_apart() {
    assert_eq!(Presence::Away, Presence::Away);
    assert!(Presence::Unavailable != Presence::Available);
    assert!(Presence::Chat != Presence::Dnd);
}

#[test]
fn command_keeps_name_and_arguments() {
    let command = Command::new("join".to_string(), vec!["room".to_string(), "nick".to_string()]);
    assert_eq!(command.name, "join");
    assert_eq!(command.args, vec!["room".to_string(), "nick".to_string()]);
    let copy = command.clone();
    assert_eq!(copy.name, "join");
    assert_eq!(copy.args, command.args);
}

#[test]
fn command_may_have_no_arguments() {
    let command = Command::new("quit".to_string(), Vec::new());
    assert_eq!(command.name, "quit");
    assert!(command.args.is_empty());
}

#[test]
fn command_errors_wrap_their_causes() {
    let io = std::io::Error::new(std::io::ErrorKind::Other, "closed");
    assert!(matches!(CommandError::from(io), CommandError::Io(_)));
    let utf8 = String::from_utf8(vec![0xff]).unwrap_err();
    assert!(matches!(CommandError::from(utf8), CommandError::Utf8(_)));
    let parse = shell_words::split("unclosed \"quote").unwrap_err();
    assert!(matches!(CommandError::from(parse), CommandError::Parse(_)));
}
