use aparte::jid::{FullJid, Jid};
use aparte::message::{Message, Timestamp};
use aparte::registry::{enter, Key, Registry};

#[test]
fn empty_registry_finds_nothing() {
    let registry: Registry<String, u32> = Registry::new();
    assert_eq!(registry.len(), 0);
    assert_eq!(registry.find(&"a".to_string()), None);
    assert_eq!(registry.get(&"a".to_string()), None);
}

#[test]
fn entries_keep_the_order_of_their_first_entry() {
    let mut registry: Registry<String, u32> = Registry::new();
    registry.insert("a".to_string(), 1);
    registry.insert("b".to_string(), 2);
    registry.insert("c".to_string(), 3);
    registry.insert("a".to_string(), 4);
    assert_eq!(registry.len(), 3);
    assert_eq!(registry.find(&"a".to_string()), Some(0));
    assert_eq!(registry.find(&"b".to_string()), Some(1));
    assert_eq!(registry.find(&"c".to_string()), Some(2));
    assert_eq!(*registry.value_at(0), 4);
    assert_eq!(*registry.value_at(1), 2);
    assert_eq!(*registry.value_at(2), 3);
}

#[test]
fn entering_again_replaces_the_value() {
    let mut registry: Registry<u64, &str> = Registry::new();
    registry.insert(7, "first");
    registry.insert(7, "second");
    assert_eq!(registry.len(), 1);
    assert_eq!(registry.get(&7), Some(&"second"));
    assert_eq!(registry.get(&8), None);
}

#[test]
fn values_change_in_place() {
    let mut registry: Registry<u64, u32> = Registry::new();
    registry.insert(1, 10);
    registry.insert(2, 20);
    *registry.get_mut(&2).unwrap() += 1;
    *registry.value_at_mut(0) += 5;
    assert!(registry.get_mut(&3).is_none());
    assert_eq!(registry.get(&1), Some(&15));
    assert_eq!(registry.get(&2), Some(&21));
    assert_eq!(registry.len(), 2);
}

#[test]
fn enter_does_what_insert_does() {
    let mut registry: Registry<String, u32> = Registry::new();
    enter(1, "a".to_string(), &mut registry);
    enter(2, "a".to_string(), &mut registry);
    enter(3, "b".to_string(), &mut registry);
    assert_eq!(registry.len(), 2);
    assert_eq!(registry.get(&"a".to_string()), Some(&2));
    assert_eq!(registry.get(&"b".to_string()), Some(&3));
}

#[test]
fn keys_are_compared_by_content() {
    assert!("abc".to_string().same(&"abc".to_string()));
    assert!(!"abc".to_string().same(&"abd".to_string()));
    assert!(5u64.same(&5));
    assert!(!5u64.same(&6));
}

#[test]
fn message_copy_keeps_every_field() {
    let from = Jid::Full(FullJid::new("alice", "example.org", "laptop"));
    let to = Jid::Full(FullJid::new("bob", "example.net", "phone"));
    let message = Message::outgoing_chat("id", Timestamp { secs: 5, nanos: 6 }, &from, &to, "text");
    let copy = message.clone();
    assert!(copy == message);
    assert_eq!(copy.body(), "text");
    let stanza = copy.to_stanza().unwrap();
    assert_eq!(stanza.id, "id");
    assert_eq!(stanza.to.to_string(), "bob@example.net");
    let log = Message::log_with("l".to_string(), Timestamp { secs: 1, nanos: 2 }, "line".to_string());
    match log.clone() {
        Message::Log(inner) => {
            assert_eq!(inner.id, "l");
            assert_eq!(inner.timestamp, Timestamp { secs: 1, nanos: 2 });
            assert_eq!(inner.body, "line");
        }
        _ => panic!("not a log message"),
    }
}
