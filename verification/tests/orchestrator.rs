use aparte::command::Command;
use aparte::event::Event;
use aparte::jid::FullJid;
use aparte::message::Message;
use aparte::orchestrator::{Aparte, Session};
use aparte::plugin::{AnyPlugin, Plugin, Registered};
use aparte::plugins::carbons::CarbonsPlugin;
use futures::unsync::mpsc::{unbounded, UnboundedReceiver};
use futures::{Async, Stream};
use std::cell::RefCell;
use std::rc::Rc;
use tokio_xmpp::Packet;
use xmpp_parsers::Element;

type Handler = fn(&mut Session, &Command) -> Result<(), ()>;

type Journal = Rc<RefCell<Vec<String>>>;

struct Recorder<const K: u64> {
    name: &'static str,
    journal: Journal,
    refuses: bool,
}

impl<const K: u64> Recorder<K> {
    fn boxed(name: &'static str, journal: &Journal) -> Box<dyn AnyPlugin> {
        Box::new(Registered::new(Recorder::<K> { name, journal: Rc::clone(journal), refuses: false }))
    }

    fn refusing(name: &'static str, journal: &Journal) -> Box<dyn AnyPlugin> {
        Box::new(Registered::new(Recorder::<K> { name, journal: Rc::clone(journal), refuses: true }))
    }
}

fn record(event: &Event) -> String {
    match event {
        Event::Connected(jid) => format!("connected {}", jid.to_string()),
        Event::Disconnected(jid) => format!("disconnected {}", jid.to_string()),
        Event::Message(message) => format!("message {}", message.body()),
        Event::Join(jid) => format!("join {}", jid.to_string()),
    }
}

impl<const K: u64> Plugin for Recorder<K> {
    const KIND: u64 = K;

    fn new() -> Self {
        Recorder { name: "recorder", journal: Rc::new(RefCell::new(Vec::new())), refuses: false }
    }

    fn init(&mut self, _aparte: &mut Session) -> Result<(), ()> {
        self.journal.borrow_mut().push(format!("{}: init", self.name));
        if self.refuses {
            Err(())
        } else {
            Ok(())
        }
    }

    fn on_event(&mut self, _aparte: &mut Session, event: &Event) {
        self.journal.borrow_mut().push(format!("{}: {}", self.name, record(event)));
    }

    fn describe(&self) -> String {
        self.name.to_string()
    }
}

type First = Recorder<1>;
type Second = Recorder<2>;
type Third = Recorder<3>;

struct Other;

impl Plugin for Other {
    const KIND: u64 = 20;

    fn new() -> Self {
        Other
    }

    fn init(&mut self, _aparte: &mut Session) -> Result<(), ()> {
        Ok(())
    }

    fn on_event(&mut self, aparte: &mut Session, event: &Event) {
        if let Event::Join(_) = event {
            aparte.log("someone joined".to_string());
        }
    }

    fn describe(&self) -> String {
        "other".to_string()
    }
}

struct Echo;

impl Plugin for Echo {
    const KIND: u64 = 40;

    fn new() -> Self {
        Echo
    }

    fn init(&mut self, _aparte: &mut Session) -> Result<(), ()> {
        Ok(())
    }

    fn on_event(&mut self, aparte: &mut Session, event: &Event) {
        if let Event::Message(message) = event {
            aparte.log(format!("{}!", message.body()));
        }
    }

    fn describe(&self) -> String {
        "echo".to_string()
    }
}

fn other() -> Box<dyn AnyPlugin> {
    Box::new(Registered::new(Other))
}

fn carbons() -> Box<dyn AnyPlugin> {
    Box::new(Registered::new(CarbonsPlugin::new()))
}

fn journal() -> Journal {
    Rc::new(RefCell::new(Vec::new()))
}

fn entries(journal: &Journal) -> Vec<String> {
    journal.borrow().clone()
}

fn alice() -> FullJid {
    FullJid::new("alice", "example.org", "laptop")
}

fn bob() -> FullJid {
    FullJid::new("bob", "example.net", "phone")
}

fn received(receiver: &mut UnboundedReceiver<Packet>) -> Vec<Packet> {
    let mut packets = Vec::new();
    let mut spawned = futures::executor::spawn(futures::future::lazy(|| {
        while let Ok(Async::Ready(Some(packet))) = receiver.poll() {
            packets.push(packet);
        }
        Ok::<(), ()>(())
    }));
    let _ = spawned.wait_future();
    packets
}

fn ping() -> Element {
    Element::builder("ping").ns("urn:xmpp:ping").build()
}

fn say(session: &mut Session, command: &Command) -> Result<(), ()> {
    session.log(format!("say {}", command.args.join(" ")));
    Ok(())
}

fn fail(session: &mut Session, _command: &Command) -> Result<(), ()> {
    session.log("fail ran".to_string());
    Err(())
}

fn pending_texts(aparte: &mut Aparte<Handler>) -> Vec<String> {
    let mut texts = Vec::new();
    while let Some(event) = aparte.next_event() {
        texts.push(record(&event));
    }
    texts
}

#[test]
fn new_orchestrator_is_empty() {
    let mut aparte: Aparte<Handler> = Aparte::new();
    assert!(aparte.current_connection().is_none());
    assert!(aparte.get_plugin::<First>().is_none());
    assert!(aparte.next_event().is_none());
    assert_eq!(aparte.init(), Ok(()));
    assert_eq!(aparte.parse_command(&Command::new("help".to_string(), Vec::new())), Err(()));
}

#[test]
fn registering_a_kind_twice_keeps_the_second_instance() {
    let log = journal();
    let mut aparte: Aparte<Handler> = Aparte::new();
    assert_eq!(aparte.add_plugin::<First>(First::boxed("first", &log)), Ok(()));
    assert_eq!(aparte.add_plugin::<First>(First::boxed("second", &log)), Ok(()));
    assert_eq!(aparte.get_plugin::<First>().unwrap().describe(), "second");
    aparte.event(Event::Join(alice()));
    assert_eq!(entries(&log), vec!["second: join alice@example.org/laptop".to_string()]);
}

#[test]
fn registering_again_keeps_the_place_of_the_kind() {
    let log = journal();
    let mut aparte: Aparte<Handler> = Aparte::new();
    aparte.add_plugin::<First>(First::boxed("first", &log)).unwrap();
    aparte.add_plugin::<Other>(other()).unwrap();
    aparte.add_plugin::<Third>(Third::boxed("third", &log)).unwrap();
    aparte.add_plugin::<First>(First::boxed("again", &log)).unwrap();
    aparte.event(Event::Connected(alice()));
    assert_eq!(
        entries(&log),
        vec![
            "again: connected alice@example.org/laptop".to_string(),
            "third: connected alice@example.org/laptop".to_string(),
        ]
    );
}

#[test]
fn looking_up_an_unregistered_kind_finds_nothing() {
    let log = journal();
    let mut aparte: Aparte<Handler> = Aparte::new();
    aparte.add_plugin::<First>(First::boxed("only", &log)).unwrap();
    assert!(aparte.get_plugin::<Other>().is_none());
    assert!(aparte.get_plugin_mut::<Other>().is_none());
    assert!(aparte.get_plugin::<First>().is_some());
}

#[test]
fn plugin_is_found_under_its_kind() {
    let log = journal();
    let mut aparte: Aparte<Handler> = Aparte::new();
    aparte.add_plugin::<First>(First::boxed("recorder", &log)).unwrap();
    aparte.add_plugin::<Other>(other()).unwrap();
    aparte.add_plugin::<CarbonsPlugin>(carbons()).unwrap();
    assert_eq!(aparte.get_plugin::<First>().unwrap().describe(), "recorder");
    assert_eq!(aparte.get_plugin::<Other>().unwrap().describe(), "other");
    assert_eq!(aparte.get_plugin::<CarbonsPlugin>().unwrap().describe(), "XEP-0280: Message Carbons");
}

#[test]
fn plugin_changed_in_place_stays_registered() {
    let log = journal();
    let mut aparte: Aparte<Handler> = Aparte::new();
    aparte.add_plugin::<First>(First::boxed("before", &log)).unwrap();
    aparte.add_plugin::<Other>(other()).unwrap();
    {
        let slot = aparte.get_plugin_mut::<First>().unwrap();
        assert_eq!(slot.describe(), "before");
        *slot = First::boxed("after", &log);
    }
    assert_eq!(aparte.get_plugin::<First>().unwrap().describe(), "after");
    assert_eq!(aparte.get_plugin::<Other>().unwrap().describe(), "other");
}

#[test]
fn dispatching_an_unknown_command_fails() {
    let mut aparte: Aparte<Handler> = Aparte::new();
    aparte.add_command("say", say);
    let unknown = Command { name: "unknown".to_string(), args: Vec::new() };
    assert_eq!(aparte.parse_command(&unknown), Err(()));
    assert!(pending_texts(&mut aparte).is_empty());
}

#[test]
fn dispatching_runs_the_handler_of_that_name_once() {
    let mut aparte: Aparte<Handler> = Aparte::new();
    aparte.add_command("say", say);
    aparte.add_command("fail", fail);
    let command = Command::new("say".to_string(), vec!["hello".to_string(), "there".to_string()]);
    assert_eq!(aparte.parse_command(&command), Ok(()));
    assert_eq!(pending_texts(&mut aparte), vec!["message say hello there".to_string()]);
}

#[test]
fn dispatching_hands_back_what_the_handler_returns() {
    let mut aparte: Aparte<Handler> = Aparte::new();
    aparte.add_command("say", say);
    aparte.add_command("fail", fail);
    assert_eq!(aparte.parse_command(&Command::new("fail".to_string(), Vec::new())), Err(()));
    assert_eq!(pending_texts(&mut aparte), vec!["message fail ran".to_string()]);
}

#[test]
fn command_names_match_exactly() {
    let mut aparte: Aparte<Handler> = Aparte::new();
    aparte.add_command("say", say);
    assert_eq!(aparte.parse_command(&Command::new("sa".to_string(), Vec::new())), Err(()));
    assert_eq!(aparte.parse_command(&Command::new("Say".to_string(), Vec::new())), Err(()));
    assert_eq!(aparte.parse_command(&Command::new("say ".to_string(), Vec::new())), Err(()));
    assert!(pending_texts(&mut aparte).is_empty());
}

#[test]
fn registering_a_command_again_replaces_the_handler() {
    let mut aparte: Aparte<Handler> = Aparte::new();
    aparte.add_command("do", say);
    aparte.add_command("do", fail);
    assert_eq!(aparte.parse_command(&Command::new("do".to_string(), Vec::new())), Err(()));
    assert_eq!(pending_texts(&mut aparte), vec!["message fail ran".to_string()]);
}

#[test]
fn event_reaches_every_plugin_once() {
    let log = journal();
    let mut aparte: Aparte<Handler> = Aparte::new();
    aparte.add_plugin::<First>(First::boxed("one", &log)).unwrap();
    aparte.add_plugin::<Second>(Second::boxed("two", &log)).unwrap();
    aparte.add_plugin::<Third>(Third::boxed("three", &log)).unwrap();
    let message = Message::log_with("id".to_string(), aparte::message::Timestamp { secs: 0, nanos: 0 }, "m".to_string());
    aparte.event(Event::Message(message));
    assert_eq!(
        entries(&log),
        vec!["one: message m".to_string(), "two: message m".to_string(), "three: message m".to_string()]
    );
}

#[test]
fn event_without_plugins_does_nothing() {
    let mut aparte: Aparte<Handler> = Aparte::new();
    aparte.event(Event::Disconnected(alice()));
    assert!(aparte.next_event().is_none());
}

#[test]
fn log_reaches_every_plugin_with_the_text() {
    let log = journal();
    let mut aparte: Aparte<Handler> = Aparte::new();
    aparte.add_plugin::<First>(First::boxed("one", &log)).unwrap();
    aparte.add_plugin::<Second>(Second::boxed("two", &log)).unwrap();
    aparte.log("x".to_string());
    assert_eq!(entries(&log), vec!["one: message x".to_string(), "two: message x".to_string()]);
}

#[test]
fn events_left_by_plugins_wait_in_order() {
    let log = journal();
    let mut aparte: Aparte<Handler> = Aparte::new();
    aparte.add_plugin::<Other>(other()).unwrap();
    aparte.add_plugin::<First>(First::boxed("rec", &log)).unwrap();
    aparte.event(Event::Join(bob()));
    assert_eq!(entries(&log), vec!["rec: join bob@example.net/phone".to_string()]);
    let next = aparte.next_event().unwrap();
    match &next {
        Event::Message(message) => {
            assert!(matches!(message, Message::Log(_)));
            assert_eq!(message.body(), "someone joined");
            assert_eq!(message.id().chars().count(), 36);
        }
        _ => panic!("not a message"),
    }
    assert!(aparte.next_event().is_none());
    aparte.event(next);
    assert_eq!(
        entries(&log),
        vec!["rec: join bob@example.net/phone".to_string(), "rec: message someone joined".to_string()]
    );
}

#[test]
fn session_keeps_waiting_events_oldest_first() {
    let mut session = Session::new();
    session.event(Event::Join(alice()));
    session.log("second".to_string());
    session.event(Event::Disconnected(bob()));
    assert_eq!(record(&session.next_event().unwrap()), "join alice@example.org/laptop");
    assert_eq!(record(&session.next_event().unwrap()), "message second");
    assert_eq!(record(&session.next_event().unwrap()), "disconnected bob@example.net/phone");
    assert!(session.next_event().is_none());
}

#[test]
fn init_runs_every_plugin_once_in_order() {
    let log = journal();
    let mut aparte: Aparte<Handler> = Aparte::new();
    aparte.add_plugin::<First>(First::boxed("one", &log)).unwrap();
    aparte.add_plugin::<Second>(Second::boxed("two", &log)).unwrap();
    aparte.add_plugin::<CarbonsPlugin>(carbons()).unwrap();
    assert_eq!(aparte.init(), Ok(()));
    assert_eq!(entries(&log), vec!["one: init".to_string(), "two: init".to_string()]);
}

#[test]
fn init_stops_at_the_first_refusal() {
    let log = journal();
    let mut aparte: Aparte<Handler> = Aparte::new();
    aparte.add_plugin::<First>(First::boxed("one", &log)).unwrap();
    aparte.add_plugin::<Second>(Second::refusing("two", &log)).unwrap();
    aparte.add_plugin::<Third>(Third::boxed("three", &log)).unwrap();
    assert_eq!(aparte.init(), Err(()));
    assert_eq!(entries(&log), vec!["one: init".to_string(), "two: init".to_string()]);
}

#[test]
fn last_added_connection_is_the_current_one() {
    let (first, _first_end) = unbounded::<Packet>();
    let (second, _second_end) = unbounded::<Packet>();
    let mut aparte: Aparte<Handler> = Aparte::new();
    aparte.add_connection(alice(), first);
    assert!(aparte.current_connection().unwrap() == alice());
    aparte.add_connection(bob(), second);
    assert!(aparte.current_connection().unwrap() == bob());
}

#[test]
fn adding_an_account_again_makes_it_current_again() {
    let (first, _first_end) = unbounded::<Packet>();
    let (second, _second_end) = unbounded::<Packet>();
    let (third, mut third_end) = unbounded::<Packet>();
    let mut aparte: Aparte<Handler> = Aparte::new();
    aparte.add_connection(alice(), first);
    aparte.add_connection(bob(), second);
    aparte.add_connection(alice(), third);
    assert!(aparte.current_connection().unwrap() == alice());
    aparte.send(ping());
    assert_eq!(received(&mut third_end).len(), 1);
}

#[test]
fn send_posts_the_element_on_the_current_connection() {
    let (first, mut first_end) = unbounded::<Packet>();
    let (second, mut second_end) = unbounded::<Packet>();
    let mut aparte: Aparte<Handler> = Aparte::new();
    aparte.add_connection(alice(), first);
    aparte.add_connection(bob(), second);
    aparte.send(ping());
    assert!(received(&mut first_end).is_empty());
    let packets = received(&mut second_end);
    assert_eq!(packets.len(), 1);
    assert!(packets[0] == Packet::Stanza(ping()));
}

#[test]
fn send_without_a_connection_does_nothing() {
    let mut aparte: Aparte<Handler> = Aparte::new();
    aparte.send(ping());
    assert!(aparte.current_connection().is_none());
}

#[test]
fn send_swallows_a_closed_channel() {
    let (sink, end) = unbounded::<Packet>();
    let mut aparte: Aparte<Handler> = Aparte::new();
    aparte.add_connection(alice(), sink);
    drop(end);
    aparte.send(ping());
    assert!(aparte.current_connection().unwrap() == alice());
}

#[test]
fn session_target_is_the_current_connection() {
    let (first, _first_end) = unbounded::<Packet>();
    let (second, _second_end) = unbounded::<Packet>();
    let mut session = Session::new();
    assert!(session.target().is_none());
    session.add_connection(alice(), first);
    session.add_connection(bob(), second);
    assert!(session.target().unwrap().account == bob());
    assert!(session.current_connection().unwrap() == bob());
}

#[test]
fn carbons_asks_for_carbons_when_connected() {
    let plugin = CarbonsPlugin::new();
    let element = plugin.reaction(&Event::Connected(alice())).unwrap();
    assert_eq!(element.name(), "iq");
    assert_eq!(element.attr("type"), Some("set"));
    assert_eq!(element.attr("id").unwrap().chars().count(), 36);
    let children: Vec<&Element> = element.children().collect();
    assert_eq!(children.len(), 1);
    assert!(children[0].is("enable", "urn:xmpp:carbons:2"));
}

#[test]
fn carbons_sends_nothing_on_other_events() {
    let plugin = CarbonsPlugin::new();
    assert!(plugin.reaction(&Event::Disconnected(alice())).is_none());
    assert!(plugin.reaction(&Event::Join(alice())).is_none());
    assert!(plugin.reaction(&Event::Message(Message::log("x".to_string()))).is_none());
}

#[test]
fn carbons_request_gets_a_fresh_identifier_each_time() {
    let plugin = CarbonsPlugin::new();
    let first = plugin.enable();
    let second = plugin.enable();
    assert_eq!(first.attr("id").unwrap().chars().count(), 36);
    assert!(first.attr("id") != second.attr("id"));
}

#[test]
fn carbons_posts_its_request_on_the_connection() {
    let (sink, mut end) = unbounded::<Packet>();
    let mut aparte: Aparte<Handler> = Aparte::new();
    aparte.add_plugin::<CarbonsPlugin>(carbons()).unwrap();
    aparte.add_connection(alice(), sink);
    assert_eq!(aparte.init(), Ok(()));
    aparte.event(Event::Join(alice()));
    assert!(received(&mut end).is_empty());
    aparte.event(Event::Connected(alice()));
    let packets = received(&mut end);
    assert_eq!(packets.len(), 1);
    match &packets[0] {
        Packet::Stanza(element) => {
            assert_eq!(element.name(), "iq");
            assert!(element.children().next().unwrap().is("enable", "urn:xmpp:carbons:2"));
        }
        _ => panic!("not a stanza"),
    }
}

#[test]
fn carbons_describes_itself() {
    assert_eq!(CarbonsPlugin::new().describe(), "XEP-0280: Message Carbons");
    assert_eq!(CarbonsPlugin::KIND, 280);
    assert_eq!(CarbonsPlugin::feature(), "urn:xmpp:carbons:2");
}

#[test]
fn plugin_of_another_kind_is_refused() {
    let log = journal();
    let mut aparte: Aparte<Handler> = Aparte::new();
    assert_eq!(aparte.add_plugin::<Other>(First::boxed("stray", &log)), Err(()));
    assert!(aparte.get_plugin::<Other>().is_none());
    assert!(aparte.get_plugin::<First>().is_none());
    aparte.add_plugin::<First>(First::boxed("kept", &log)).unwrap();
    assert_eq!(aparte.add_plugin::<First>(other()), Err(()));
    assert_eq!(aparte.get_plugin::<First>().unwrap().describe(), "kept");
    aparte.event(Event::Join(alice()));
    assert_eq!(entries(&log), vec!["kept: join alice@example.org/laptop".to_string()]);
}

#[test]
fn registered_plugin_carries_the_tag_of_its_kind() {
    let log = journal();
    let mut aparte: Aparte<Handler> = Aparte::new();
    aparte.add_plugin::<Third>(Third::boxed("three", &log)).unwrap();
    aparte.add_plugin::<CarbonsPlugin>(carbons()).unwrap();
    assert_eq!(aparte.get_plugin::<Third>().unwrap().tag(), 3);
    assert_eq!(aparte.get_plugin::<CarbonsPlugin>().unwrap().tag(), 280);
    assert_eq!(Registered::new(Other).tag(), 20);
    assert_eq!(Registered::new(Other).plugin().describe(), "other");
}

#[test]
fn init_gives_ok_when_every_plugin_accepts() {
    let log = journal();
    let mut aparte: Aparte<Handler> = Aparte::new();
    aparte.add_plugin::<First>(First::boxed("one", &log)).unwrap();
    aparte.add_plugin::<Other>(other()).unwrap();
    aparte.add_plugin::<Third>(Third::boxed("three", &log)).unwrap();
    assert_eq!(aparte.init(), Ok(()));
    assert_eq!(entries(&log), vec!["one: init".to_string(), "three: init".to_string()]);
}

#[test]
fn init_hands_back_the_refusal_of_the_last_plugin() {
    let log = journal();
    let mut aparte: Aparte<Handler> = Aparte::new();
    aparte.add_plugin::<First>(First::boxed("one", &log)).unwrap();
    aparte.add_plugin::<Second>(Second::refusing("two", &log)).unwrap();
    assert_eq!(aparte.init(), Err(()));
    assert_eq!(entries(&log), vec!["one: init".to_string(), "two: init".to_string()]);
}

#[test]
fn event_leaves_the_connections_alone() {
    let log = journal();
    let (first, _first_end) = unbounded::<Packet>();
    let (second, _second_end) = unbounded::<Packet>();
    let mut aparte: Aparte<Handler> = Aparte::new();
    aparte.add_plugin::<First>(First::boxed("one", &log)).unwrap();
    aparte.add_plugin::<CarbonsPlugin>(carbons()).unwrap();
    aparte.add_connection(alice(), first);
    aparte.add_connection(bob(), second);
    aparte.event(Event::Disconnected(alice()));
    aparte.event(Event::Connected(alice()));
    assert!(aparte.current_connection().unwrap() == bob());
    assert_eq!(aparte.get_plugin::<First>().unwrap().describe(), "one");
}

#[test]
fn settle_hands_over_what_waits_and_what_follows() {
    let log = journal();
    let mut aparte: Aparte<Handler> = Aparte::new();
    aparte.add_plugin::<Other>(other()).unwrap();
    aparte.add_plugin::<First>(First::boxed("rec", &log)).unwrap();
    aparte.event(Event::Join(bob()));
    assert_eq!(aparte.settle(10), 1);
    assert!(aparte.next_event().is_none());
    assert_eq!(
        entries(&log),
        vec!["rec: join bob@example.net/phone".to_string(), "rec: message someone joined".to_string()]
    );
    assert_eq!(aparte.settle(10), 0);
}

#[test]
fn settle_stops_at_its_limit() {
    let log = journal();
    let mut aparte: Aparte<Handler> = Aparte::new();
    aparte.add_plugin::<Echo>(Box::new(Registered::new(Echo))).unwrap();
    aparte.add_plugin::<First>(First::boxed("rec", &log)).unwrap();
    aparte.log("a".to_string());
    assert_eq!(aparte.settle(3), 3);
    assert_eq!(
        entries(&log),
        vec![
            "rec: message a".to_string(),
            "rec: message a!".to_string(),
            "rec: message a!!".to_string(),
            "rec: message a!!!".to_string(),
        ]
    );
    assert!(aparte.next_event().is_some());
    assert_eq!(aparte.settle(0), 0);
}

#[test]
fn kinds_with_one_tag_take_each_others_place() {
    let log = journal();
    let mut aparte: Aparte<Handler> = Aparte::new();
    aparte.add_plugin::<Recorder<20>>(Recorder::<20>::boxed("recorder", &log)).unwrap();
    aparte.add_plugin::<Other>(other()).unwrap();
    assert_eq!(aparte.get_plugin::<Other>().unwrap().describe(), "other");
    assert_eq!(aparte.get_plugin::<Recorder<20>>().unwrap().describe(), "other");
}
