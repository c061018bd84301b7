//! The orchestrator: the state of the session, the plugins, the commands and
//! the connections, and the entry points that tie them together.

use crate::command::Command;
use crate::event::Event;
use crate::jid::FullJid;
use crate::jid::FullJidView;
use crate::message::Message;
use crate::plugin::accepted;
use crate::plugin::grown;
use crate::plugin::last_step;
use crate::plugin::lemma_grows_by_one;
use crate::plugin::lemma_run_goes_on;
use crate::plugin::ran;
use crate::plugin::tagged;
use crate::plugin::AnyPlugin;
use crate::plugin::Plugin;
use crate::plugin::PluginCall;
use crate::plugin::Plugins;
use crate::plugin::Step;
use crate::registry::distinct;
use crate::registry::enter;
use crate::registry::lemma_same_keys_keep_distinct;
use crate::registry::entered;
use crate::registry::lemma_position_found;
use crate::registry::place;
use crate::registry::same_except;
use crate::registry::lookup;
use crate::registry::position;
use crate::registry::upsert;
use crate::registry::Registry;
use crate::wire::post;
use futures::unsync::mpsc::UnboundedSender;
use tokio_xmpp::Packet;
use vstd::prelude::*;
use vstd::string::StringExecFns;
use xmpp_parsers::Element;

verus! {

/// A live connection: the channel on which elements leave, and the account
/// session that it belongs to.
pub struct Connection {
    pub sink: UnboundedSender<Packet>,
    pub account: FullJid,
}

/// The connections, each under the text form of its account.
pub type Connections = Seq<(Seq<char>, Connection)>;

/// The account of the connection under `current`, if there is one.
pub open spec fn account_of(connections: Connections, current: Option<Seq<char>>) -> Option<
    FullJidView,
> {
    match current {
        Some(key) => match lookup(connections, key) {
            Some(connection) => Some(connection.account@),
            None => None,
        },
        None => None,
    }
}

/// The connection under `current`, if there is one.
pub open spec fn connection_of(connections: Connections, current: Option<Seq<char>>) -> Option<
    Connection,
> {
    match current {
        Some(key) => lookup(connections, key),
        None => None,
    }
}

/// Of two connections added one after the other, the second is the current one.
pub proof fn lemma_current_is_last_added(
    connections: Connections,
    first: Connection,
    second: Connection,
)
    ensures
        account_of(
            upsert(
                upsert(connections, first.account@.text(), first),
                second.account@.text(),
                second,
            ),
            Some(second.account@.text()),
        ) == Some(second.account@),
{
    crate::registry::lemma_lookup_upsert_same(
        upsert(connections, first.account@.text(), first),
        second.account@.text(),
        second,
    );
}

/// The record of one element that was posted on a connection.
pub struct Posted {
    /// The account of the connection.
    pub account: FullJidView,
    /// The element.
    pub element: Element,
}

/// The record after `element` was sent: it was posted on the connection
/// under `current`, or, without such a connection, nowhere.
pub open spec fn posted_after(
    posted: Seq<Posted>,
    connections: Connections,
    current: Option<Seq<char>>,
    element: Element,
) -> Seq<Posted> {
    match account_of(connections, current) {
        Some(account) => posted.push(Posted { account, element }),
        None => posted,
    }
}

/// The part of the orchestrator's state that plugins and command handlers
/// work on: the connections, which of them is the current one, the events
/// that wait to be handed to the plugins, and the record of what was posted.
pub struct Session {
    connections: Registry<String, Connection>,
    current_connection: Option<String>,
    pending: Vec<Event>,
    posted: Ghost<Seq<Posted>>,
}

impl Session {
    /// The connections, in the order in which their accounts were first added.
    pub closed spec fn connections(&self) -> Connections {
        self.connections@
    }

    /// The key of the current connection.
    pub closed spec fn current(&self) -> Option<Seq<char>> {
        match self.current_connection {
            Some(key) => Some(key@),
            None => None,
        }
    }

    /// The events that wait to be handed to the plugins, oldest first.
    pub closed spec fn pending(&self) -> Seq<Event> {
        self.pending@
    }

    /// The elements posted on connections so far, oldest first, whether or
    /// not the channel took them.
    pub closed spec fn posted(&self) -> Seq<Posted> {
        self.posted@
    }

    /// A session without connections and without waiting events.
    pub fn new() -> (session: Self)
        ensures
            session.connections() == Seq::<(Seq<char>, Connection)>::empty(),
            session.current() is None,
            session.pending() == Seq::<Event>::empty(),
            session.posted() == Seq::<Posted>::empty(),
            distinct(session.connections()),
    {
        Session {
            connections: Registry::new(),
            current_connection: None,
            pending: Vec::new(),
            posted: Ghost(Seq::empty()),
        }
    }

    /// Adds a connection under the text form of its account and makes it the
    /// current one. A connection that was there under the same key is dropped.
    pub fn add_connection(&mut self, account: FullJid, sink: UnboundedSender<Packet>)
        ensures
            final(self).connections() == upsert(
                old(self).connections(),
                account@.text(),
                Connection { sink, account },
            ),
            final(self).current() == Some(account@.text()),
            final(self).pending() == old(self).pending(),
            final(self).posted() == old(self).posted(),
            distinct(old(self).connections()) ==> distinct(final(self).connections()),
    {
        let key = account.to_string();
        let current = key.clone();
        self.connections.insert(key, Connection { sink, account });
        self.current_connection = Some(current);
    }

    /// The account of the current connection.
    pub fn current_connection(&self) -> (account: Option<FullJid>)
        ensures
            match account {
                Some(account) => account_of(self.connections(), self.current()) == Some(account@),
                None => account_of(self.connections(), self.current()) is None,
            },
    {
        match self.target() {
            Some(connection) => Some(connection.account.clone()),
            None => None,
        }
    }

    /// The connection on which `send` delivers: the current one.
    pub fn target(&self) -> (connection: Option<&Connection>)
        ensures
            match connection {
                Some(connection) => connection_of(self.connections(), self.current()) == Some(
                    *connection,
                ),
                None => connection_of(self.connections(), self.current()) is None,
            },
    {
        match &self.current_connection {
            Some(key) => self.connections.get(key),
            None => None,
        }
    }

    /// Posts an element on the channel of the current connection, and records
    /// it. Whether the channel took it is not reported; without a connection
    /// nothing is posted.
    pub fn send(&mut self, element: Element)
        ensures
            final(self).posted() == posted_after(
                old(self).posted(),
                old(self).connections(),
                old(self).current(),
                element,
            ),
            final(self).connections() == old(self).connections(),
            final(self).current() == old(self).current(),
            final(self).pending() == old(self).pending(),
    {
        let ghost posted = posted_after(
            self.posted(),
            self.connections(),
            self.current(),
            element,
        );
        match self.target() {
            Some(connection) => {
                let _ = post(&connection.sink, element);
            },
            None => {},
        }
        self.posted = Ghost(posted);
    }

    /// Leaves an event for the plugins. It waits behind those that wait already.
    pub fn event(&mut self, event: Event)
        ensures
            final(self).pending() == old(self).pending().push(event),
            final(self).connections() == old(self).connections(),
            final(self).current() == old(self).current(),
            final(self).posted() == old(self).posted(),
    {
        self.pending.push(event);
    }

    /// Leaves a log message for the plugins, as an event. The message is made
    /// now, with a fresh identifier of 36 characters.
    pub fn log(&mut self, message: String)
        ensures
            final(self).pending().len() == old(self).pending().len() + 1,
            final(self).pending().drop_last() == old(self).pending(),
            final(self).pending().last() matches Event::Message(made) && made is Log
                && made.spec_body() == message@ && made.spec_id().len() == 36,
            final(self).connections() == old(self).connections(),
            final(self).current() == old(self).current(),
            final(self).posted() == old(self).posted(),
    {
        let made = Message::log(message);
        let ghost before = self.pending@;
        self.pending.push(Event::Message(made));
        assert(self.pending@.drop_last() =~= before);
    }

    /// Takes the event that has waited longest.
    pub fn next_event(&mut self) -> (event: Option<Event>)
        ensures
            final(self).connections() == old(self).connections(),
            final(self).current() == old(self).current(),
            final(self).posted() == old(self).posted(),
            match event {
                Some(event) => old(self).pending().len() > 0 && event == old(self).pending()[0]
                    && final(self).pending() == old(self).pending().drop_first(),
                None => old(self).pending().len() == 0 && final(self).pending() == old(self).pending(),
            },
    {
        if self.pending.len() == 0 {
            None
        } else {
            let ghost before = self.pending@;
            let event = self.pending.remove(0);
            assert(self.pending@ =~= before.drop_first());
            Some(event)
        }
    }
}

/// Whether a command handler may be called on every session and command.
pub open spec fn callable<H: Fn(&mut Session, &Command) -> Result<(), ()>>(handler: H) -> bool {
    forall|session: &mut Session, command: &Command|
        call_requires(handler, (session, command))
}

/// Runs a command handler once.
fn run<H: Fn(&mut Session, &Command) -> Result<(), ()>>(
    handler: &H,
    session: &mut Session,
    command: &Command,
) -> (r: Result<(), ()>)
    requires
        callable(*handler),
    ensures
        exists|lent: &mut Session|
            *lent == *old(session) && *final(lent) == *final(session) && #[trigger] call_ensures(
                *handler,
                (lent, command),
                r,
            ),
{
    let r = (*handler)(session, command);
    r
}

/// The command handlers, each under the name of its command.
pub type Commands<H> = Seq<(Seq<char>, H)>;

/// Whether every handler of a command table may be called on every session
/// and command.
pub open spec fn all_callable<H: Fn(&mut Session, &Command) -> Result<(), ()>>(
    commands: Commands<H>,
) -> bool {
    forall|i: int| 0 <= i < commands.len() ==> callable((#[trigger] commands[i]).1)
}

/// Registering two plugins under one kind, one after the other, leaves one
/// place for that kind: the second plugin took the place of the first, no
/// plugin was added beside it, and the kind is found at that place.
pub proof fn lemma_last_registration_wins(
    before: Plugins,
    between: Plugins,
    after: Plugins,
    kind: u64,
)
    requires
        entered(before, between, kind),
        entered(between, after, kind),
    ensures
        after.len() == between.len(),
        place(between, kind) == place(before, kind),
        position(after, kind) == Some(place(before, kind)),
        same_except(between, after, place(before, kind)),
{
    crate::registry::lemma_entered_twice(before, between, after, kind);
}

/// The orchestrator. `H` is the type of the command handlers: a handler takes
/// the session and the command, and says whether it succeeded.
pub struct Aparte<H> {
    commands: Registry<String, H>,
    plugins: Registry<u64, Box<dyn AnyPlugin>>,
    session: Session,
}

impl<H: Fn(&mut Session, &Command) -> Result<(), ()>> Aparte<H> {
    /// The command handlers, in the order in which their names were first added.
    pub closed spec fn commands(&self) -> Commands<H> {
        self.commands@
    }

    /// The plugins, in the order in which their kinds were first added.
    pub closed spec fn plugins(&self) -> Plugins {
        self.plugins@
    }

    /// The session.
    pub closed spec fn session(&self) -> Session {
        self.session
    }

    /// Every registered command handler may be called on every session and
    /// command.
    pub open spec fn wf(&self) -> bool {
        all_callable(self.commands())
    }

    /// An orchestrator without commands, plugins or connections.
    pub fn new() -> (aparte: Self)
        ensures
            aparte.wf(),
            aparte.commands() == Seq::<(Seq<char>, H)>::empty(),
            aparte.plugins() == Seq::<(u64, Box<dyn AnyPlugin>)>::empty(),
            aparte.session().connections() == Seq::<(Seq<char>, Connection)>::empty(),
            aparte.session().current() is None,
            aparte.session().pending() == Seq::<Event>::empty(),
            aparte.session().posted() == Seq::<Posted>::empty(),
            distinct(aparte.commands()),
            distinct(aparte.plugins()),
            tagged(aparte.plugins()),
            distinct(aparte.session().connections()),
    {
        Self { commands: Registry::new(), plugins: Registry::new(), session: Session::new() }
    }

    /// Registers a command handler under a name. A handler that was there
    /// under the same name is dropped.
    pub fn add_command(&mut self, name: &str, command: H)
        requires
            old(self).wf(),
            callable(command),
        ensures
            final(self).wf(),
            final(self).commands() == upsert(old(self).commands(), name@, command),
            distinct(old(self).commands()) ==> distinct(final(self).commands()),
            final(self).plugins() == old(self).plugins(),
            final(self).session() == old(self).session(),
    {
        let ghost before = self.commands@;
        self.commands.insert(String::from_str(name), command);
        proof {
            let after = self.commands@;
            lemma_position_found(before, name@);
            assert forall|i: int| 0 <= i < after.len() implies callable((#[trigger] after[i]).1) by {
                if position(before, name@) == Some(i) || i == before.len() {
                    assert(after[i].1 == command);
                } else {
                    assert(after[i] == before[i]);
                    assert(callable(old(self).commands()[i].1));
                }
            }
        }
    }

    /// Runs the handler at a place of the command table, once.
    fn run_at(&mut self, index: usize, command: &Command) -> (r: Result<(), ()>)
        requires
            old(self).wf(),
            index < old(self).commands().len(),
        ensures
            final(self).commands() == old(self).commands(),
            final(self).plugins() == old(self).plugins(),
            exists|session: &mut Session|
                *session == old(self).session() && *final(session) == final(self).session()
                    && #[trigger] call_ensures(
                    old(self).commands()[index as int].1,
                    (session, command),
                    r,
                ),
    {
        assert(callable(old(self).commands()[index as int].1));
        let r = run(self.commands.value_at(index), &mut self.session, command);
        r
    }

    /// Runs the handler registered under the name of the command, once, and
    /// hands back what it returns. Without such a handler the call fails and
    /// nothing changes.
    pub fn parse_command(&mut self, command: &Command) -> (r: Result<(), ()>)
        requires
            old(self).wf(),
        ensures
            final(self).wf(),
            final(self).commands() == old(self).commands(),
            final(self).plugins() == old(self).plugins(),
            (forall|i: int|
                0 <= i < old(self).commands().len() ==> (#[trigger] old(self).commands()[i]).0
                    != command.name@) ==> r is Err,
            match lookup(old(self).commands(), command.name@) {
                Some(handler) => exists|session: &mut Session|
                    *session == old(self).session() && *final(session) == final(self).session()
                        && #[trigger] call_ensures(handler, (session, command), r),
                None => r is Err && final(self).session() == old(self).session(),
            },
    {
        match self.commands.find(&command.name) {
            Some(index) => {
                let r = self.run_at(index, command);
                proof {
                    let handler = old(self).commands()[index as int].1;
                    let lent = choose|session: &mut Session|
                        *session == old(self).session() && *final(session) == self.session()
                            && #[trigger] call_ensures(handler, (session, command), r);
                    assert(lookup(old(self).commands(), command.name@) == Some(handler));
                    assert(call_ensures(
                        lookup(old(self).commands(), command.name@)->0,
                        (lent, command),
                        r,
                    ));
                    assert forall|i: int| 0 <= i < self.commands().len() implies callable(
                        (#[trigger] self.commands()[i]).1,
                    ) by {
                        assert(callable(old(self).commands()[i].1));
                    }
                }
                r
            },
            None => Err(()),
        }
    }

    /// Registers a plugin under the kind `T`. A plugin that is not of that
    /// kind is refused and nothing changes. A plugin that was there under the
    /// same kind is dropped: the last one registered is the one that stays.
    pub fn add_plugin<T: Plugin>(&mut self, plugin: Box<dyn AnyPlugin>) -> (r: Result<(), ()>)
        ensures
            r is Ok <==> plugin.kind() == T::KIND,
            r is Err ==> final(self).plugins() == old(self).plugins(),
            r is Ok ==> entered(old(self).plugins(), final(self).plugins(), T::KIND),
            r is Ok ==> final(self).plugins()[place(old(self).plugins(), T::KIND)].1 == plugin,
            tagged(old(self).plugins()) ==> tagged(final(self).plugins()),
            distinct(old(self).plugins()) ==> distinct(final(self).plugins()),
            final(self).commands() == old(self).commands(),
            final(self).session() == old(self).session(),
    {
        if plugin.tag() != T::KIND {
            return Err(());
        }
        let ghost before = self.plugins@;
        enter(plugin, T::KIND, &mut self.plugins);
        proof {
            lemma_position_found(before, T::KIND);
            let after = self.plugins@;
            let at = place(before, T::KIND);
            if tagged(before) {
                assert forall|i: int| 0 <= i < after.len() implies (#[trigger] after[i]).1.kind()
                    == after[i].0 by {
                    if i != at {
                        assert(after[i] == before[i]);
                        assert(before[i].1.kind() == before[i].0);
                    }
                }
            }
        }
        Ok(())
    }

    /// The plugin registered under the kind `T`, if there is one. Where every
    /// plugin stands under the tag of its own kind, it is of that kind.
    pub fn get_plugin<T: Plugin>(&self) -> (plugin: Option<&Box<dyn AnyPlugin>>)
        ensures
            match plugin {
                Some(plugin) => position(self.plugins(), T::KIND) matches Some(i) && *plugin
                    == self.plugins()[i].1 && (tagged(self.plugins()) ==> plugin.kind()
                    == T::KIND),
                None => position(self.plugins(), T::KIND) is None && forall|i: int|
                    0 <= i < self.plugins().len() ==> (#[trigger] self.plugins()[i]).0 != T::KIND,
            },
    {
        let kind = T::KIND;
        proof {
            lemma_position_found(self.plugins@, kind);
        }
        self.plugins.get(&kind)
    }

    /// The plugin registered under the kind `T`, if there is one, to change
    /// it in place. Nothing else changes. Every plugin still stands under
    /// the tag of its own kind as long as the caller leaves one of kind `T`.
    pub fn get_plugin_mut<T: Plugin>(&mut self) -> (plugin: Option<&mut Box<dyn AnyPlugin>>)
        ensures
            final(self).commands() == old(self).commands(),
            final(self).session() == old(self).session(),
            distinct(old(self).plugins()) ==> distinct(final(self).plugins()),
            match plugin {
                Some(plugin) => position(old(self).plugins(), T::KIND) matches Some(i)
                    && *plugin == old(self).plugins()[i].1 && final(self).plugins()[i].1 == *final(plugin) && same_except(old(self).plugins(), final(self).plugins(), i) && (tagged(
                    old(self).plugins(),
                ) ==> plugin.kind() == T::KIND),
                None => position(old(self).plugins(), T::KIND) is None && final(self).plugins() == old(self).plugins(),
            },
    {
        let kind = T::KIND;
        proof {
            lemma_position_found(self.plugins@, kind);
        }
        self.plugins.get_mut(&kind)
    }

    /// Adds a connection and makes it the current one.
    pub fn add_connection(&mut self, account: FullJid, sink: UnboundedSender<Packet>)
        ensures
            final(self).session().connections() == upsert(
                old(self).session().connections(),
                account@.text(),
                Connection { sink, account },
            ),
            final(self).session().current() == Some(account@.text()),
            final(self).session().pending() == old(self).session().pending(),
            final(self).session().posted() == old(self).session().posted(),
            distinct(old(self).session().connections()) ==> distinct(
                final(self).session().connections(),
            ),
            final(self).commands() == old(self).commands(),
            final(self).plugins() == old(self).plugins(),
    {
        self.session.add_connection(account, sink);
    }

    /// The account of the current connection.
    pub fn current_connection(&self) -> (account: Option<FullJid>)
        ensures
            match account {
                Some(account) => account_of(
                    self.session().connections(),
                    self.session().current(),
                ) == Some(account@),
                None => account_of(self.session().connections(), self.session().current())
                    is None,
            },
    {
        self.session.current_connection()
    }

    /// Initialises the plugins, each once, in the order in which their kinds
    /// were first registered, each on the session as the one before it left
    /// it. The run ends with `Ok` when every plugin accepted. The first
    /// refusal ends the run and is handed back: the plugins after it are not
    /// called, and those initialised before it stay initialised.
    pub fn init(&mut self) -> (r: Result<(), ()>)
        ensures
            final(self).commands() == old(self).commands(),
            old(self).plugins().len() == 0 ==> r is Ok,
            tagged(old(self).plugins()) ==> tagged(final(self).plugins()),
            distinct(old(self).plugins()) ==> distinct(final(self).plugins()),
            match r {
                Ok(_) => ran(
                    old(self).plugins(),
                    final(self).plugins(),
                    PluginCall::Init,
                    old(self).session(),
                    final(self).session(),
                    old(self).plugins().len() as int,
                ) && accepted(final(self).plugins(), old(self).plugins().len() as int),
                Err(_) => exists|count: int|
                    0 < count <= old(self).plugins().len() && #[trigger] ran(
                        old(self).plugins(),
                        final(self).plugins(),
                        PluginCall::Init,
                        old(self).session(),
                        final(self).session(),
                        count,
                    ) && accepted(final(self).plugins(), count - 1) && last_step(
                        final(self).plugins(),
                        count - 1,
                    ).refused,
            },
    {
        let n: usize = self.plugins.len();
        let mut i: usize = 0;
        while i < n
            invariant
                i <= n,
                n == old(self).plugins@.len(),
                self.commands == old(self).commands,
                ran(
                    old(self).plugins@,
                    self.plugins@,
                    PluginCall::Init,
                    old(self).session,
                    self.session,
                    i as int,
                ),
                accepted(self.plugins@, i as int),
            decreases n - i,
        {
            let ghost prev = self.plugins@;
            let ghost mid = self.session;
            let r = self.plugins.value_at_mut(i).init(&mut self.session);
            proof {
                lemma_run_goes_on(
                    old(self).plugins@,
                    prev,
                    self.plugins@,
                    PluginCall::Init,
                    old(self).session,
                    mid,
                    self.session,
                    r is Err,
                    i as int,
                );
            }
            if let Err(err) = r {
                proof {
                    lemma_run_keeps_tags_if(
                        old(self).plugins@,
                        self.plugins@,
                        PluginCall::Init,
                        old(self).session,
                        self.session,
                        i + 1,
                    );
                    assert(ran(
                        old(self).plugins(),
                        self.plugins(),
                        PluginCall::Init,
                        old(self).session(),
                        self.session(),
                        i + 1,
                    ));
                }
                return Err(err);
            }
            i += 1;
        }
        proof {
            lemma_run_keeps_tags_if(
                old(self).plugins@,
                self.plugins@,
                PluginCall::Init,
                old(self).session,
                self.session,
                n as int,
            );
        }
        Ok(())
    }

    /// Posts an element on the channel of the current connection, and records
    /// it. Whether the channel took it is not reported; without a connection
    /// nothing is posted.
    pub fn send(&mut self, element: Element)
        ensures
            final(self).session().posted() == posted_after(
                old(self).session().posted(),
                old(self).session().connections(),
                old(self).session().current(),
                element,
            ),
            final(self).session().connections() == old(self).session().connections(),
            final(self).session().current() == old(self).session().current(),
            final(self).session().pending() == old(self).session().pending(),
            final(self).commands() == old(self).commands(),
            final(self).plugins() == old(self).plugins(),
    {
        self.session.send(element);
    }

    /// Hands an event to every plugin, once each, in the order in which their
    /// kinds were first registered, each on the session as the one before it
    /// left it. Events that the plugins leave while they handle this one wait
    /// in the session.
    pub fn event(&mut self, event: Event)
        ensures
            final(self).commands() == old(self).commands(),
            tagged(old(self).plugins()) ==> tagged(final(self).plugins()),
            distinct(old(self).plugins()) ==> distinct(final(self).plugins()),
            ran(
                old(self).plugins(),
                final(self).plugins(),
                PluginCall::Event(event),
                old(self).session(),
                final(self).session(),
                old(self).plugins().len() as int,
            ),
    {
        let n: usize = self.plugins.len();
        let mut i: usize = 0;
        while i < n
            invariant
                i <= n,
                n == old(self).plugins@.len(),
                self.commands == old(self).commands,
                ran(
                    old(self).plugins@,
                    self.plugins@,
                    PluginCall::Event(event),
                    old(self).session,
                    self.session,
                    i as int,
                ),
            decreases n - i,
        {
            let ghost prev = self.plugins@;
            let ghost mid = self.session;
            self.plugins.value_at_mut(i).on_event(&mut self.session, &event);
            proof {
                lemma_run_goes_on(
                    old(self).plugins@,
                    prev,
                    self.plugins@,
                    PluginCall::Event(event),
                    old(self).session,
                    mid,
                    self.session,
                    false,
                    i as int,
                );
            }
            i += 1;
        }
        proof {
            lemma_run_keeps_tags_if(
                old(self).plugins@,
                self.plugins@,
                PluginCall::Event(event),
                old(self).session,
                self.session,
                n as int,
            );
        }
    }

    /// Makes a log message of the text, with a fresh identifier of 36
    /// characters, and hands it to every plugin as an event.
    pub fn log(&mut self, message: String)
        ensures
            final(self).commands() == old(self).commands(),
            tagged(old(self).plugins()) ==> tagged(final(self).plugins()),
            distinct(old(self).plugins()) ==> distinct(final(self).plugins()),
            exists|made: Message|
                made is Log && made.spec_body() == message@ && made.spec_id().len() == 36
                    && #[trigger] ran(
                    old(self).plugins(),
                    final(self).plugins(),
                    PluginCall::Event(Event::Message(made)),
                    old(self).session(),
                    final(self).session(),
                    old(self).plugins().len() as int,
                ),
    {
        let made = Message::log(message);
        self.event(Event::Message(made));
    }

    /// Takes the event that has waited longest in the session, to hand it to
    /// the plugins with `event`.
    pub fn next_event(&mut self) -> (event: Option<Event>)
        ensures
            final(self).commands() == old(self).commands(),
            final(self).plugins() == old(self).plugins(),
            final(self).session().connections() == old(self).session().connections(),
            final(self).session().current() == old(self).session().current(),
            final(self).session().posted() == old(self).session().posted(),
            match event {
                Some(event) => old(self).session().pending().len() > 0 && event == old(self).session().pending()[0] && final(self).session().pending() == old(self).session().pending().drop_first(),
                None => old(self).session().pending().len() == 0 && final(self).session().pending() == old(self).session().pending(),
            },
    {
        self.session.next_event()
    }

    /// Hands the plugins the events that wait in the session, oldest first,
    /// and those that the plugins leave meanwhile, but no more than `limit`
    /// events in all. The result is the number of events handed over; where
    /// it is below `limit`, no event waits any more.
    pub fn settle(&mut self, limit: usize) -> (handled: usize)
        ensures
            handled <= limit,
            handled < limit ==> final(self).session().pending().len() == 0,
            final(self).commands() == old(self).commands(),
            tagged(old(self).plugins()) ==> tagged(final(self).plugins()),
            distinct(old(self).plugins()) ==> distinct(final(self).plugins()),
            grown(old(self).plugins(), final(self).plugins(), handled as int),
    {
        let mut handled: usize = 0;
        assert(grown(self.plugins@, self.plugins@, 0)) by {
            assert forall|i: int| 0 <= i < self.plugins@.len() implies (
            #[trigger] self.plugins@[i]).1.history().subrange(
                0,
                self.plugins@[i].1.history().len() as int,
            ) == self.plugins@[i].1.history() by {
                assert(self.plugins@[i].1.history().subrange(
                    0,
                    self.plugins@[i].1.history().len() as int,
                ) =~= self.plugins@[i].1.history());
            }
        }
        while handled < limit
            invariant
                handled <= limit,
                self.commands@ == old(self).commands@,
                tagged(old(self).plugins@) ==> tagged(self.plugins@),
                distinct(old(self).plugins@) ==> distinct(self.plugins@),
                grown(old(self).plugins@, self.plugins@, handled as int),
            decreases limit - handled,
        {
            match self.session.next_event() {
                Some(event) => {
                    let ghost mid = self.plugins@;
                    let ghost start = self.session;
                    self.event(event);
                    proof {
                        lemma_grows_by_one(
                            old(self).plugins@,
                            mid,
                            self.plugins@,
                            event,
                            start,
                            self.session,
                            handled as int,
                        );
                    }
                    handled += 1;
                },
                None => {
                    return handled;
                },
            }
        }
        handled
    }
}

/// A run keeps every plugin under the tag of its own kind and leaves no kind
/// twice, where that held before.
proof fn lemma_run_keeps_tags_if(
    before: Plugins,
    after: Plugins,
    call: PluginCall,
    start: Session,
    end: Session,
    count: int,
)
    requires
        ran(before, after, call, start, end, count),
    ensures
        tagged(before) ==> tagged(after),
        distinct(before) ==> distinct(after),
{
    if tagged(before) {
        crate::plugin::lemma_run_keeps_tags(before, after, call, start, end, count);
    }
    if distinct(before) {
        lemma_same_keys_keep_distinct(before, after);
    }
}

} // verus!