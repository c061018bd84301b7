//! Plugins: the feature modules that the orchestrator initialises and hands
//! every event to.
//!
//! A feature module implements [`Plugin`]. The orchestrator keeps it wrapped
//! in a [`Registered`], which records every call made on it; the contracts of
//! the orchestrator speak of that record.

use crate::event::Event;
use crate::orchestrator::Session;
use crate::registry::same_except;
use vstd::prelude::*;

verus! {

/// A feature module. Nothing is asked of an implementation but its methods.
pub trait Plugin {
    /// The tag of this kind of plugin. The registry keeps one plugin under a
    /// tag: of two kinds that declare the same tag, the one registered last
    /// takes the place of the other.
    const KIND: u64;

    /// A plugin of this kind.
    fn new() -> Self where Self: Sized;

    /// Prepares the plugin for the session. It may refuse.
    fn init(&mut self, aparte: &mut Session) -> Result<(), ()>;

    /// Reacts to one event.
    fn on_event(&mut self, aparte: &mut Session, event: &Event);

    /// What the plugin is, in words for the user.
    fn describe(&self) -> String;
}

/// One call that the orchestrator makes on a plugin.
pub enum PluginCall {
    /// The plugin is initialised.
    Init,
    /// The plugin is handed this event.
    Event(Event),
}

/// The record of one call made on a plugin.
pub struct Step {
    /// The call.
    pub call: PluginCall,
    /// The session as it was handed to the plugin.
    pub before: Session,
    /// The session as the plugin left it.
    pub after: Session,
    /// Whether the plugin refused. Only an initialisation can be refused.
    pub refused: bool,
}

/// A plugin as the orchestrator keeps it: behind one interface whatever its
/// kind, with the record of the calls made on it.
pub trait AnyPlugin {
    /// The tag of the kind of plugin that this is.
    spec fn kind(&self) -> u64;

    /// The calls made on this plugin so far, oldest first.
    spec fn history(&self) -> Seq<Step>;

    /// The tag of the kind of plugin that this is.
    fn tag(&self) -> (tag: u64)
        ensures
            tag == self.kind(),
    ;

    /// Prepares the plugin for the session, and records the call with the
    /// plugin's answer.
    fn init(&mut self, aparte: &mut Session) -> (r: Result<(), ()>)
        ensures
            final(self).kind() == old(self).kind(),
            final(self).history() == old(self).history().push(
                Step {
                    call: PluginCall::Init,
                    before: *old(aparte),
                    after: *final(aparte),
                    refused: r is Err,
                },
            ),
    ;

    /// Hands the plugin one event, and records the call.
    fn on_event(&mut self, aparte: &mut Session, event: &Event)
        ensures
            final(self).kind() == old(self).kind(),
            final(self).history() == old(self).history().push(
                Step {
                    call: PluginCall::Event(*event),
                    before: *old(aparte),
                    after: *final(aparte),
                    refused: false,
                },
            ),
    ;

    /// What the plugin is, in words for the user.
    fn describe(&self) -> String;
}

/// A plugin of kind `T` with the record of the calls made on it.
pub struct Registered<T> {
    plugin: T,
    history: Ghost<Seq<Step>>,
}

impl<T: Plugin> Registered<T> {
    /// Wraps a plugin on which no call was made yet.
    pub fn new(plugin: T) -> (registered: Self)
        ensures
            registered.kind() == T::KIND,
            registered.history() == Seq::<Step>::empty(),
            *registered.inner() == plugin,
    {
        Registered { plugin, history: Ghost(Seq::empty()) }
    }

    /// The plugin inside.
    pub closed spec fn inner(&self) -> &T {
        &self.plugin
    }

    /// The plugin inside.
    pub fn plugin(&self) -> (plugin: &T)
        ensures
            plugin == self.inner(),
    {
        &self.plugin
    }

    /// Records one call with the answer that the plugin gave, and hands the
    /// answer on as it is.
    fn record(
        &mut self,
        call: Ghost<PluginCall>,
        before: Ghost<Session>,
        after: Ghost<Session>,
        answer: Result<(), ()>,
    ) -> (r: Result<(), ()>)
        ensures
            r == answer,
            final(self).inner() == old(self).inner(),
            final(self).history() == old(self).history().push(
                Step { call: call@, before: before@, after: after@, refused: answer is Err },
            ),
    {
        self.history = Ghost(
            self.history@.push(
                Step { call: call@, before: before@, after: after@, refused: answer is Err },
            ),
        );
        answer
    }
}

impl<T: Plugin> AnyPlugin for Registered<T> {
    open spec fn kind(&self) -> u64 {
        T::KIND
    }

    closed spec fn history(&self) -> Seq<Step> {
        self.history@
    }

    fn tag(&self) -> (tag: u64) {
        T::KIND
    }

    fn init(&mut self, aparte: &mut Session) -> (r: Result<(), ()>) {
        let ghost before = *aparte;
        let answer = self.plugin.init(aparte);
        self.record(Ghost(PluginCall::Init), Ghost(before), Ghost(*aparte), answer)
    }

    fn on_event(&mut self, aparte: &mut Session, event: &Event) {
        let ghost before = *aparte;
        self.plugin.on_event(aparte, event);
        let _ = self.record(Ghost(PluginCall::Event(*event)), Ghost(before), Ghost(*aparte), Ok(()));
    }

    fn describe(&self) -> String {
        self.plugin.describe()
    }
}

/// The registered plugins: each kind's tag with the plugin under it.
pub type Plugins = Seq<(u64, Box<dyn AnyPlugin>)>;

/// Whether every plugin stands under the tag of its own kind.
pub open spec fn tagged(plugins: Plugins) -> bool {
    forall|i: int| 0 <= i < plugins.len() ==> (#[trigger] plugins[i]).1.kind() == plugins[i].0
}

/// The record of the last call made on the plugin at a place.
pub open spec fn last_step(plugins: Plugins, i: int) -> Step {
    plugins[i].1.history().last()
}

/// The session that the plugin at place `i` is handed in a run that starts
/// with the session `start`: the first plugin gets `start`, each later one
/// gets the session as the plugin before it left it.
pub open spec fn handed(after: Plugins, start: Session, i: int) -> Session {
    if i <= 0 {
        start
    } else {
        last_step(after, i - 1).after
    }
}

/// Whether, in a run that starts with the session `start`, exactly one call
/// was made on the plugin at place `i`, namely `call`, on the session that
/// the run had reached.
pub open spec fn stepped(
    before: Plugins,
    after: Plugins,
    call: PluginCall,
    start: Session,
    i: int,
) -> bool {
    &&& after[i].1.history() == before[i].1.history().push(last_step(after, i))
    &&& last_step(after, i).call == call
    &&& last_step(after, i).before == handed(after, start, i)
}

/// Whether `after` and `end` are what a run leaves that starts with the
/// plugins `before` and the session `start` and makes `call` once on each of
/// the first `count` plugins, in order, each on the session as the one before
/// it left it. The kinds stay, the plugins behind the first `count` are as
/// they were, and `end` is the session as the last plugin called left it.
pub open spec fn ran(
    before: Plugins,
    after: Plugins,
    call: PluginCall,
    start: Session,
    end: Session,
    count: int,
) -> bool {
    &&& after.len() == before.len()
    &&& 0 <= count <= before.len()
    &&& forall|i: int|
        0 <= i < before.len() ==> (#[trigger] after[i]).0 == before[i].0 && after[i].1.kind()
            == before[i].1.kind()
    &&& forall|i: int| count <= i < before.len() ==> (#[trigger] after[i]).1 == before[i].1
    &&& forall|i: int| 0 <= i < count ==> #[trigger] stepped(before, after, call, start, i)
    &&& end == handed(after, start, count)
}

/// Whether none of the first `count` plugins refused its last call.
pub open spec fn accepted(after: Plugins, count: int) -> bool {
    forall|i: int| 0 <= i < count ==> !(#[trigger] last_step(after, i)).refused
}

/// Whether a call left the connections and the current connection alone.
pub open spec fn quiet(step: Step) -> bool {
    &&& step.after.connections() == step.before.connections()
    &&& step.after.current() == step.before.current()
}

/// In a run in which the first `count` calls left the connections alone, the
/// plugin at place `i` is handed the connections that the run started with.
pub proof fn lemma_quiet_so_far(after: Plugins, start: Session, count: int, i: int)
    requires
        0 <= i <= count,
        forall|j: int|
            0 <= j < count ==> #[trigger] last_step(after, j).before == handed(after, start, j),
        forall|j: int| 0 <= j < count ==> quiet(#[trigger] last_step(after, j)),
    ensures
        handed(after, start, i).connections() == start.connections(),
        handed(after, start, i).current() == start.current(),
    decreases i,
{
    if i > 0 {
        lemma_quiet_so_far(after, start, count, i - 1);
        assert(quiet(last_step(after, i - 1)));
        assert(last_step(after, i - 1).before == handed(after, start, i - 1));
    }
}

/// A run in which no call touches the connections leaves the connections
/// and the current connection as they were.
pub proof fn lemma_quiet_run_keeps_connections(
    before: Plugins,
    after: Plugins,
    call: PluginCall,
    start: Session,
    end: Session,
    count: int,
)
    requires
        ran(before, after, call, start, end, count),
        forall|i: int| 0 <= i < count ==> quiet(#[trigger] last_step(after, i)),
    ensures
        end.connections() == start.connections(),
        end.current() == start.current(),
{
    assert forall|j: int| 0 <= j < count implies #[trigger] last_step(after, j).before == handed(
        after,
        start,
        j,
    ) by {
        assert(stepped(before, after, call, start, j));
    }
    lemma_quiet_so_far(after, start, count, count);
}

/// A run keeps every plugin under the tag of its own kind.
pub proof fn lemma_run_keeps_tags(
    before: Plugins,
    after: Plugins,
    call: PluginCall,
    start: Session,
    end: Session,
    count: int,
)
    requires
        ran(before, after, call, start, end, count),
        tagged(before),
    ensures
        tagged(after),
{
    assert forall|i: int| 0 <= i < after.len() implies (#[trigger] after[i]).1.kind()
        == after[i].0 by {
        assert(before[i].1.kind() == before[i].0);
    }
}

/// A run that has called the first `i` plugins goes on by one plugin: the
/// plugin at place `i` is called on the session `mid` that the run had
/// reached, and leaves the session `end`.
pub proof fn lemma_run_goes_on(
    before: Plugins,
    prev: Plugins,
    next: Plugins,
    call: PluginCall,
    start: Session,
    mid: Session,
    end: Session,
    refused: bool,
    i: int,
)
    requires
        ran(before, prev, call, start, mid, i),
        i < before.len(),
        same_except(prev, next, i),
        next[i].1.kind() == prev[i].1.kind(),
        next[i].1.history() == prev[i].1.history().push(
            Step { call, before: mid, after: end, refused },
        ),
    ensures
        ran(before, next, call, start, end, i + 1),
        last_step(next, i) == (Step { call, before: mid, after: end, refused }),
        forall|j: int| 0 <= j < i ==> #[trigger] last_step(next, j) == last_step(prev, j),
{
    let step = Step { call, before: mid, after: end, refused };
    assert(next[i].1.history().last() == step);
    assert forall|j: int| 0 <= j < i implies #[trigger] last_step(next, j) == last_step(
        prev,
        j,
    ) by {
        assert(next[j] == prev[j]);
    }
    assert forall|j: int| 0 <= j < i + 1 implies #[trigger] stepped(
        before,
        next,
        call,
        start,
        j,
    ) by {
        if j < i {
            assert(stepped(before, prev, call, start, j));
            assert(next[j] == prev[j]);
            if j > 0 {
                assert(next[j - 1] == prev[j - 1]);
            }
        } else {
            assert(prev[i].1 == before[i].1);
            if i > 0 {
                assert(next[i - 1] == prev[i - 1]);
            }
        }
    }
    assert forall|j: int| 0 <= j < before.len() implies (#[trigger] next[j]).0 == before[j].0
        && next[j].1.kind() == before[j].1.kind() by {
        if j != i {
            assert(next[j] == prev[j]);
        }
        assert(prev[j].0 == before[j].0);
    }
    assert forall|j: int| i + 1 <= j < before.len() implies (#[trigger] next[j]).1
        == before[j].1 by {
        assert(next[j] == prev[j]);
        assert(prev[j].1 == before[j].1);
    }
}

/// Whether `after` is `before` with `by` more events handed to every
/// plugin: the kinds stay, every record keeps what it held and holds `by`
/// more calls, each of them an event.
pub open spec fn grown(before: Plugins, after: Plugins, by: int) -> bool {
    &&& after.len() == before.len()
    &&& forall|i: int|
        0 <= i < before.len() ==> {
            &&& (#[trigger] after[i]).0 == before[i].0
            &&& after[i].1.kind() == before[i].1.kind()
            &&& after[i].1.history().len() == before[i].1.history().len() + by
            &&& after[i].1.history().subrange(0, before[i].1.history().len() as int)
                == before[i].1.history()
            &&& forall|k: int|
                before[i].1.history().len() <= k < after[i].1.history().len()
                    ==> (#[trigger] after[i].1.history()[k]).call is Event
        }
}

/// One more event handed to every plugin makes the records grow by one.
pub proof fn lemma_grows_by_one(
    before: Plugins,
    mid: Plugins,
    after: Plugins,
    event: Event,
    start: Session,
    end: Session,
    by: int,
)
    requires
        0 <= by,
        grown(before, mid, by),
        ran(mid, after, PluginCall::Event(event), start, end, mid.len() as int),
    ensures
        grown(before, after, by + 1),
{
    assert forall|i: int| 0 <= i < before.len() implies {
        &&& (#[trigger] after[i]).0 == before[i].0
        &&& after[i].1.kind() == before[i].1.kind()
        &&& after[i].1.history().len() == before[i].1.history().len() + by + 1
        &&& after[i].1.history().subrange(0, before[i].1.history().len() as int)
            == before[i].1.history()
        &&& forall|k: int|
            before[i].1.history().len() <= k < after[i].1.history().len()
                ==> (#[trigger] after[i].1.history()[k]).call is Event
    } by {
        assert(mid[i].0 == before[i].0);
        assert(stepped(mid, after, PluginCall::Event(event), start, i));
        let old_len = before[i].1.history().len() as int;
        assert(after[i].1.history().subrange(0, old_len) =~= mid[i].1.history().subrange(
            0,
            old_len,
        ));
        assert forall|k: int|
            before[i].1.history().len() <= k < after[i].1.history().len() implies (
        #[trigger] after[i].1.history()[k]).call is Event by {
            if k < mid[i].1.history().len() {
                assert(after[i].1.history()[k] == mid[i].1.history()[k]);
            }
        }
    }
}

} // verus!
