//! Message carbons (XEP-0280): the server copies to this session what the
//! account's other sessions send and receive.

use crate::event::Event;
use crate::orchestrator::posted_after;
use crate::orchestrator::Session;
use crate::plugin::Plugin;
use crate::wire::carbons_enable;
use crate::wire::carbons_enable_element;
use crate::wire::fresh_id;
use vstd::prelude::*;
use vstd::string::StringExecFns;
use xmpp_parsers::Element;

verus! {

/// The plugin that asks the server for carbons as soon as the account is
/// connected.
pub struct CarbonsPlugin {}

impl CarbonsPlugin {
    /// The name under which the feature is advertised to other clients.
    pub fn feature() -> (feature: String)
        ensures
            feature@ == "urn:xmpp:carbons:2"@,
    {
        String::from_str("urn:xmpp:carbons:2")
    }

    /// The request that switches carbons on, under a fresh identifier of 36
    /// characters.
    pub fn enable(&self) -> (element: Element)
        ensures
            exists|id: Seq<char>| id.len() == 36 && element == #[trigger] carbons_enable_element(id),
    {
        let id = fresh_id();
        carbons_enable(id)
    }

    /// What the plugin sends when it sees an event: the request that switches
    /// carbons on when the account is connected, nothing on any other event.
    pub fn reaction(&self, event: &Event) -> (element: Option<Element>)
        ensures
            element is Some <==> event is Connected,
            element matches Some(element) ==> exists|id: Seq<char>|
                id.len() == 36 && element == #[trigger] carbons_enable_element(id),
    {
        match event {
            Event::Connected(_) => Some(self.enable()),
            _ => None,
        }
    }
}

impl Plugin for CarbonsPlugin {
    const KIND: u64 = 280;

    fn new() -> (plugin: CarbonsPlugin) {
        CarbonsPlugin {  }
    }

    /// There is nothing to prepare: the plugin never refuses, and leaves the
    /// session as it is.
    fn init(&mut self, aparte: &mut Session) -> (r: Result<(), ()>)
        ensures
            r is Ok,
            *final(aparte) == *old(aparte),
    {
        Ok(())
    }

    /// Sends the request that switches carbons on when the account is
    /// connected, and nothing on any other event. The connections and the
    /// waiting events stay as they are.
    fn on_event(&mut self, aparte: &mut Session, event: &Event)
        ensures
            final(aparte).connections() == old(aparte).connections(),
            final(aparte).current() == old(aparte).current(),
            final(aparte).pending() == old(aparte).pending(),
            event !is Connected ==> final(aparte).posted() == old(aparte).posted(),
            event is Connected ==> exists|id: Seq<char>|
                id.len() == 36 && final(aparte).posted() == posted_after(
                    old(aparte).posted(),
                    old(aparte).connections(),
                    old(aparte).current(),
                    #[trigger] carbons_enable_element(id),
                ),
    {
        match self.reaction(event) {
            Some(element) => aparte.send(element),
            None => {},
        }
    }

    fn describe(&self) -> (description: String)
        ensures
            description@ == "XEP-0280: Message Carbons"@,
    {
        String::from_str("XEP-0280: Message Carbons")
    }
}

} // verus!
