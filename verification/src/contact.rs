//! Contacts of the roster: who they are and what is known of them.

use crate::jid::opt_clone;
use crate::jid::BareJid;
use std::hash::Hash;
use std::hash::Hasher;
use vstd::prelude::*;
use xmpp_parsers::roster::Subscription;

verus! {

/// `xmpp_parsers::roster::Subscription`, the state of the mutual subscription
/// with a contact. The library carries it and does not look inside.
#[verifier::external_type_specification]
#[verifier::external_body]
pub struct ExSubscription(xmpp_parsers::roster::Subscription);

/// `Clone::clone` of `xmpp_parsers::roster::Subscription`, which the crate
/// derives for a field-less enum: the copy is the same variant.
pub assume_specification[ <xmpp_parsers::roster::Subscription as Clone>::clone ](
    s: &xmpp_parsers::roster::Subscription,
) -> (r: xmpp_parsers::roster::Subscription)
    ensures
        r == *s,
;

/// How available a contact is.
#[derive(Debug, Clone, Copy, PartialEq, Eq, Hash, Structural)]
pub enum Presence {
    Unavailable,
    Available,
    Away,
    Chat,
    Dnd,
    Xa,
}

/// A named label under which contacts are filed. Two groups are the same
/// group when they have the same name.
#[derive(Debug)]
pub struct Group(pub String);

impl View for Group {
    type V = Seq<char>;

    /// The name of the group.
    open spec fn view(&self) -> Seq<char> {
        self.0@
    }
}

impl Clone for Group {
    fn clone(&self) -> (r: Self)
        ensures
            r == *self,
    {
        Group(self.0.clone())
    }
}

impl PartialEq for Group {
    fn eq(&self, other: &Self) -> (r: bool) {
        self.0 == other.0
    }
}

impl vstd::std_specs::cmp::PartialEqSpecImpl for Group {
    open spec fn obeys_eq_spec() -> bool {
        true
    }

    open spec fn eq_spec(&self, other: &Self) -> bool {
        self@ == other@
    }
}

impl Eq for Group {}

impl Hash for Group {
    fn hash<H: Hasher>(&self, state: &mut H) {
        self.0.hash(state)
    }
}

/// A contact of the roster. Its address is its identity: two contacts with
/// the same address are the same contact, whatever else differs.
#[derive(Debug)]
pub struct Contact {
    pub jid: BareJid,
    pub name: Option<String>,
    pub subscription: Subscription,
    pub presence: Presence,
    pub groups: Vec<Group>,
}

/// Copies a list of groups.
pub fn clone_groups(groups: &Vec<Group>) -> (r: Vec<Group>)
    ensures
        r@ == groups@,
{
    let mut r: Vec<Group> = Vec::new();
    let mut i: usize = 0;
    while i < groups.len()
        invariant
            i <= groups.len(),
            r@ == groups@.take(i as int),
        decreases groups.len() - i,
    {
        r.push(groups[i].clone());
        assert(groups@.take(i + 1) == groups@.take(i as int).push(groups@[i as int]));
        i += 1;
    }
    assert(groups@.take(groups.len() as int) == groups@);
    r
}

impl Clone for Contact {
    fn clone(&self) -> (r: Self)
        ensures
            r.jid == self.jid,
            r.name == self.name,
            r.subscription == self.subscription,
            r.presence == self.presence,
            r.groups@ == self.groups@,
    {
        Contact {
            jid: self.jid.clone(),
            name: opt_clone(&self.name),
            subscription: self.subscription.clone(),
            presence: self.presence,
            groups: clone_groups(&self.groups),
        }
    }
}

impl PartialEq for Contact {
    fn eq(&self, other: &Self) -> (r: bool) {
        self.jid == other.jid
    }
}

impl vstd::std_specs::cmp::PartialEqSpecImpl for Contact {
    open spec fn obeys_eq_spec() -> bool {
        true
    }

    open spec fn eq_spec(&self, other: &Self) -> bool {
        self.jid@ == other.jid@
    }
}

impl Eq for Contact {}

impl Hash for Contact {
    fn hash<H: Hasher>(&self, state: &mut H) {
        match &self.jid.node {
            Some(node) => node.hash(state),
            None => {},
        }
        self.jid.domain.hash(state)
    }
}

} // verus!
