//! Account addresses: bare (`node@domain`) and full (`node@domain/resource`).
//!
//! The types hold the parts of an address as plain strings, as the `jid` crate
//! does, so that verified code can read them.

use vstd::prelude::*;
use vstd::string::StringExecFns;

verus! {

/// What a [`BareJid`] stands for.
pub struct BareJidView {
    pub node: Option<Seq<char>>,
    pub domain: Seq<char>,
}

/// What a [`FullJid`] stands for.
pub struct FullJidView {
    pub node: Option<Seq<char>>,
    pub domain: Seq<char>,
    pub resource: Seq<char>,
}

/// What a [`Jid`] stands for.
pub enum JidView {
    Bare(BareJidView),
    Full(FullJidView),
}

impl FullJidView {
    /// The address without its resource.
    pub open spec fn bare(self) -> BareJidView {
        BareJidView { node: self.node, domain: self.domain }
    }

    /// The text form `node@domain/resource`; `node@` is left out where there is no node.
    pub open spec fn text(self) -> Seq<char> {
        self.bare().text() + seq!['/'] + self.resource
    }
}

impl BareJidView {
    /// The text form `node@domain`; `node@` is left out where there is no node.
    pub open spec fn text(self) -> Seq<char> {
        match self.node {
            Some(node) => node + seq!['@'] + self.domain,
            None => self.domain,
        }
    }
}

impl JidView {
    /// The bare address: a bare one as it is, a full one without its resource.
    pub open spec fn bare(self) -> BareJidView {
        match self {
            JidView::Bare(bare) => bare,
            JidView::Full(full) => full.bare(),
        }
    }
}

/// The view of an optional string.
pub open spec fn opt_view(s: Option<String>) -> Option<Seq<char>> {
    match s {
        Some(s) => Some(s@),
        None => None,
    }
}

/// Compares two optional strings by their contents.
pub fn opt_eq(a: &Option<String>, b: &Option<String>) -> (r: bool)
    ensures
        r == (opt_view(*a) == opt_view(*b)),
{
    match a {
        Some(x) => match b {
            Some(y) => *x == *y,
            None => false,
        },
        None => b.is_none(),
    }
}

/// Copies an optional string.
pub fn opt_clone(a: &Option<String>) -> (r: Option<String>)
    ensures
        r == *a,
{
    match a {
        Some(x) => Some(x.clone()),
        None => None,
    }
}

/// An address without a resource: an account.
#[derive(Debug, Hash)]
pub struct BareJid {
    pub node: Option<String>,
    pub domain: String,
}

/// An address with a resource: one session of an account.
#[derive(Debug, Hash)]
pub struct FullJid {
    pub node: Option<String>,
    pub domain: String,
    pub resource: String,
}

/// An address of either form.
#[derive(Debug)]
pub enum Jid {
    Bare(BareJid),
    Full(FullJid),
}

impl View for BareJid {
    type V = BareJidView;

    open spec fn view(&self) -> BareJidView {
        BareJidView { node: opt_view(self.node), domain: self.domain@ }
    }
}

impl View for FullJid {
    type V = FullJidView;

    open spec fn view(&self) -> FullJidView {
        FullJidView { node: opt_view(self.node), domain: self.domain@, resource: self.resource@ }
    }
}

impl View for Jid {
    type V = JidView;

    open spec fn view(&self) -> JidView {
        match self {
            Jid::Bare(bare) => JidView::Bare(bare@),
            Jid::Full(full) => JidView::Full(full@),
        }
    }
}

impl BareJid {
    /// The account `node@domain`.
    pub fn new(node: &str, domain: &str) -> (jid: BareJid)
        ensures
            jid@ == (BareJidView { node: Some(node@), domain: domain@ }),
    {
        BareJid { node: Some(String::from_str(node)), domain: String::from_str(domain) }
    }

    /// The account of a whole domain, without a node.
    pub fn domain(domain: &str) -> (jid: BareJid)
        ensures
            jid@ == (BareJidView { node: None, domain: domain@ }),
    {
        BareJid { node: None, domain: String::from_str(domain) }
    }

    /// The text form of the address.
    pub fn to_string(&self) -> (s: String)
        ensures
            s@ == self@.text(),
    {
        let mut s = String::new();
        match &self.node {
            Some(node) => {
                s.append(node.as_str());
                proof {
                    reveal_strlit("@");
                }
                s.append("@");
                assert("@"@ =~= seq!['@']);
            },
            None => {},
        }
        s.append(self.domain.as_str());
        assert(s@ =~= self@.text());
        s
    }
}

impl FullJid {
    /// The session `node@domain/resource`.
    pub fn new(node: &str, domain: &str, resource: &str) -> (jid: FullJid)
        ensures
            jid@ == (FullJidView { node: Some(node@), domain: domain@, resource: resource@ }),
    {
        FullJid {
            node: Some(String::from_str(node)),
            domain: String::from_str(domain),
            resource: String::from_str(resource),
        }
    }

    /// The account that this session belongs to.
    pub fn to_bare(&self) -> (bare: BareJid)
        ensures
            bare@ == self@.bare(),
    {
        BareJid { node: opt_clone(&self.node), domain: self.domain.clone() }
    }

    /// The text form of the address.
    pub fn to_string(&self) -> (s: String)
        ensures
            s@ == self@.text(),
    {
        let mut s = self.to_bare().to_string();
        proof {
            reveal_strlit("/");
        }
        s.append("/");
        assert("/"@ =~= seq!['/']);
        s.append(self.resource.as_str());
        assert(s@ =~= self@.text());
        s
    }
}

impl Jid {
    /// The bare address: a bare one as it is, a full one without its resource.
    pub fn to_bare(&self) -> (bare: BareJid)
        ensures
            bare@ == self@.bare(),
    {
        match self {
            Jid::Bare(bare) => bare.clone(),
            Jid::Full(full) => full.to_bare(),
        }
    }
}

impl Clone for BareJid {
    fn clone(&self) -> (r: Self)
        ensures
            r == *self,
    {
        BareJid { node: opt_clone(&self.node), domain: self.domain.clone() }
    }
}

impl Clone for FullJid {
    fn clone(&self) -> (r: Self)
        ensures
            r == *self,
    {
        FullJid {
            node: opt_clone(&self.node),
            domain: self.domain.clone(),
            resource: self.resource.clone(),
        }
    }
}

impl Clone for Jid {
    fn clone(&self) -> (r: Self)
        ensures
            r == *self,
    {
        match self {
            Jid::Bare(bare) => Jid::Bare(bare.clone()),
            Jid::Full(full) => Jid::Full(full.clone()),
        }
    }
}

impl PartialEq for BareJid {
    fn eq(&self, other: &Self) -> (r: bool) {
        opt_eq(&self.node, &other.node) && self.domain == other.domain
    }
}

impl vstd::std_specs::cmp::PartialEqSpecImpl for BareJid {
    open spec fn obeys_eq_spec() -> bool {
        true
    }

    open spec fn eq_spec(&self, other: &Self) -> bool {
        self@ == other@
    }
}

impl Eq for BareJid {}

impl PartialEq for FullJid {
    fn eq(&self, other: &Self) -> (r: bool) {
        opt_eq(&self.node, &other.node) && self.domain == other.domain && self.resource
            == other.resource
    }
}

impl vstd::std_specs::cmp::PartialEqSpecImpl for FullJid {
    open spec fn obeys_eq_spec() -> bool {
        true
    }

    open spec fn eq_spec(&self, other: &Self) -> bool {
        self@ == other@
    }
}

impl Eq for FullJid {}

impl PartialEq for Jid {
    fn eq(&self, other: &Self) -> (r: bool) {
        match (self, other) {
            (Jid::Bare(a), Jid::Bare(b)) => a == b,
            (Jid::Full(a), Jid::Full(b)) => a == b,
            _ => false,
        }
    }
}

impl vstd::std_specs::cmp::PartialEqSpecImpl for Jid {
    open spec fn obeys_eq_spec() -> bool {
        true
    }

    open spec fn eq_spec(&self, other: &Self) -> bool {
        self@ == other@
    }
}

} // verus!
