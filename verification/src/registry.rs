//! The subscriber registry: the transaction-id-keyed map from which each
//! inbound reply finds its consumer. At most one entry exists per
//! transaction id; registering again for the same id overwrites the old
//! entry, and an entry whose consumer has gone is removed.
//!
//! The registry is generic in the sink it stores, so the routing rules are
//! proved once for every kind of consumer handle the surrounding runtime
//! uses.

use vstd::prelude::*;

use std::collections::HashMap;

verus! {

broadcast use vstd::std_specs::hash::group_hash_axioms;

/// The transaction-id-keyed map of response sinks. Keys are the packed
/// 3-byte transaction ids produced by [`crate::msg::xid_key`].
pub struct SubscriberRegistry<S> {
    entries: HashMap<u32, S>,
}

impl<S> View for SubscriberRegistry<S> {
    type V = Map<u32, S>;

    closed spec fn view(&self) -> Map<u32, S> {
        self.entries@
    }
}

impl<S> SubscriberRegistry<S> {
    /// An empty registry: no transaction has a consumer.
    pub fn new() -> (r: Self)
        ensures
            r@ == Map::<u32, S>::empty(),
    {
        SubscriberRegistry { entries: HashMap::new() }
    }

    /// Registers `sink` as the one consumer of replies carrying `xid`,
    /// overwriting any earlier entry for the same id.
    pub fn register(&mut self, xid: u32, sink: S)
        ensures
            final(self)@ == old(self)@.insert(xid, sink),
    {
        self.entries.insert(xid, sink);
    }

    /// The routing decision for a reply carrying `xid`: the registered
    /// sink, or `None` when no consumer is listening and the reply is to
    /// be dropped.
    pub fn lookup(&self, xid: u32) -> (r: Option<&S>)
        ensures
            match r {
                Option::Some(s) => self@.contains_key(xid) && *s == self@[xid],
                Option::None => !self@.contains_key(xid),
            },
    {
        self.entries.get(&xid)
    }

    /// Whether a consumer is registered for `xid`.
    pub fn contains(&self, xid: u32) -> (r: bool)
        ensures
            r == self@.contains_key(xid),
    {
        self.entries.contains_key(&xid)
    }

    /// Removes the entry for `xid`, if any: the cleanup taken when a
    /// forward to its sink fails because the consumer dropped its
    /// receiving end.
    pub fn unregister(&mut self, xid: u32)
        ensures
            final(self)@ == old(self)@.remove(xid),
            !final(self)@.contains_key(xid),
    {
        self.entries.remove(&xid);
    }

    /// How many transactions currently have a consumer.
    pub fn len(&self) -> (r: usize)
        ensures
            r == self@.dom().len(),
    {
        self.entries.len()
    }
}

/// Once a sink is registered for a transaction id, the routing decision for
/// every reply carrying that id names that sink and no other — each such
/// reply is offered to the registered consumer exactly once — and this holds
/// until the entry is removed; registrations for other ids do not disturb
/// it, and removal ends it.
pub proof fn lemma_registered_reply_routed<S>(m: Map<u32, S>, xid: u32, sink: S)
    ensures
        m.insert(xid, sink).contains_key(xid),
        m.insert(xid, sink)[xid] == sink,
        forall|y: u32, t: S| y != xid ==> #[trigger] m.insert(xid, sink).insert(y, t)[xid] == sink,
        !m.insert(xid, sink).remove(xid).contains_key(xid),
{
}

/// A reply whose transaction id has no registry entry is routed to no
/// consumer: the decision for it names no sink, whatever sinks other
/// transactions have.
pub proof fn lemma_unknown_xid_routed_nowhere<S>(m: Map<u32, S>, xid: u32)
    requires
        !m.contains_key(xid),
    ensures
        forall|y: u32| m.contains_key(y) ==> y != xid,
{
}

/// Registering two consumers for the same transaction id in turn leaves
/// only the second: the entry is overwritten, never duplicated.
pub proof fn lemma_reregistration_overwrites<S>(m: Map<u32, S>, xid: u32, s1: S, s2: S)
    ensures
        m.insert(xid, s1).insert(xid, s2)[xid] == s2,
        m.insert(xid, s1).insert(xid, s2).dom() =~= m.insert(xid, s1).dom(),
{
}

/// Removing the entry of a consumer that disappeared leaves every other
/// transaction's entry in place.
pub proof fn lemma_cleanup_is_local<S>(m: Map<u32, S>, xid: u32)
    ensures
        forall|y: u32| y != xid && m.contains_key(y) ==> #[trigger] m.remove(xid).contains_key(y)
            && m.remove(xid)[y] == m[y],
{
}

} // verus!
