//! The advertisement selector: folds a stream of same-transaction replies
//! into the best candidate under the protocol's preference rule. The
//! surrounding runtime feeds it one reply at a time and stops it when an
//! external cancellation fires; whatever is chosen at that instant is the
//! result.

use vstd::prelude::*;

use crate::dhcp::SockAddrV6;
use crate::msg::{first_preference, Msg, MSG_TYPE_ADVERTISE};

verus! {

/// The running state of one selection window.
pub struct AdvertisementSelector {
    chosen: Option<(Msg, SockAddrV6)>,
    chosen_pref: u8,
}

impl AdvertisementSelector {
    /// The candidate chosen so far, with the endpoint it arrived from.
    pub closed spec fn spec_chosen(&self) -> Option<(Msg, SockAddrV6)> {
        self.chosen
    }

    /// The preference value the current candidate must be beaten at.
    pub closed spec fn spec_pref(&self) -> u8 {
        self.chosen_pref
    }

    /// An empty window: nothing chosen, preference floor zero.
    pub fn new() -> (r: Self)
        ensures
            r.spec_chosen() is None,
            r.spec_pref() == 0,
    {
        AdvertisementSelector { chosen: Option::None, chosen_pref: 0 }
    }

    /// Weighs one inbound reply.
    ///
    /// A reply that is not an ADVERTISE is skipped. One carrying a
    /// Preference option displaces the candidate exactly when its value is
    /// strictly greater than the current floor. One carrying none is
    /// adopted only while nothing has been chosen yet, so the first
    /// no-preference reply wins among its kind and a later one never
    /// displaces an earlier candidate.
    pub fn offer(&mut self, reply: Msg, addr: SockAddrV6)
        ensures
            reply@.msg_type != MSG_TYPE_ADVERTISE ==> final(self).spec_chosen()
                == old(self).spec_chosen() && final(self).spec_pref() == old(self).spec_pref(),
            reply@.msg_type == MSG_TYPE_ADVERTISE ==> match first_preference(reply@.opts) {
                Option::Some(p) => if p > old(self).spec_pref() {
                    final(self).spec_chosen() == Option::Some((reply, addr))
                        && final(self).spec_pref() == p
                } else {
                    final(self).spec_chosen() == old(self).spec_chosen()
                        && final(self).spec_pref() == old(self).spec_pref()
                },
                Option::None => if old(self).spec_chosen() is None {
                    final(self).spec_chosen() == Option::Some((reply, addr))
                        && final(self).spec_pref() == old(self).spec_pref()
                } else {
                    final(self).spec_chosen() == old(self).spec_chosen()
                        && final(self).spec_pref() == old(self).spec_pref()
                },
            },
    {
        if reply.msg_type != MSG_TYPE_ADVERTISE {
            return ;
        }
        match reply.preference() {
            Option::Some(p) => {
                if p > self.chosen_pref {
                    self.chosen_pref = p;
                    self.chosen = Option::Some((reply, addr));
                }
            },
            Option::None => {
                if self.chosen.is_none() {
                    self.chosen = Option::Some((reply, addr));
                }
            },
        }
    }

    /// Ends the window, yielding the chosen reply — `None` when no
    /// acceptable reply arrived before cancellation.
    pub fn finish(self) -> (r: Option<(Msg, SockAddrV6)>)
        ensures
            r == self.spec_chosen(),
    {
        self.chosen
    }
}

} // verus!
