//! The facade's message building and the register-then-send protocol.
//!
//! Building a request is pure: a fresh transaction id and the caller's
//! options come in, the finished message comes out, with the Client
//! Identifier option (and, for a REQUEST, the chosen server's identifier)
//! prepended. The id itself is drawn by the surrounding runtime.
//!
//! [`SolicitFlow`] pins the ordering that prevents lost-response races:
//! interest in a transaction id is registered, and acknowledged, before the
//! request datagram may be transmitted.

use vstd::prelude::*;

use crate::dhcp::Server;
use crate::msg::{
    clone_bytes, opts_view, DhcpOpt, Msg, OptView, MSG_TYPE_REQUEST, MSG_TYPE_SOLICIT,
};

verus! {

/// Builds a SOLICIT message: the client identifier option first, then the
/// caller's options, in order.
pub fn build_solicit(xid: [u8; 3], client_id: &Vec<u8>, opts: Vec<DhcpOpt>) -> (m: Msg)
    ensures
        m@.msg_type == MSG_TYPE_SOLICIT,
        m@.xid == xid@,
        m@.opts == seq![OptView::ClientId(client_id@)] + opts_view(opts@),
{
    let ghost opts0 = opts@;
    let mut all: Vec<DhcpOpt> = Vec::new();
    all.push(DhcpOpt::ClientId(clone_bytes(client_id)));
    let mut rest = opts;
    all.append(&mut rest);
    let m = Msg { msg_type: MSG_TYPE_SOLICIT, xid, opts: all };
    proof {
        assert(m@.opts =~= seq![OptView::ClientId(client_id@)] + opts_view(opts0));
    }
    m
}

/// Builds a REQUEST message targeted at a previously discovered server:
/// the client identifier option, the server's identifier echoed back, then
/// the caller's options, in order.
pub fn build_request(xid: [u8; 3], client_id: &Vec<u8>, server: &Server, opts: Vec<DhcpOpt>) -> (m:
    Msg)
    ensures
        m@.msg_type == MSG_TYPE_REQUEST,
        m@.xid == xid@,
        m@.opts == seq![OptView::ClientId(client_id@), OptView::ServerId(server.id@)] + opts_view(
            opts@,
        ),
{
    let ghost opts0 = opts@;
    let mut all: Vec<DhcpOpt> = Vec::new();
    all.push(DhcpOpt::ClientId(clone_bytes(client_id)));
    all.push(DhcpOpt::ServerId(clone_bytes(&server.id)));
    let mut rest = opts;
    all.append(&mut rest);
    let m = Msg { msg_type: MSG_TYPE_REQUEST, xid, opts: all };
    proof {
        assert(m@.opts =~= seq![
            OptView::ClientId(client_id@),
            OptView::ServerId(server.id@),
        ] + opts_view(opts0));
    }
    m
}

/// Where one outbound request stands in the register-then-send protocol.
#[derive(Debug, Clone, Copy, PartialEq, Eq, Structural)]
pub enum SolicitPhase {
    /// The request exists; nothing has happened yet.
    Created,
    /// Interest in its transaction id is registered with the read actor.
    Registered,
    /// The request datagram has been handed to the socket.
    Transmitted,
}

/// The per-request state machine that makes "register, then transmit" a
/// checked obligation instead of a convention: `mark_transmitted` is only
/// callable on a flow that has passed through `mark_registered`, so a reply
/// can never find its transaction unregistered because the request raced
/// ahead of the registration.
pub struct SolicitFlow {
    phase: SolicitPhase,
    xid: u32,
}

impl SolicitFlow {
    /// The phase this request is in.
    pub closed spec fn spec_phase(&self) -> SolicitPhase {
        self.phase
    }

    /// The packed transaction id the request carries.
    pub closed spec fn spec_xid(&self) -> u32 {
        self.xid
    }

    /// Starts the protocol for one request.
    pub fn begin(xid: u32) -> (r: Self)
        ensures
            r.spec_phase() == SolicitPhase::Created,
            r.spec_xid() == xid,
    {
        SolicitFlow { phase: SolicitPhase::Created, xid }
    }

    /// Records that the registration of this transaction id has been
    /// accepted by the read actor. Must precede transmission.
    pub fn mark_registered(&mut self)
        requires
            old(self).spec_phase() == SolicitPhase::Created,
        ensures
            final(self).spec_phase() == SolicitPhase::Registered,
            final(self).spec_xid() == old(self).spec_xid(),
    {
        self.phase = SolicitPhase::Registered;
    }

    /// Records that the request datagram has been handed to the socket;
    /// only a registered flow may transmit.
    pub fn mark_transmitted(&mut self)
        requires
            old(self).spec_phase() == SolicitPhase::Registered,
        ensures
            final(self).spec_phase() == SolicitPhase::Transmitted,
            final(self).spec_xid() == old(self).spec_xid(),
    {
        self.phase = SolicitPhase::Transmitted;
    }

    /// The packed transaction id, for the registration message.
    pub fn xid(&self) -> (r: u32)
        ensures
            r == self.spec_xid(),
    {
        self.xid
    }
}

} // verus!
