//! Protocol constants, the IPv6 endpoint value the engine works with, and
//! the server identity derived from a reply.

use vstd::prelude::*;

use crate::msg::{first_server_id, Msg, clone_bytes};

verus! {

/// The well-known port servers and relay agents listen on.
pub const SERVER_PORT: u16 = 547;

/// The well-known port clients listen on.
pub const CLIENT_PORT: u16 = 546;

/// The bytes of the All_DHCP_Relay_Agents_and_Servers multicast address,
/// ff02::1:2, which every outbound request is sent to.
pub const ALL_DHCP_RELAY_AGENTS_AND_SERVERS: [u8; 16] = [
    0xff,
    0x02,
    0,
    0,
    0,
    0,
    0,
    0,
    0,
    0,
    0,
    0,
    0,
    0,
    0x01,
    0x02,
];

/// An IPv6 socket endpoint as plain values: the engine only ever carries
/// such an endpoint through, so it keeps the address bytes, port, flow
/// label and scope id and nothing else.
#[derive(Debug, Clone, Copy, PartialEq, Eq, Hash)]
pub struct SockAddrV6 {
    pub ip: [u8; 16],
    pub port: u16,
    pub flowinfo: u32,
    pub scope_id: u32,
}

/// A replying server: the payload of its Server Identifier option plus the
/// source endpoint its reply arrived from. Recomputed per reply, never
/// cached.
#[derive(Debug, PartialEq, Eq, Hash)]
pub struct Server {
    pub id: Vec<u8>,
    pub addr: SockAddrV6,
}

impl Server {
    /// Constructs a server from the first Server Identifier option in
    /// `msg` and the reply's source endpoint; `None` exactly when the
    /// message carries no Server Identifier option.
    pub fn from_msg(msg: &Msg, addr: SockAddrV6) -> (r: Option<Server>)
        ensures
            match first_server_id(msg@.opts) {
                Option::Some(idv) => match r {
                    Option::Some(s) => s.id@ == idv && s.addr == addr,
                    Option::None => false,
                },
                Option::None => r is None,
            },
    {
        match msg.server_id() {
            Option::Some(v) => Option::Some(Server { id: clone_bytes(v), addr }),
            Option::None => Option::None,
        }
    }
}

} // verus!
