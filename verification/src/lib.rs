//! A DHCPv6 client engine: it correlates asynchronous replies to the request
//! that caused them through a transaction-id-keyed subscriber registry, picks
//! the best advertisement among several candidates, and speaks the standard
//! wire format (message type octet, 3-byte transaction id, TLV options).
//!
//! The surrounding socket, channel and timer plumbing is ordinary async code;
//! the decisions it takes (wire coding, routing, selection, registration
//! ordering) live here, each with a proved contract.

pub mod client;
pub mod codec;
pub mod dhcp;
pub mod registry;
pub mod selector;
pub mod error;
pub mod msg;
