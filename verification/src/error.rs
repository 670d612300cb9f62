//! Error values surfaced by the engine.

use vstd::prelude::*;

verus! {

/// Why a message could not be put on the wire.
#[derive(Debug, PartialEq, Eq, Structural, Clone, Copy)]
pub enum EncodeError {
    /// An option's payload does not fit the 16-bit length field.
    OptionTooLong,
}

/// Why a byte buffer could not be read back as a message.
#[derive(Debug, PartialEq, Eq, Structural, Clone, Copy)]
pub enum DecodeError {
    /// A fixed-size option arrived with the wrong payload length; the field
    /// holds the offending option code.
    BadOptionLength(u16),
}

/// The error the public client operations surface.
#[derive(Debug, PartialEq, Eq, Structural, Clone, Copy)]
pub enum DhcpError {
    EncodeError(EncodeError),
}

impl From<EncodeError> for DhcpError {
    fn from(value: EncodeError) -> (r: Self) {
        DhcpError::EncodeError(value)
    }
}

impl vstd::std_specs::convert::FromSpecImpl<EncodeError> for DhcpError {
    open spec fn obeys_from_spec() -> bool {
        true
    }

    open spec fn from_spec(value: EncodeError) -> Self {
        DhcpError::EncodeError(value)
    }
}

} // verus!
