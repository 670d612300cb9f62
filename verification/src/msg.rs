//! The message model: a DHCPv6 message as plain values, with the option
//! kinds this engine reads (client id, server id, preference, elapsed time)
//! and an opaque carrier for every other option.

use vstd::prelude::*;

verus! {

/// Message type octet of a SOLICIT.
pub const MSG_TYPE_SOLICIT: u8 = 1;

/// Message type octet of an ADVERTISE.
pub const MSG_TYPE_ADVERTISE: u8 = 2;

/// Message type octet of a REQUEST.
pub const MSG_TYPE_REQUEST: u8 = 3;

/// Message type octet of a REPLY.
pub const MSG_TYPE_REPLY: u8 = 7;

/// Option code of the Client Identifier option.
pub const OPT_CLIENT_ID: u16 = 1;

/// Option code of the Server Identifier option.
pub const OPT_SERVER_ID: u16 = 2;

/// Option code of the Preference option.
pub const OPT_PREFERENCE: u16 = 7;

/// Option code of the Elapsed Time option.
pub const OPT_ELAPSED_TIME: u16 = 8;

/// One DHCPv6 option. The kinds the engine inspects are carried as typed
/// values; every other option is carried as its code and raw payload.
#[derive(Debug)]
pub enum DhcpOpt {
    ClientId(Vec<u8>),
    ServerId(Vec<u8>),
    Preference(u8),
    ElapsedTime(u16),
    Other(u16, Vec<u8>),
}

/// The mathematical value of a [`DhcpOpt`]: byte payloads as sequences.
pub enum OptView {
    ClientId(Seq<u8>),
    ServerId(Seq<u8>),
    Preference(u8),
    ElapsedTime(u16),
    Other(u16, Seq<u8>),
}

impl View for DhcpOpt {
    type V = OptView;

    open spec fn view(&self) -> OptView {
        match self {
            DhcpOpt::ClientId(v) => OptView::ClientId(v@),
            DhcpOpt::ServerId(v) => OptView::ServerId(v@),
            DhcpOpt::Preference(p) => OptView::Preference(*p),
            DhcpOpt::ElapsedTime(t) => OptView::ElapsedTime(*t),
            DhcpOpt::Other(c, v) => OptView::Other(*c, v@),
        }
    }
}

/// The mathematical value of a sequence of options.
pub open spec fn opts_view(opts: Seq<DhcpOpt>) -> Seq<OptView> {
    opts.map(|i: int, o: DhcpOpt| o@)
}

/// A DHCPv6 message: type octet, 3-byte transaction id, options in order.
#[derive(Debug)]
pub struct Msg {
    pub msg_type: u8,
    pub xid: [u8; 3],
    pub opts: Vec<DhcpOpt>,
}

/// The mathematical value of a [`Msg`].
#[verifier::ext_equal]
pub struct MsgView {
    pub msg_type: u8,
    pub xid: Seq<u8>,
    pub opts: Seq<OptView>,
}

impl View for Msg {
    type V = MsgView;

    open spec fn view(&self) -> MsgView {
        MsgView { msg_type: self.msg_type, xid: self.xid@, opts: opts_view(self.opts@) }
    }
}

/// The registry key of a 3-byte transaction id: its big-endian value.
pub open spec fn spec_xid_key(xid: Seq<u8>) -> u32 {
    (xid[0] as int * 0x10000 + xid[1] as int * 0x100 + xid[2] as int) as u32
}

/// Packs a 3-byte transaction id into the integer key the registry is kept
/// under.
pub fn xid_key(xid: [u8; 3]) -> (r: u32)
    ensures
        r == spec_xid_key(xid@),
        r < 0x1000000,
{
    xid[0] as u32 * 0x10000 + xid[1] as u32 * 0x100 + xid[2] as u32
}

/// Copies a byte buffer.
pub(crate) fn clone_bytes(src: &Vec<u8>) -> (r: Vec<u8>)
    ensures
        r@ == src@,
{
    let mut out: Vec<u8> = Vec::new();
    let mut i: usize = 0;
    while i < src.len()
        invariant
            i <= src.len(),
            out@ == src@.take(i as int),
        decreases src.len() - i,
    {
        out.push(src[i]);
        proof {
            assert(src@.take(i + 1) =~= src@.take(i as int).push(src@[i as int]));
        }
        i += 1;
    }
    proof {
        assert(src@.take(src@.len() as int) =~= src@);
    }
    out
}

/// The value of the first Preference option of the list, if any — the one
/// the selection algorithm reads.
pub open spec fn first_preference(opts: Seq<OptView>) -> Option<u8>
    decreases opts.len(),
{
    if opts.len() == 0 {
        None
    } else {
        match opts[0] {
            OptView::Preference(p) => Some(p),
            _ => first_preference(opts.drop_first()),
        }
    }
}

/// The payload of the first Server Identifier option of the list, if any.
pub open spec fn first_server_id(opts: Seq<OptView>) -> Option<Seq<u8>>
    decreases opts.len(),
{
    if opts.len() == 0 {
        None
    } else {
        match opts[0] {
            OptView::ServerId(v) => Some(v),
            _ => first_server_id(opts.drop_first()),
        }
    }
}

/// The payload of the first opaque option carrying `code`, if any — how a
/// caller picks an option the engine does not interpret (an IA-PD, say)
/// out of a reply to echo it into a follow-up request.
pub open spec fn first_other(opts: Seq<OptView>, code: u16) -> Option<Seq<u8>>
    decreases opts.len(),
{
    if opts.len() == 0 {
        None
    } else {
        match opts[0] {
            OptView::Other(c, v) => if c == code {
                Some(v)
            } else {
                first_other(opts.drop_first(), code)
            },
            _ => first_other(opts.drop_first(), code),
        }
    }
}

impl Msg {
    /// The payload of the message's first opaque option carrying `code`,
    /// or `None` when it carries none.
    pub fn other_payload(&self, code: u16) -> (r: Option<&Vec<u8>>)
        ensures
            match first_other(self@.opts, code) {
                Option::Some(pv) => match r {
                    Option::Some(v) => v@ == pv,
                    Option::None => false,
                },
                Option::None => r is None,
            },
    {
        proof {
            assert(self@.opts.skip(0) =~= self@.opts);
        }
        let mut i: usize = 0;
        while i < self.opts.len()
            invariant
                i <= self.opts.len(),
                self@.opts.len() == self.opts.len(),
                first_other(self@.opts, code) == first_other(self@.opts.skip(i as int), code),
            decreases self.opts.len() - i,
        {
            proof {
                assert(self@.opts.skip(i as int)[0] == self@.opts[i as int]);
            }
            match &self.opts[i] {
                DhcpOpt::Other(c, v) => {
                    if *c == code {
                        return Some(v);
                    }
                },
                _ => {},
            }
            proof {
                assert(self@.opts.skip(i as int).drop_first() =~= self@.opts.skip(i + 1));
            }
            i += 1;
        }
        proof {
            assert(self@.opts.skip(i as int) =~= Seq::<OptView>::empty());
        }
        None
    }

    /// The value of the message's first Preference option, or `None` when
    /// it carries none.
    pub fn preference(&self) -> (r: Option<u8>)
        ensures
            r == first_preference(self@.opts),
    {
        proof {
            assert(self@.opts.skip(0) =~= self@.opts);
        }
        let mut i: usize = 0;
        while i < self.opts.len()
            invariant
                i <= self.opts.len(),
                self@.opts.len() == self.opts.len(),
                first_preference(self@.opts) == first_preference(self@.opts.skip(i as int)),
            decreases self.opts.len() - i,
        {
            proof {
                assert(self@.opts.skip(i as int)[0] == self@.opts[i as int]);
            }
            match &self.opts[i] {
                DhcpOpt::Preference(p) => {
                    return Some(*p);
                },
                _ => {},
            }
            proof {
                assert(self@.opts.skip(i as int).drop_first() =~= self@.opts.skip(i + 1));
            }
            i += 1;
        }
        proof {
            assert(self@.opts.skip(i as int) =~= Seq::<OptView>::empty());
        }
        None
    }

    /// The payload of the message's first Server Identifier option, or
    /// `None` when it carries none.
    pub fn server_id(&self) -> (r: Option<&Vec<u8>>)
        ensures
            match first_server_id(self@.opts) {
                Option::Some(idv) => match r {
                    Option::Some(v) => v@ == idv,
                    Option::None => false,
                },
                Option::None => r is None,
            },
    {
        proof {
            assert(self@.opts.skip(0) =~= self@.opts);
        }
        let mut i: usize = 0;
        while i < self.opts.len()
            invariant
                i <= self.opts.len(),
                self@.opts.len() == self.opts.len(),
                first_server_id(self@.opts) == first_server_id(self@.opts.skip(i as int)),
            decreases self.opts.len() - i,
        {
            proof {
                assert(self@.opts.skip(i as int)[0] == self@.opts[i as int]);
            }
            match &self.opts[i] {
                DhcpOpt::ServerId(v) => {
                    return Some(v);
                },
                _ => {},
            }
            proof {
                assert(self@.opts.skip(i as int).drop_first() =~= self@.opts.skip(i + 1));
            }
            i += 1;
        }
        proof {
            assert(self@.opts.skip(i as int) =~= Seq::<OptView>::empty());
        }
        None
    }
}

/// Two distinct transaction ids never share a registry key.
pub proof fn lemma_xid_key_injective(a: Seq<u8>, b: Seq<u8>)
    requires
        a.len() == 3,
        b.len() == 3,
        spec_xid_key(a) == spec_xid_key(b),
    ensures
        a == b,
{
    assert(a[0] == b[0] && a[1] == b[1] && a[2] == b[2]) by {
        let x = a[0] as int * 0x10000 + a[1] as int * 0x100 + a[2] as int;
        let y = b[0] as int * 0x10000 + b[1] as int * 0x100 + b[2] as int;
        assert(x < 0x1000000);
        assert(y < 0x1000000);
        assert(x == spec_xid_key(a));
        assert(y == spec_xid_key(b));
    };
    assert(a =~= b);
}

} // verus!
