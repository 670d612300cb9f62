//! The wire codec: a stateless, bidirectional transform between a message
//! value and its standard DHCPv6 byte form — one message type octet, the
//! 3-byte transaction id, then each option as code (2 bytes, big endian),
//! payload length (2 bytes, big endian) and payload.
//!
//! `decode` distinguishes a buffer that is merely too short ("no message
//! yet", so bytes may be accumulated across reads) from one that is
//! malformed; `encode` is total for well-formed messages.

use vstd::prelude::*;

use crate::error::{DecodeError, EncodeError};
use crate::msg::{
    DhcpOpt, Msg, MsgView, OptView, opts_view, OPT_CLIENT_ID, OPT_ELAPSED_TIME, OPT_PREFERENCE,
    OPT_SERVER_ID,
};

verus! {

/// The code of an option, as it appears on the wire.
pub open spec fn opt_code(o: OptView) -> u16 {
    match o {
        OptView::ClientId(_) => OPT_CLIENT_ID,
        OptView::ServerId(_) => OPT_SERVER_ID,
        OptView::Preference(_) => OPT_PREFERENCE,
        OptView::ElapsedTime(_) => OPT_ELAPSED_TIME,
        OptView::Other(c, _) => c,
    }
}

/// The payload bytes of an option, as they appear on the wire.
pub open spec fn opt_payload(o: OptView) -> Seq<u8> {
    match o {
        OptView::ClientId(v) => v,
        OptView::ServerId(v) => v,
        OptView::Preference(p) => seq![p],
        OptView::ElapsedTime(t) => seq![hi16(t), lo16(t)],
        OptView::Other(_, v) => v,
    }
}

/// High byte of a 16-bit big-endian field.
pub open spec fn hi16(x: u16) -> u8 {
    (x / 0x100) as u8
}

/// Low byte of a 16-bit big-endian field.
pub open spec fn lo16(x: u16) -> u8 {
    (x % 0x100) as u8
}

/// The 16-bit value read back from two big-endian bytes.
pub open spec fn be16(hi: u8, lo: u8) -> u16 {
    (hi as int * 0x100 + lo as int) as u16
}

/// An option whose payload fits the 16-bit length field. `encode` succeeds
/// exactly when every option satisfies this.
pub open spec fn opt_len_ok(o: OptView) -> bool {
    opt_payload(o).len() <= 0xFFFF
}

/// A well-formed option: its payload fits the length field, and an opaque
/// option does not usurp a code that the engine carries as a typed value
/// (decoding always yields the typed form for those codes).
pub open spec fn opt_wf(o: OptView) -> bool {
    &&& opt_len_ok(o)
    &&& match o {
        OptView::Other(c, _) => c != OPT_CLIENT_ID && c != OPT_SERVER_ID && c != OPT_PREFERENCE
            && c != OPT_ELAPSED_TIME,
        _ => true,
    }
}

/// A well-formed message: a 3-byte transaction id and well-formed options.
pub open spec fn msg_wf(m: MsgView) -> bool {
    &&& m.xid.len() == 3
    &&& forall|i: int| 0 <= i < m.opts.len() ==> opt_wf(#[trigger] m.opts[i])
}

/// Every option payload fits the length field.
pub open spec fn msg_encodable(m: MsgView) -> bool {
    forall|i: int| 0 <= i < m.opts.len() ==> opt_len_ok(#[trigger] m.opts[i])
}

/// The wire form of one option.
pub open spec fn enc_opt(o: OptView) -> Seq<u8> {
    let code = opt_code(o);
    let len = opt_payload(o).len() as u16;
    seq![hi16(code), lo16(code), hi16(len), lo16(len)] + opt_payload(o)
}

/// The wire form of a sequence of options, in order.
pub open spec fn enc_opts(s: Seq<OptView>) -> Seq<u8>
    decreases s.len(),
{
    if s.len() == 0 {
        Seq::empty()
    } else {
        enc_opt(s[0]) + enc_opts(s.drop_first())
    }
}

/// The wire form of a whole message.
pub open spec fn enc_msg(m: MsgView) -> Seq<u8> {
    seq![m.msg_type, m.xid[0], m.xid[1], m.xid[2]] + enc_opts(m.opts)
}

/// What reading a byte buffer back yields.
#[verifier::ext_equal]
pub enum DecOutcome {
    /// A complete message.
    Done(MsgView),
    /// Fewer bytes than a complete message requires: no message yet.
    Incomplete,
    /// The bytes can never grow into a valid message; the field holds the
    /// code of the offending option.
    Malformed(u16),
}

/// What reading an option list back yields.
#[verifier::ext_equal]
pub enum OptsOutcome {
    Parsed(Seq<OptView>),
    Incomplete,
    Malformed(u16),
}

/// The option a code and payload decode to; `None` when a fixed-size option
/// carries the wrong payload length.
pub open spec fn parse_opt(code: u16, payload: Seq<u8>) -> Option<OptView> {
    if code == OPT_CLIENT_ID {
        Some(OptView::ClientId(payload))
    } else if code == OPT_SERVER_ID {
        Some(OptView::ServerId(payload))
    } else if code == OPT_PREFERENCE {
        if payload.len() == 1 {
            Some(OptView::Preference(payload[0]))
        } else {
            None
        }
    } else if code == OPT_ELAPSED_TIME {
        if payload.len() == 2 {
            Some(OptView::ElapsedTime(be16(payload[0], payload[1])))
        } else {
            None
        }
    } else {
        Some(OptView::Other(code, payload))
    }
}

/// Reads an option list from a byte buffer: options back to back until the
/// buffer ends. A truncated header or payload means the buffer is not yet
/// complete; a bad fixed-size payload means it never will be.
pub open spec fn dec_opts(s: Seq<u8>) -> OptsOutcome
    decreases s.len(),
{
    if s.len() == 0 {
        OptsOutcome::Parsed(Seq::empty())
    } else if s.len() < 4 {
        OptsOutcome::Incomplete
    } else {
        let code = be16(s[0], s[1]);
        let len = be16(s[2], s[3]) as int;
        if s.len() < 4 + len {
            OptsOutcome::Incomplete
        } else {
            match parse_opt(code, s.subrange(4, 4 + len)) {
                Option::None => OptsOutcome::Malformed(code),
                Option::Some(o) => match dec_opts(s.skip(4 + len)) {
                    OptsOutcome::Parsed(rest) => OptsOutcome::Parsed(seq![o] + rest),
                    OptsOutcome::Incomplete => OptsOutcome::Incomplete,
                    OptsOutcome::Malformed(c) => OptsOutcome::Malformed(c),
                },
            }
        }
    }
}

/// Reads a whole message from a byte buffer.
pub open spec fn dec_msg(s: Seq<u8>) -> DecOutcome {
    if s.len() < 4 {
        DecOutcome::Incomplete
    } else {
        match dec_opts(s.skip(4)) {
            OptsOutcome::Parsed(opts) => DecOutcome::Done(
                MsgView { msg_type: s[0], xid: seq![s[1], s[2], s[3]], opts },
            ),
            OptsOutcome::Incomplete => DecOutcome::Incomplete,
            OptsOutcome::Malformed(c) => DecOutcome::Malformed(c),
        }
    }
}

/// A 16-bit value survives the split into its two big-endian bytes.
pub proof fn lemma_be16_round_trip(x: u16)
    ensures
        be16(hi16(x), lo16(x)) == x,
{
    assert(x as int == (x as int / 0x100) * 0x100 + x as int % 0x100) by (nonlinear_arith);
    assert(x / 0x100 < 0x100);
}

/// Decoding undoes encoding, option list by option list.
proof fn lemma_enc_dec_opts(s: Seq<OptView>)
    requires
        forall|i: int| 0 <= i < s.len() ==> opt_wf(#[trigger] s[i]),
    ensures
        dec_opts(enc_opts(s)) == OptsOutcome::Parsed(s),
    decreases s.len(),
{
    if s.len() == 0 {
        assert(s =~= Seq::<OptView>::empty());
    } else {
        let o = s[0];
        let code = opt_code(o);
        let payload = opt_payload(o);
        let plen = payload.len() as u16;
        let e = enc_opts(s);
        let eo = enc_opt(o);
        let rest = enc_opts(s.drop_first());
        assert(e == eo + rest);
        assert(eo.len() == 4 + payload.len());
        lemma_be16_round_trip(code);
        lemma_be16_round_trip(plen);
        assert(e[0] == hi16(code) && e[1] == lo16(code));
        assert(e[2] == hi16(plen) && e[3] == lo16(plen));
        assert(be16(e[0], e[1]) == code);
        assert(be16(e[2], e[3]) as int == payload.len());
        assert(e.len() == 4 + payload.len() + rest.len());
        assert(e.subrange(4, 4 + payload.len() as int) =~= payload);
        // the decoded first option is exactly `o`
        assert(parse_opt(code, payload) == Option::Some(o)) by {
            match o {
                OptView::Preference(p) => {
                    assert(payload == seq![p]);
                    assert(payload.len() == 1 && payload[0] == p);
                },
                OptView::ElapsedTime(t) => {
                    assert(payload.len() == 2);
                    assert(payload[0] == hi16(t) && payload[1] == lo16(t));
                    lemma_be16_round_trip(t);
                },
                _ => {},
            }
        };
        assert(e.skip(4 + payload.len() as int) =~= rest);
        lemma_enc_dec_opts(s.drop_first());
        assert(seq![o] + s.drop_first() =~= s);
    }
}

/// Appending one option to a list appends its wire form to the list's.
proof fn lemma_enc_opts_take_succ(s: Seq<OptView>, i: int)
    requires
        0 <= i < s.len(),
    ensures
        enc_opts(s.take(i + 1)) == enc_opts(s.take(i)) + enc_opt(s[i]),
    decreases i,
{
    if i == 0 {
        assert(s.take(0) =~= Seq::<OptView>::empty());
        assert(s.take(1).drop_first() =~= Seq::<OptView>::empty());
        assert(s.take(1)[0] == s[0]);
        assert(enc_opt(s[0]) + Seq::<u8>::empty() =~= enc_opt(s[0]));
        assert(Seq::<u8>::empty() + enc_opt(s[0]) =~= enc_opt(s[0]));
    } else {
        let t = s.drop_first();
        lemma_enc_opts_take_succ(t, i - 1);
        assert(s.take(i + 1).drop_first() =~= t.take(i));
        assert(s.take(i).drop_first() =~= t.take(i - 1));
        assert(s.take(i + 1)[0] == s[0]);
        assert(s.take(i)[0] == s[0]);
        assert(t[i - 1] == s[i]);
        assert(enc_opt(s[0]) + (enc_opts(t.take(i - 1)) + enc_opt(s[i])) =~= (enc_opt(s[0])
            + enc_opts(t.take(i - 1))) + enc_opt(s[i]));
    }
}

/// Glues a prefix of already-read options onto the outcome of reading the
/// rest of the buffer.
pub open spec fn opts_compose(acc: Seq<OptView>, rest: OptsOutcome) -> OptsOutcome {
    match rest {
        OptsOutcome::Parsed(r) => OptsOutcome::Parsed(acc + r),
        OptsOutcome::Incomplete => OptsOutcome::Incomplete,
        OptsOutcome::Malformed(c) => OptsOutcome::Malformed(c),
    }
}

proof fn lemma_opts_compose_push(a: Seq<OptView>, o: OptView, x: OptsOutcome)
    ensures
        opts_compose(a, opts_compose(seq![o], x)) == opts_compose(a.push(o), x),
{
    match x {
        OptsOutcome::Parsed(r) => {
            assert(a + (seq![o] + r) =~= a.push(o) + r);
        },
        _ => {},
    }
}

/// Unfolds one option's worth of `dec_opts` at offset `i` of `s`.
proof fn lemma_dec_opts_unfold(s: Seq<u8>, i: int)
    requires
        0 <= i,
        i + 4 <= s.len(),
        i + 4 + be16(s[i + 2], s[i + 3]) <= s.len(),
    ensures
        ({
            let code = be16(s[i], s[i + 1]);
            let len = be16(s[i + 2], s[i + 3]) as int;
            match parse_opt(code, s.subrange(i + 4, i + 4 + len)) {
                Option::Some(o) => dec_opts(s.skip(i)) == opts_compose(
                    seq![o],
                    dec_opts(s.skip(i + 4 + len)),
                ),
                Option::None => dec_opts(s.skip(i)) == OptsOutcome::Malformed(
                    be16(s[i], s[i + 1]),
                ),
            }
        }),
{
    let t = s.skip(i);
    let len = be16(s[i + 2], s[i + 3]) as int;
    assert(t.len() == s.len() - i);
    assert(t[0] == s[i] && t[1] == s[i + 1] && t[2] == s[i + 2] && t[3] == s[i + 3]);
    assert(t.subrange(4, 4 + len) =~= s.subrange(i + 4, i + 4 + len));
    assert(t.skip(4 + len) =~= s.skip(i + 4 + len));
    match parse_opt(be16(s[i], s[i + 1]), s.subrange(i + 4, i + 4 + len)) {
        Option::Some(o) => {
            match dec_opts(s.skip(i + 4 + len)) {
                OptsOutcome::Parsed(rest) => {
                    assert(dec_opts(t) == OptsOutcome::Parsed(seq![o] + rest));
                },
                _ => {},
            }
        },
        Option::None => {},
    }
}

/// A buffer that ends inside an option header or payload yields no option
/// list yet.
proof fn lemma_dec_opts_incomplete(s: Seq<u8>, i: int)
    requires
        0 <= i < s.len(),
        s.len() - i < 4 || i + 4 + be16(s[i + 2], s[i + 3]) > s.len(),
    ensures
        dec_opts(s.skip(i)) == OptsOutcome::Incomplete,
{
    let t = s.skip(i);
    assert(t.len() == s.len() - i);
    if s.len() - i >= 4 {
        assert(t[2] == s[i + 2] && t[3] == s[i + 3]);
    }
}

/// Round trip: decoding the wire form of a well-formed message yields that
/// message again — same type octet, same transaction id, same option list.
pub proof fn lemma_round_trip(m: MsgView)
    requires
        msg_wf(m),
    ensures
        dec_msg(enc_msg(m)) == DecOutcome::Done(m),
{
    let e = enc_msg(m);
    assert(e.len() >= 4);
    assert(e.skip(4) =~= enc_opts(m.opts));
    lemma_enc_dec_opts(m.opts);
    let d = dec_msg(e);
    assert(d is Done);
    assert(d->Done_0 =~= m);
}

/// The stateless wire codec.
pub struct DhcpV6Codec {}

fn push_u16_be(out: &mut Vec<u8>, x: u16)
    ensures
        final(out)@ == old(out)@ + seq![hi16(x), lo16(x)],
{
    out.push((x / 0x100) as u8);
    out.push((x % 0x100) as u8);
    assert(out@ =~= old(out)@ + seq![hi16(x), lo16(x)]);
}

fn push_bytes(out: &mut Vec<u8>, src: &Vec<u8>)
    ensures
        final(out)@ == old(out)@ + src@,
{
    let mut i: usize = 0;
    while i < src.len()
        invariant
            i <= src.len(),
            out@ == old(out)@ + src@.take(i as int),
        decreases src.len() - i,
    {
        out.push(src[i]);
        proof {
            assert(src@.take(i + 1) =~= src@.take(i as int).push(src@[i as int]));
        }
        i += 1;
    }
    proof {
        assert(src@.take(src@.len() as int) =~= src@);
    }
}

impl DhcpV6Codec {
    /// Writes a message in its wire form. Succeeds exactly when every
    /// option payload fits the 16-bit length field, and then produces
    /// exactly `enc_msg` of the message.
    pub fn encode(&self, m: &Msg) -> (r: Result<Vec<u8>, EncodeError>)
        ensures
            r is Ok <==> msg_encodable(m@),
            match r {
                Result::Ok(b) => b@ == enc_msg(m@),
                Result::Err(e) => e == EncodeError::OptionTooLong,
            },
    {
        let mut out: Vec<u8> = Vec::new();
        out.push(m.msg_type);
        out.push(m.xid[0]);
        out.push(m.xid[1]);
        out.push(m.xid[2]);
        proof {
            assert(out@ =~= seq![m@.msg_type, m@.xid[0], m@.xid[1], m@.xid[2]]);
            assert(m@.opts.take(0) =~= Seq::<OptView>::empty());
            assert(out@ + Seq::<u8>::empty() =~= out@);
        }
        let mut i: usize = 0;
        while i < m.opts.len()
            invariant
                i <= m.opts.len(),
                m@.opts.len() == m.opts.len(),
                forall|j: int| 0 <= j < i ==> opt_len_ok(#[trigger] m@.opts[j]),
                out@ == seq![m@.msg_type, m@.xid[0], m@.xid[1], m@.xid[2]] + enc_opts(
                    m@.opts.take(i as int),
                ),
            decreases m.opts.len() - i,
        {
            let ghost o = m@.opts[i as int];
            let ghost before = out@;
            match &m.opts[i] {
                DhcpOpt::ClientId(v) => {
                    if v.len() > 0xFFFF {
                        return Result::Err(EncodeError::OptionTooLong);
                    }
                    push_u16_be(&mut out, OPT_CLIENT_ID);
                    push_u16_be(&mut out, v.len() as u16);
                    push_bytes(&mut out, v);
                },
                DhcpOpt::ServerId(v) => {
                    if v.len() > 0xFFFF {
                        return Result::Err(EncodeError::OptionTooLong);
                    }
                    push_u16_be(&mut out, OPT_SERVER_ID);
                    push_u16_be(&mut out, v.len() as u16);
                    push_bytes(&mut out, v);
                },
                DhcpOpt::Preference(p) => {
                    push_u16_be(&mut out, OPT_PREFERENCE);
                    push_u16_be(&mut out, 1);
                    out.push(*p);
                },
                DhcpOpt::ElapsedTime(t) => {
                    push_u16_be(&mut out, OPT_ELAPSED_TIME);
                    push_u16_be(&mut out, 2);
                    push_u16_be(&mut out, *t);
                },
                DhcpOpt::Other(c, v) => {
                    if v.len() > 0xFFFF {
                        return Result::Err(EncodeError::OptionTooLong);
                    }
                    push_u16_be(&mut out, *c);
                    push_u16_be(&mut out, v.len() as u16);
                    push_bytes(&mut out, v);
                },
            }
            proof {
                assert(out@ =~= before + enc_opt(o));
                lemma_enc_opts_take_succ(m@.opts, i as int);
                assert(out@ =~= seq![m@.msg_type, m@.xid[0], m@.xid[1], m@.xid[2]] + enc_opts(
                    m@.opts.take(i + 1),
                ));
            }
            i += 1;
        }
        proof {
            assert(m@.opts.take(m@.opts.len() as int) =~= m@.opts);
        }
        Result::Ok(out)
    }

    /// Reads a message back from its wire form: `Ok(Some(..))` for a
    /// complete message, `Ok(None)` when the buffer holds fewer bytes than
    /// a complete message requires, and an error for bytes that can never
    /// grow into a valid message.
    pub fn decode(&self, src: &Vec<u8>) -> (r: Result<Option<Msg>, DecodeError>)
        ensures
            match dec_msg(src@) {
                DecOutcome::Done(mv) => match r {
                    Result::Ok(Option::Some(m2)) => m2@ == mv,
                    _ => false,
                },
                DecOutcome::Incomplete => r == Result::<Option<Msg>, DecodeError>::Ok(
                    Option::None,
                ),
                DecOutcome::Malformed(c) => r == Result::<Option<Msg>, DecodeError>::Err(
                    DecodeError::BadOptionLength(c),
                ),
            },
    {
        if src.len() < 4 {
            return Result::Ok(Option::None);
        }
        let mut opts: Vec<DhcpOpt> = Vec::new();
        let mut i: usize = 4;
        proof {
            assert(opts_view(opts@) =~= Seq::<OptView>::empty());
            assert(src@.skip(4).skip(0) =~= src@.skip(4));
        }
        while i < src.len()
            invariant
                4 <= i <= src.len(),
                dec_opts(src@.skip(4)) == opts_compose(opts_view(opts@), dec_opts(src@.skip(i as int))),
            decreases src.len() - i,
        {
            if src.len() - i < 4 {
                proof {
                    lemma_dec_opts_incomplete(src@, i as int);
                }
                return Result::Ok(Option::None);
            }
            let code: u16 = (src[i] as u16) * 0x100 + (src[i + 1] as u16);
            let plen: usize = (src[i + 2] as usize) * 0x100 + (src[i + 3] as usize);
            if src.len() - i - 4 < plen {
                proof {
                    lemma_dec_opts_incomplete(src@, i as int);
                }
                return Result::Ok(Option::None);
            }
            let mut payload: Vec<u8> = Vec::new();
            let mut k: usize = 0;
            proof {
                assert(payload@ =~= src@.subrange(i + 4, i + 4));
            }
            while k < plen
                invariant
                    k <= plen,
                    4 <= i,
                    i + 4 + plen <= src.len(),
                    payload@ == src@.subrange(i + 4, i + 4 + k),
                decreases plen - k,
            {
                payload.push(src[i + 4 + k]);
                proof {
                    assert(src@.subrange(i + 4, i + 4 + k + 1) =~= src@.subrange(
                        i + 4,
                        i + 4 + k as int,
                    ).push(src@[i + 4 + k]));
                }
                k += 1;
            }
            let ghost pv = src@.subrange(i as int + 4, i as int + 4 + plen as int);
            proof {
                lemma_dec_opts_unfold(src@, i as int);
            }
            let od: DhcpOpt = if code == OPT_CLIENT_ID {
                DhcpOpt::ClientId(payload)
            } else if code == OPT_SERVER_ID {
                DhcpOpt::ServerId(payload)
            } else if code == OPT_PREFERENCE {
                if payload.len() != 1 {
                    return Result::Err(DecodeError::BadOptionLength(code));
                }
                DhcpOpt::Preference(payload[0])
            } else if code == OPT_ELAPSED_TIME {
                if payload.len() != 2 {
                    return Result::Err(DecodeError::BadOptionLength(code));
                }
                DhcpOpt::ElapsedTime((payload[0] as u16) * 0x100 + (payload[1] as u16))
            } else {
                DhcpOpt::Other(code, payload)
            };
            proof {
                assert(parse_opt(be16(src@[i as int], src@[i as int + 1]), pv) == Option::Some(
                    od@,
                ));
                lemma_opts_compose_push(opts_view(opts@), od@, dec_opts(src@.skip(i + 4 + plen)));
                assert(opts_view(opts@.push(od)) =~= opts_view(opts@).push(od@));
            }
            opts.push(od);
            i = i + 4 + plen;
        }
        proof {
            assert(src@.skip(i as int) =~= Seq::<u8>::empty());
            assert(opts_view(opts@) + Seq::<OptView>::empty() =~= opts_view(opts@));
        }
        let msg = Msg { msg_type: src[0], xid: [src[1], src[2], src[3]], opts };
        proof {
            assert(msg@.xid =~= seq![src@[1], src@[2], src@[3]]);
        }
        Result::Ok(Option::Some(msg))
    }
}

} // verus!
