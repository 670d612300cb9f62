use dhcproto::{Decodable, Encodable};
use router::codec::DhcpV6Codec;
use router::error::{DecodeError, DhcpError, EncodeError};
use router::msg::{DhcpOpt, Msg, MSG_TYPE_ADVERTISE, MSG_TYPE_SOLICIT};

fn sample_msg() -> Msg {
    Msg {
        msg_type: MSG_TYPE_SOLICIT,
        xid: [0xab, 0xcd, 0xef],
        opts: vec![
            DhcpOpt::ClientId(vec![1, 2, 3, 4]),
            DhcpOpt::ElapsedTime(0),
            DhcpOpt::Other(25, vec![9, 9, 9]),
        ],
    }
}

#[test]
fn encode_exact_bytes() {
    let codec = DhcpV6Codec {};
    let msg = Msg {
        msg_type: MSG_TYPE_ADVERTISE,
        xid: [1, 2, 3],
        opts: vec![DhcpOpt::Preference(7), DhcpOpt::ServerId(vec![0xaa, 0xbb])],
    };
    let bytes = codec.encode(&msg).unwrap();
    assert_eq!(
        bytes,
        vec![
            2, 1, 2, 3, // header: type, xid
            0, 7, 0, 1, 7, // preference option
            0, 2, 0, 2, 0xaa, 0xbb, // server id option
        ]
    );
}

#[test]
fn round_trip_solicit() {
    let codec = DhcpV6Codec {};
    let msg = sample_msg();
    let bytes = codec.encode(&msg).unwrap();
    let back = codec.decode(&bytes).unwrap().expect("complete message");
    assert_eq!(back.msg_type, MSG_TYPE_SOLICIT);
    assert_eq!(back.xid, [0xab, 0xcd, 0xef]);
    assert_eq!(back.opts.len(), 3);
    assert!(matches!(&back.opts[0], DhcpOpt::ClientId(v) if v == &vec![1u8, 2, 3, 4]));
    assert!(matches!(&back.opts[1], DhcpOpt::ElapsedTime(0)));
    assert!(matches!(&back.opts[2], DhcpOpt::Other(25, v) if v == &vec![9u8, 9, 9]));
}

#[test]
fn round_trip_empty_options() {
    let codec = DhcpV6Codec {};
    let msg = Msg { msg_type: MSG_TYPE_SOLICIT, xid: [0, 0, 1], opts: vec![] };
    let bytes = codec.encode(&msg).unwrap();
    assert_eq!(bytes, vec![1, 0, 0, 1]);
    let back = codec.decode(&bytes).unwrap().expect("complete message");
    assert_eq!(back.msg_type, MSG_TYPE_SOLICIT);
    assert_eq!(back.xid, [0, 0, 1]);
    assert!(back.opts.is_empty());
}

#[test]
fn decode_empty_buffer_is_no_message_yet() {
    let codec = DhcpV6Codec {};
    assert!(codec.decode(&vec![]).unwrap().is_none());
}

#[test]
fn decode_short_header_is_no_message_yet() {
    let codec = DhcpV6Codec {};
    assert!(codec.decode(&vec![1, 2, 3]).unwrap().is_none());
}

#[test]
fn decode_truncated_option_header_is_no_message_yet() {
    let codec = DhcpV6Codec {};
    // full message header, then two stray bytes of an option header
    assert!(codec.decode(&vec![1, 0, 0, 1, 0, 1]).unwrap().is_none());
}

#[test]
fn decode_truncated_option_payload_is_no_message_yet() {
    let codec = DhcpV6Codec {};
    // option announces 4 payload bytes but only 1 follows
    assert!(codec.decode(&vec![1, 0, 0, 1, 0, 1, 0, 4, 0xaa]).unwrap().is_none());
}

#[test]
fn decode_bad_preference_length_is_malformed() {
    let codec = DhcpV6Codec {};
    // preference option with a two-byte payload
    let r = codec.decode(&vec![1, 0, 0, 1, 0, 7, 0, 2, 5, 5]);
    assert_eq!(r.unwrap_err(), DecodeError::BadOptionLength(7));
}

#[test]
fn decode_bad_elapsed_time_length_is_malformed() {
    let codec = DhcpV6Codec {};
    // elapsed time option with a one-byte payload
    let r = codec.decode(&vec![1, 0, 0, 1, 0, 8, 0, 1, 5]);
    assert_eq!(r.unwrap_err(), DecodeError::BadOptionLength(8));
}

#[test]
fn encode_oversize_option_fails() {
    let codec = DhcpV6Codec {};
    let msg = Msg {
        msg_type: MSG_TYPE_SOLICIT,
        xid: [0, 0, 1],
        opts: vec![DhcpOpt::ClientId(vec![0u8; 65536])],
    };
    let e = codec.encode(&msg).unwrap_err();
    assert_eq!(e, EncodeError::OptionTooLong);
    assert_eq!(DhcpError::from(e), DhcpError::EncodeError(EncodeError::OptionTooLong));
}

#[test]
fn encode_full_size_option_succeeds() {
    let codec = DhcpV6Codec {};
    let msg = Msg {
        msg_type: MSG_TYPE_SOLICIT,
        xid: [0, 0, 1],
        opts: vec![DhcpOpt::ClientId(vec![7u8; 65535])],
    };
    let bytes = codec.encode(&msg).unwrap();
    assert_eq!(bytes.len(), 4 + 4 + 65535);
    let back = codec.decode(&bytes).unwrap().expect("complete message");
    assert!(matches!(&back.opts[0], DhcpOpt::ClientId(v) if v.len() == 65535));
}

#[test]
fn dhcproto_reads_our_encoding() {
    let codec = DhcpV6Codec {};
    let msg = Msg {
        msg_type: MSG_TYPE_SOLICIT,
        xid: [0x0a, 0x0b, 0x0c],
        opts: vec![DhcpOpt::ClientId(vec![1, 2, 3]), DhcpOpt::Preference(200)],
    };
    let bytes = codec.encode(&msg).unwrap();
    let their = dhcproto::v6::Message::decode(&mut dhcproto::Decoder::new(&bytes)).unwrap();
    assert_eq!(their.xid(), [0x0a, 0x0b, 0x0c]);
    assert_eq!(their.msg_type(), dhcproto::v6::MessageType::Solicit);
    assert_eq!(
        their.opts().get(dhcproto::v6::OptionCode::ClientId),
        Some(&dhcproto::v6::DhcpOption::ClientId(vec![1, 2, 3]))
    );
    assert_eq!(
        their.opts().get(dhcproto::v6::OptionCode::Preference),
        Some(&dhcproto::v6::DhcpOption::Preference(200))
    );
}

#[test]
fn our_decoder_reads_dhcproto_encoding() {
    let mut their = dhcproto::v6::Message::new(dhcproto::v6::MessageType::Advertise);
    their.set_xid([9, 8, 7]);
    let mut opts = dhcproto::v6::DhcpOptions::new();
    opts.insert(dhcproto::v6::DhcpOption::Preference(42));
    their.set_opts(opts);
    let mut buf = Vec::new();
    let mut enc = dhcproto::Encoder::new(&mut buf);
    their.encode(&mut enc).unwrap();

    let codec = DhcpV6Codec {};
    let ours = codec.decode(&buf).unwrap().expect("complete message");
    assert_eq!(ours.msg_type, MSG_TYPE_ADVERTISE);
    assert_eq!(ours.xid, [9, 8, 7]);
    assert!(matches!(&ours.opts[0], DhcpOpt::Preference(42)));

    // and the round trip through both codecs agrees byte for byte
    let again = codec.encode(&ours).unwrap();
    assert_eq!(again, buf);
}
