use router::client::{build_request, build_solicit, SolicitFlow, SolicitPhase};
use router::dhcp::{Server, SockAddrV6, ALL_DHCP_RELAY_AGENTS_AND_SERVERS, CLIENT_PORT, SERVER_PORT};
use router::msg::{xid_key, DhcpOpt, Msg, MSG_TYPE_ADVERTISE, MSG_TYPE_REQUEST, MSG_TYPE_SOLICIT};

fn endpoint() -> SockAddrV6 {
    SockAddrV6 { ip: [0xfe, 0x80, 0, 0, 0, 0, 0, 0, 0, 0, 0, 0, 0, 0, 0, 9], port: SERVER_PORT, flowinfo: 0, scope_id: 3 }
}

#[test]
fn solicit_prepends_client_id() {
    let msg = build_solicit([1, 2, 3], &vec![0xde, 0xad], vec![DhcpOpt::ElapsedTime(0)]);
    assert_eq!(msg.msg_type, MSG_TYPE_SOLICIT);
    assert_eq!(msg.xid, [1, 2, 3]);
    assert_eq!(msg.opts.len(), 2);
    assert!(matches!(&msg.opts[0], DhcpOpt::ClientId(v) if v == &vec![0xde, 0xad]));
    assert!(matches!(&msg.opts[1], DhcpOpt::ElapsedTime(0)));
}

#[test]
fn solicit_keeps_caller_options_in_order() {
    let msg = build_solicit(
        [0, 0, 1],
        &vec![1],
        vec![DhcpOpt::Other(25, vec![5]), DhcpOpt::Other(14, vec![])],
    );
    assert!(matches!(&msg.opts[1], DhcpOpt::Other(25, v) if v == &vec![5u8]));
    assert!(matches!(&msg.opts[2], DhcpOpt::Other(14, v) if v.is_empty()));
}

#[test]
fn request_echoes_server_identifier() {
    let server = Server { id: vec![7, 7, 7], addr: endpoint() };
    let msg = build_request([9, 9, 9], &vec![0xaa], &server, vec![DhcpOpt::Other(25, vec![1])]);
    assert_eq!(msg.msg_type, MSG_TYPE_REQUEST);
    assert_eq!(msg.xid, [9, 9, 9]);
    assert!(matches!(&msg.opts[0], DhcpOpt::ClientId(v) if v == &vec![0xaa]));
    assert!(matches!(&msg.opts[1], DhcpOpt::ServerId(v) if v == &vec![7u8, 7, 7]));
    assert!(matches!(&msg.opts[2], DhcpOpt::Other(25, v) if v == &vec![1u8]));
}

#[test]
fn xid_key_packs_big_endian() {
    assert_eq!(xid_key([0xab, 0xcd, 0xef]), 0xabcdef);
    assert_eq!(xid_key([0, 0, 0]), 0);
    assert_eq!(xid_key([0xff, 0xff, 0xff]), 0xffffff);
}

#[test]
fn solicit_flow_orders_register_before_transmit() {
    let mut flow = SolicitFlow::begin(xid_key([1, 2, 3]));
    assert_eq!(flow.xid(), 0x010203);
    flow.mark_registered();
    flow.mark_transmitted();
}

#[test]
fn server_from_msg_reads_the_server_identifier() {
    let msg = Msg {
        msg_type: MSG_TYPE_ADVERTISE,
        xid: [1, 2, 3],
        opts: vec![DhcpOpt::Preference(1), DhcpOpt::ServerId(vec![4, 5])],
    };
    let server = Server::from_msg(&msg, endpoint()).expect("server id present");
    assert_eq!(server.id, vec![4, 5]);
    assert_eq!(server.addr.port, SERVER_PORT);
    assert_eq!(server.addr.scope_id, 3);
}

#[test]
fn server_from_msg_without_server_id_is_none() {
    let msg = Msg { msg_type: MSG_TYPE_ADVERTISE, xid: [1, 2, 3], opts: vec![DhcpOpt::Preference(1)] };
    assert!(Server::from_msg(&msg, endpoint()).is_none());
}

#[test]
fn well_known_constants() {
    assert_eq!(SERVER_PORT, 547);
    assert_eq!(CLIENT_PORT, 546);
    assert_eq!(
        ALL_DHCP_RELAY_AGENTS_AND_SERVERS,
        [0xff, 0x02, 0, 0, 0, 0, 0, 0, 0, 0, 0, 0, 0, 0, 0x01, 0x02]
    );
}

#[test]
fn flow_phases_are_distinct() {
    assert_ne!(SolicitPhase::Created, SolicitPhase::Registered);
    assert_ne!(SolicitPhase::Registered, SolicitPhase::Transmitted);
}

#[test]
fn first_option_occurrence_wins() {
    let msg = Msg {
        msg_type: MSG_TYPE_ADVERTISE,
        xid: [1, 2, 3],
        opts: vec![
            DhcpOpt::Preference(1),
            DhcpOpt::Preference(2),
            DhcpOpt::ServerId(vec![1]),
            DhcpOpt::ServerId(vec![2]),
            DhcpOpt::Other(25, vec![1]),
            DhcpOpt::Other(25, vec![2]),
        ],
    };
    assert_eq!(msg.preference(), Some(1));
    assert_eq!(msg.server_id(), Some(&vec![1]));
    assert_eq!(msg.other_payload(25), Some(&vec![1]));
    assert_eq!(msg.other_payload(26), None);
}
