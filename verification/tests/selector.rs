use router::dhcp::SockAddrV6;
use router::msg::{DhcpOpt, Msg, MSG_TYPE_ADVERTISE, MSG_TYPE_REPLY};
use router::selector::AdvertisementSelector;

fn addr(port: u16) -> SockAddrV6 {
    SockAddrV6 { ip: [0xfe, 0x80, 0, 0, 0, 0, 0, 0, 0, 0, 0, 0, 0, 0, 0, 1], port, flowinfo: 0, scope_id: 2 }
}

fn advertise(tag: u8, pref: Option<u8>) -> Msg {
    let mut opts = vec![DhcpOpt::ServerId(vec![tag])];
    if let Some(p) = pref {
        opts.push(DhcpOpt::Preference(p));
    }
    Msg { msg_type: MSG_TYPE_ADVERTISE, xid: [1, 2, 3], opts }
}

fn tag_of(msg: &Msg) -> u8 {
    match msg.server_id() {
        Some(v) => v[0],
        None => panic!("advertisement without server id"),
    }
}

#[test]
fn highest_preference_wins() {
    let mut sel = AdvertisementSelector::new();
    sel.offer(advertise(1, Some(5)), addr(1));
    sel.offer(advertise(2, Some(200)), addr(2));
    sel.offer(advertise(3, Some(100)), addr(3));
    let (chosen, from) = sel.finish().expect("a reply was chosen");
    assert_eq!(tag_of(&chosen), 2);
    assert_eq!(chosen.preference(), Some(200));
    assert_eq!(from.port, 2);
}

#[test]
fn first_no_preference_reply_wins() {
    let mut sel = AdvertisementSelector::new();
    sel.offer(advertise(1, None), addr(1));
    sel.offer(advertise(2, None), addr(2));
    let (chosen, from) = sel.finish().expect("a reply was chosen");
    assert_eq!(tag_of(&chosen), 1);
    assert_eq!(from.port, 1);
}

#[test]
fn preference_displaces_no_preference() {
    let mut sel = AdvertisementSelector::new();
    sel.offer(advertise(1, None), addr(1));
    sel.offer(advertise(2, Some(10)), addr(2));
    let (chosen, _) = sel.finish().expect("a reply was chosen");
    assert_eq!(tag_of(&chosen), 2);
    assert_eq!(chosen.preference(), Some(10));
}

#[test]
fn zero_replies_choose_nothing() {
    let sel = AdvertisementSelector::new();
    assert!(sel.finish().is_none());
}

#[test]
fn non_advertise_replies_are_skipped() {
    let mut sel = AdvertisementSelector::new();
    let mut reply = advertise(1, Some(255));
    reply.msg_type = MSG_TYPE_REPLY;
    sel.offer(reply, addr(1));
    assert!(sel.finish().is_none());
}

#[test]
fn equal_preference_keeps_earlier_choice() {
    let mut sel = AdvertisementSelector::new();
    sel.offer(advertise(1, Some(100)), addr(1));
    sel.offer(advertise(2, Some(100)), addr(2));
    let (chosen, _) = sel.finish().expect("a reply was chosen");
    assert_eq!(tag_of(&chosen), 1);
}

#[test]
fn later_no_preference_never_displaces_preference() {
    let mut sel = AdvertisementSelector::new();
    sel.offer(advertise(1, Some(1)), addr(1));
    sel.offer(advertise(2, None), addr(2));
    let (chosen, _) = sel.finish().expect("a reply was chosen");
    assert_eq!(tag_of(&chosen), 1);
}
