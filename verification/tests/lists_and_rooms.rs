use p2p_udp::net_ip::NetIP;
use p2p_udp::p2p_ip_map::Sign;
use p2p_udp::p2p_link::Cursor;
use p2p_udp::p2p_value::P2PValue;
use p2p_udp::player;
use p2p_udp::player_net_ipaddr::{self as pna, IpMap, IpMapList};
use p2p_udp::public_net_ipaddr::PublicNetIP;
use p2p_udp::queue::{Buf, Msg};
use p2p_udp::receive_process::{Route, Task};
use p2p_udp::room::RoomIP;

fn addr(ip: &str, port: u16) -> NetIP {
    NetIP::new(ip.to_string(), port)
}

#[test]
fn offsets_alternate_and_grow() {
    let mut m = IpMap::new(addr("a", 5000)).to_begin();
    let mut offs = vec![m.offset];
    for _ in 0..5 {
        m = m.to_next();
        offs.push(m.offset);
    }
    assert_eq!(offs, vec![1, -2, 3, -4, 5, -6]);
    assert_eq!(m.sign, pna::Sign::Next);
}

#[test]
fn to_next_finishes_out_of_range() {
    let mut m = IpMap::new(addr("a", 1026)).to_begin();
    m = m.to_next();
    assert_eq!(m.offset, -2);
    let f = m.to_next();
    assert_eq!(f.sign, pna::Sign::Finish);
    assert_eq!(f.offset, -2);
    assert_eq!(IpMap::new(addr("a", 0)).to_next().offset, 0);
}

#[test]
fn to_msg_points_at_offset_port() {
    let m = IpMap { ipa: addr("a", 5000), sign: pna::Sign::Next, offset: -2 };
    let msg = m.to_msg();
    assert_eq!(msg.port, 4998);
    assert_eq!(msg.get_object(), "{\"ip\":\"a\",\"port\":4998}".to_string());
    let w = IpMap { ipa: addr("a", 10), sign: pna::Sign::Next, offset: -20 };
    assert_eq!(w.to_msg().port, 65526);
}

#[test]
fn list_replace_find_delete() {
    let mut l = IpMapList::new();
    l.replace_one(IpMap::new(addr("a", 1)));
    l.replace_one(IpMap::new(addr("b", 2)));
    l.replace_one(IpMap::new(addr("a", 1)).to_begin());
    assert_eq!(l.ip_list.len(), 2);
    assert_eq!(l.find_one(addr("a", 1)).unwrap().sign, pna::Sign::Begin);
    assert_eq!(l.find_one(addr("b", 2)).unwrap().sign, pna::Sign::Ready);
    l.delete_one(IpMap::new(addr("a", 1)));
    assert!(l.find_one(addr("a", 1)).is_none());
    assert_eq!(l.ip_list.len(), 1);
    l.update_one(IpMap::new(addr("b", 2)).to_begin());
    assert_eq!(l.ip_list[0].sign, pna::Sign::Begin);
    let mut stored = IpMapList::new();
    l.save(&mut stored);
    assert_eq!(stored.find().ip_list.len(), 1);
    stored.clear();
    assert!(stored.ip_list.is_empty());
}

#[test]
fn list_start_and_answers() {
    let mut l = IpMapList::new();
    l.replace_one(IpMap::new(addr("a", 5000)).to_begin());
    l.replace_one(IpMap::new(addr("b", 6000)));
    let bufs = l.start();
    assert_eq!(bufs.len(), 1);
    assert_eq!(bufs[0].port, 4998);
    assert_eq!(l.ip_list[0].offset, -2);
    assert_eq!(l.ip_list[1].sign, pna::Sign::Ready);
    let msg = Msg::new("a".to_string(), 4998, "P2P-ASK".to_string());
    let ack = l.rsp(&msg, IpMap::new(addr("a", 5000)));
    assert_eq!(ack.port, 4998);
    assert!(String::from_utf8(ack.bytes).unwrap().starts_with("{\"type\":\"P2P-CHK\""));
    assert_eq!(l.ip_list[0].sign, pna::Sign::Rigth);
    assert_eq!(l.ip_list[0].offset, -2);
    l.check2(IpMap::new(addr("b", 6000)));
    assert_eq!(l.ip_list[1].sign, pna::Sign::Rigth);
    let c = IpMapList::check("z".to_string(), 1, IpMap::new(addr("a", 5)).to_leave());
    assert_eq!(
        String::from_utf8(c.bytes).unwrap(),
        "{\"type\":\"P2P-CHK\",\"object\":\"{\\\"ipa\\\":{\\\"ip\\\":\\\"a\\\",\\\"port\\\":5},\\\"sign\\\":\\\"Leave\\\",\\\"offset\\\":0}\"}"
    );
    assert_eq!(IpMap::new(addr("a", 5)).to_finish().sign, pna::Sign::Finish);
}

#[test]
fn player_room_requests() {
    let b = player::RoomIP::ask("Test01".to_string());
    assert_eq!(b.ip, "118.193.46.124");
    assert_eq!(b.port, 5016);
    assert_eq!(String::from_utf8(b.bytes).unwrap(), "{\"type\":\"ROOM-ASK\",\"ROOM\":\"Test01\"}");
    let c = player::RoomIP::check(&"1.1.1.1".to_string(), 9, "abc".to_string());
    assert_eq!(String::from_utf8(c.bytes).unwrap(), "{\"type\":\"ROOM-CHK\",\"MD5\":\"abc\"}");
}

#[test]
fn player_room_answer_is_stored_and_acknowledged() {
    let mut stored = player::RoomIP::new();
    let msg = Msg::new("118.193.46.124".to_string(), 5016, "ROOM-RSP".to_string());
    let ack = player::RoomIP::rsp(&mut stored, &msg, vec![addr("a", 1), addr("b", 2)]);
    assert_eq!(stored.get_player(), vec![addr("a", 1), addr("b", 2)]);
    assert_eq!(stored.get_player_to_string(), vec!["a:1".to_string(), "b:2".to_string()]);
    let digest = msg.to_buf().get_md5();
    assert_eq!(
        String::from_utf8(ack.bytes).unwrap(),
        format!("{{\"type\":\"ROOM-CHK\",\"MD5\":\"{}\"}}", digest)
    );
    let mut other = player::RoomIP::new();
    stored.put_player(&mut other);
    assert_eq!(other.ip_list.len(), 2);
}

#[test]
fn room_answer_readies_every_player() {
    let mut stored = RoomIP::new();
    let mut cursor = Cursor::new();
    let room = RoomIP { myself: Some(addr("me", 3)), ip_list: vec![addr("a", 1), addr("b", 2)] };
    let got = Buf::new("118.193.46.124".to_string(), 5016, b"{\"type\":\"ROOM-RSP\"}".to_vec());
    let ack = RoomIP::rsp(&mut stored, &mut cursor, &got, room);
    assert_eq!(ack.ip, "118.193.46.124");
    assert_eq!(ack.port, 5016);
    assert_eq!(
        String::from_utf8(ack.bytes).unwrap(),
        format!("{{\"type\":\"ROOM-CHK\",\"MD5\":\"{}\"}}", got.get_md5())
    );
    assert_eq!(cursor._get(addr("a", 1)), Some(Sign::Ready));
    assert_eq!(cursor._get(addr("b", 2)), Some(Sign::Ready));
    assert_eq!(stored.get_myself(), Some(addr("me", 3)));
    assert_eq!(stored.get_player().ip_list.len(), 2);
    let mut copy = RoomIP::new();
    stored.save(&mut copy);
    assert_eq!(copy.ip_list, vec![addr("a", 1), addr("b", 2)]);
}

#[test]
fn room_key_and_acknowledgement() {
    let mut slot = None;
    assert_eq!(RoomIP::key_get(&slot), None);
    RoomIP::key_set(&mut slot, "k".to_string());
    assert_eq!(RoomIP::key_get(&slot), Some("k".to_string()));
    let b = Buf::new("4.4.4.4".to_string(), 44, b"abc".to_vec());
    let ack = RoomIP::check(&b);
    assert_eq!(ack.ip, "4.4.4.4");
    assert_eq!(
        String::from_utf8(ack.bytes).unwrap(),
        "{\"type\":\"ROOM-CHK\",\"MD5\":\"900150983cd24fb0d6963f7d28e17f72\"}"
    );
    let a = RoomIP::ask("R".to_string());
    assert_eq!(String::from_utf8(a.bytes).unwrap(), "{\"type\":\"ROOM-ASK\",\"ROOM\":\"R\"}");
}

#[test]
fn public_address_slot() {
    let m = PublicNetIP::public_net_ip();
    assert_eq!(m.ip, "118.193.46.124");
    assert_eq!(m.port, 5016);
    assert_eq!(m.get_type(), Some("IP-ASK".to_string()));
    let mut slot = None;
    assert!(PublicNetIP::read(&slot).is_none());
    PublicNetIP::write(&mut slot, PublicNetIP { ip: "8.8.4.4".to_string(), port: 53 });
    let got = PublicNetIP::read(&slot).unwrap();
    assert_eq!(got.to_string(), "8.8.4.4:53");
}

#[test]
fn action_goes_to_every_player() {
    let v = P2PValue::new("{\"HP\":10}".to_string());
    assert_eq!(v.to_string(), Some("{\"HP\":10}".to_string()));
    let bufs = v.send(&vec![addr("a", 1), addr("b", 2)]);
    assert_eq!(bufs.len(), 2);
    assert_eq!(bufs[1].ip, "b");
    assert_eq!(
        String::from_utf8(bufs[0].bytes.clone()).unwrap(),
        "{\"type\":\"ACTION-NEW\",\"object\":\"{\\\"data\\\":{\\\"HP\\\":10}}\"}"
    );
}

#[test]
fn routes_by_kind() {
    let k = |t: &str| Task::route(&Msg::new("h".to_string(), 1, t.to_string()));
    assert_eq!(k("ROOM-RSP"), Route::RoomRsp);
    assert_eq!(k("P2P-ASK"), Route::P2pAsk);
    assert_eq!(k("P2P-RSP"), Route::P2pRsp);
    assert_eq!(k("ACTION-NEW"), Route::ActionNew);
    assert_eq!(k("IP-RSP"), Route::Ignore);
    assert_eq!(k("IP-ASK"), Route::Ignore);
    let b = Buf::new("h".to_string(), 1, b"{}".to_vec());
    assert_eq!(Task::route(&b.to_msg().unwrap()), Route::Ignore);
}
