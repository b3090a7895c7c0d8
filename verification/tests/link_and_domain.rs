use p2p_udp::domain::{self, Domain};
use p2p_udp::net_ip::NetIP;
use p2p_udp::p2p_ip_map::Sign;
use p2p_udp::p2p_link::{Cursor, Data, IpMap};
use p2p_udp::queue::Msg;

fn addr(ip: &str, port: u16) -> NetIP {
    NetIP::new(ip.to_string(), port)
}

#[test]
fn link_rigth_answers_on_public_or_probed_port() {
    assert_eq!(Data::ready(addr("a", 5000)).rigth().unwrap().sign, Sign::Rigth(5000));
    assert_eq!(Data::new(addr("a", 5000), Sign::Next(4998)).rigth().unwrap().sign, Sign::Rigth(4998));
    assert!(Data::new(addr("a", 5000), Sign::Finish).rigth().is_none());
    assert_eq!(Data::new(addr("a", 5000), Sign::Rigth(1))._leave().unwrap().sign, Sign::Leave(1));
}

#[test]
fn link_cursor_operations() {
    let mut c = Cursor::new();
    assert!(!c.exist(&addr("a", 1)));
    c.replace_one(Data::ready(addr("a", 1)));
    assert!(c.exist(&addr("a", 1)));
    assert_eq!(c._get(addr("a", 1)), Some(Sign::Ready));
    assert_eq!(c._delete_one(addr("a", 1)), Some(Sign::Ready));
    assert!(!c.exist(&addr("a", 1)));
    assert_eq!(IpMap::_new().data.len(), 0);
}

#[test]
fn link_start_waits_for_own_address() {
    let mut c = Cursor::new();
    c.replace_one(Data::ready(addr("a", 5000)));
    c.replace_one(Data::new(addr("b", 6000), Sign::Next(6000)));
    let bufs = IpMap::start(&mut c, &None);
    assert!(bufs.is_empty());
    assert_eq!(c._get(addr("a", 5000)), Some(Sign::Ready));
    assert_eq!(c._get(addr("b", 6000)), Some(Sign::Next(6000)));
    let bufs = IpMap::start(&mut c, &Some(addr("me", 1234)));
    assert_eq!(bufs.len(), 1);
    assert_eq!(bufs[0].ip, "b");
    assert_eq!(bufs[0].port, 6000);
    assert_eq!(c._get(addr("a", 5000)), Some(Sign::Next(5000)));
    assert_eq!(c._get(addr("b", 6000)), Some(Sign::Next(6001)));
}

#[test]
fn link_ask_msg_moves_ready_peer_without_probe() {
    let mut c = Cursor::new();
    let me = Some(addr("me", 1));
    assert!(IpMap::ask_msg(&mut c, &Data::ready(addr("a", 5000)), &me).is_none());
    assert_eq!(c._get(addr("a", 5000)), Some(Sign::Next(5000)));
    let m = IpMap::ask_msg(&mut c, &Data::new(addr("a", 5000), Sign::Next(5000)), &me).unwrap();
    assert_eq!(m.port, 5000);
    assert_eq!(m.get_type(), Some("P2P-ASK".to_string()));
}

#[test]
fn link_accept_answers_and_records() {
    let mut c = Cursor::new();
    let msg = Msg::new("9.9.9.9".to_string(), 4000, "P2P-ASK".to_string());
    let from = Data::ready(addr("9.9.9.9", 3999));
    let to = Data::new(addr("ignored", 1), Sign::Next(7001));
    let (reply, buf) = IpMap::accept(&mut c, &msg, &from, &to, addr("me", 7000));
    assert_eq!(c._get(addr("9.9.9.9", 3999)), Some(Sign::Rigth(3999)));
    assert_eq!(reply.ip, "9.9.9.9");
    assert_eq!(reply.port, 4000);
    assert_eq!(reply.get_type(), Some("P2P-RSP".to_string()));
    assert_eq!(
        reply.get_object(),
        "{\"ipa\":{\"ip\":\"me\",\"port\":7000},\"sign\":{\"Rigth\":7001}}"
    );
    assert_eq!(buf.port, 4000);
    IpMap::rsp(&mut c, Data::new(addr("x", 2), Sign::Rigth(9)));
    assert_eq!(c._get(addr("x", 2)), Some(Sign::Rigth(9)));
}

#[test]
fn domain_tests_and_answers() {
    let mut c = domain::Cursor::new();
    let peer = domain::IpMap::ready(addr("5.5.5.5", 5555));
    c.replace_one(peer.test());
    c.replace_one(domain::IpMap::ready(addr("6.6.6.6", 6666)));
    assert!(c.exist(&addr("5.5.5.5", 5555)));
    assert_eq!(c._get(addr("5.5.5.5", 5555)), Some(domain::Sign::Test));
    assert!(Domain::start(&c).is_empty());
    c.set_host(addr("1.2.3.4", 5016));
    assert_eq!(c.get_host(), Some(addr("1.2.3.4", 5016)));
    let bufs = Domain::start(&c);
    assert_eq!(bufs.len(), 1);
    assert_eq!(bufs[0].ip, "5.5.5.5");
    assert_eq!(bufs[0].port, 5555);
    assert_eq!(
        String::from_utf8(bufs[0].bytes.clone()).unwrap(),
        "{\"type\":\"P2P-ASK\",\"object\":\"{\\\"ip\\\":\\\"1.2.3.4\\\",\\\"port\\\":5016}\"}"
    );
    assert_eq!(c.find().data.len(), 2);
    assert_eq!(Domain::_new().data.len(), 0);
    assert_eq!(peer.rigth(9).sign, domain::Sign::Rigth(9));
}

#[test]
fn domain_accept_with_and_without_host() {
    let msg = Msg::new("7.7.7.7".to_string(), 7777, "P2P-ASK".to_string());
    let mut c = domain::Cursor::new();
    let (reply, buf) = Domain::accept(&mut c, &msg, addr("7.7.7.7", 1));
    assert!(buf.is_none());
    assert_eq!(reply.get_type(), Some("P2P-RSP".to_string()));
    assert_eq!(reply.get(&"object".to_string()), None);
    assert_eq!(c._get(addr("7.7.7.7", 1)), Some(domain::Sign::Rigth(7777)));
    c.set_host(addr("h", 2));
    let (reply, buf) = Domain::accept(&mut c, &msg, addr("7.7.7.7", 1));
    assert_eq!(reply.get_object(), "{\"ip\":\"h\",\"port\":2}".to_string());
    assert_eq!(buf.unwrap().port, 7777);
    Domain::rsp(&mut c, &msg, addr("8.8.8.8", 8));
    assert_eq!(c._get(addr("8.8.8.8", 8)), Some(domain::Sign::Rigth(7777)));
}
