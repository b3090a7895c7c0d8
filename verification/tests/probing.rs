use p2p_udp::net_ip::NetIP;
use p2p_udp::p2p_ip_map::{can_step, Cursor, Data, IpMap, Sign};

fn addr(ip: &str, port: u16) -> NetIP {
    NetIP::new(ip.to_string(), port)
}

#[test]
fn next_walks_around_the_public_port() {
    let mut d = Data::ready(addr("1.1.1.1", 5000));
    let mut ports = vec![];
    for _ in 0..7 {
        d = d.next().unwrap();
        if let Sign::Next(p) = d.sign {
            ports.push(p);
        }
    }
    assert_eq!(ports, vec![5000, 5001, 4998, 5002, 4997, 5003, 4996]);
}

#[test]
fn next_never_repeats_a_port() {
    let mut d = Data::ready(addr("1.1.1.1", 1100));
    let mut seen = std::collections::HashSet::new();
    loop {
        d = d.next().unwrap();
        match d.sign {
            Sign::Next(p) => assert!(seen.insert(p)),
            Sign::Finish => break,
            _ => unreachable!(),
        }
    }
    assert!(seen.len() > 100);
}

#[test]
fn next_finishes_out_of_range_and_stops_after() {
    let d = Data::new(addr("1.1.1.1", 5000), Sign::Next(1024));
    let f = d.next().unwrap();
    assert_eq!(f.sign, Sign::Finish);
    assert_eq!(f.ipa, addr("1.1.1.1", 5000));
    assert!(f.next().is_none());
    assert!(Data::new(addr("a", 1), Sign::Rigth(3)).next().is_none());
    assert!(Data::new(addr("a", 1), Sign::Leave(3)).next().is_none());
}

#[test]
fn rigth_leave_finish() {
    let d = Data::new(addr("a", 5000), Sign::Next(5003));
    assert_eq!(d.rigth().unwrap().sign, Sign::Rigth(5003));
    assert!(Data::ready(addr("a", 5000)).rigth().is_none());
    let r = Data::new(addr("a", 5000), Sign::Rigth(7));
    assert_eq!(r.leave().unwrap().sign, Sign::Leave(7));
    assert!(d.leave().is_none());
    assert_eq!(d.finish().sign, Sign::Finish);
}

#[test]
fn cursor_records_and_forgets() {
    let mut c = Cursor::new();
    assert_eq!(c.replace_one(Data::ready(addr("a", 1))), None);
    assert_eq!(c.get(addr("a", 1)), Some(Sign::Ready));
    assert_eq!(c.replace_one(Data::new(addr("a", 1), Sign::Next(1))), Some(Sign::Ready));
    assert_eq!(c.get(addr("a", 1)), Some(Sign::Next(1)));
    assert_eq!(c.get(addr("a", 2)), None);
    assert_eq!(c.delete_one(addr("a", 1)), Some(Sign::Next(1)));
    assert_eq!(c.get(addr("a", 1)), None);
    assert_eq!(c.delete_one(addr("a", 1)), None);
}

#[test]
fn ask_msg_carries_sender_and_target() {
    let d = Data::new(addr("2.2.2.2", 5000), Sign::Next(5001));
    let m = IpMap::ask_msg(&d, &Some(addr("3.3.3.3", 6000))).unwrap();
    assert_eq!(m.ip, "2.2.2.2");
    assert_eq!(m.port, 5001);
    assert_eq!(m.get_type(), Some("P2P-ASK".to_string()));
    assert_eq!(
        m.get_object(),
        "{\"from\":{\"ipa\":{\"ip\":\"3.3.3.3\",\"port\":6000},\"sign\":\"Ready\"},\"to\":{\"ipa\":{\"ip\":\"2.2.2.2\",\"port\":5000},\"sign\":{\"Next\":5001}}}"
    );
    let m = IpMap::ask_msg(&d, &None).unwrap();
    assert_eq!(
        m.get_object(),
        "{\"to\":{\"ipa\":{\"ip\":\"2.2.2.2\",\"port\":5000},\"sign\":{\"Next\":5001}}}"
    );
    assert!(IpMap::ask_msg(&Data::ready(addr("a", 1)), &None).is_none());
}

#[test]
fn ask_steps_the_peer_and_returns_its_probe() {
    let mut c = Cursor::new();
    let d = Data::new(addr("2.2.2.2", 5000), Sign::Next(5000));
    let b = IpMap::ask(&mut c, &d, &None).unwrap();
    assert_eq!(b.ip, "2.2.2.2");
    assert_eq!(b.port, 5000);
    assert_eq!(c.get(addr("2.2.2.2", 5000)), Some(Sign::Next(5001)));
    let r = Data::ready(addr("4.4.4.4", 7000));
    assert!(IpMap::ask(&mut c, &r, &None).is_none());
    assert_eq!(c.get(addr("4.4.4.4", 7000)), Some(Sign::Next(7000)));
}

#[test]
fn start_steps_every_peer_once() {
    let mut c = Cursor::new();
    c.replace_one(Data::ready(addr("a", 5000)));
    c.replace_one(Data::new(addr("b", 6000), Sign::Next(6001)));
    c.replace_one(Data::new(addr("c", 7000), Sign::Rigth(7003)));
    let bufs = IpMap::start(&mut c, &Some(addr("me", 1)));
    assert_eq!(bufs.len(), 1);
    assert_eq!(bufs[0].ip, "b");
    assert_eq!(bufs[0].port, 6001);
    assert_eq!(c.get(addr("a", 5000)), Some(Sign::Next(5000)));
    assert_eq!(c.get(addr("b", 6000)), Some(Sign::Next(5998)));
    assert_eq!(c.get(addr("c", 7000)), Some(Sign::Rigth(7003)));
    let snapshot = c.find();
    assert_eq!(snapshot.data.len(), 3);
    assert_eq!(IpMap::new().data.len(), 0);
}

#[test]
fn steps_that_leave_the_port_numbers_are_caught() {
    assert!(!can_step(1100, Sign::Next(2300)));
    assert!(can_step(1100, Sign::Next(1101)));
    assert!(!can_step(40000, Sign::Next(14000)));
    assert!(can_step(5, Sign::Next(60000)));
    assert!(can_step(5, Sign::Finish));
    let mut c = Cursor::new();
    c.replace_one(Data::ready(addr("a", 1100)));
    assert!(c.steppable());
    c.replace_one(Data::new(addr("b", 1100), Sign::Next(2300)));
    assert!(!c.steppable());
}

#[test]
fn cursor_survives_many_peers_coming_and_going() {
    let mut c = Cursor::new();
    for i in 0..3000u16 {
        let a = addr("10.0.0.1", i);
        assert_eq!(c.replace_one(Data::ready(a.clone())), None);
        assert_eq!(c.delete_one(a), Some(Sign::Ready));
    }
    assert_eq!(c.get(addr("10.0.0.1", 60000)), None);
    assert_eq!(c.delete_one(addr("10.0.0.1", 60000)), None);
    assert!(c.steppable());
}

#[test]
fn cursor_reads_the_last_change_of_each_peer() {
    let mut c = Cursor::new();
    c.replace_one(Data::ready(addr("a", 1)));
    c.replace_one(Data::ready(addr("b", 2)));
    c.replace_one(Data::new(addr("a", 1), Sign::Next(5)));
    c.delete_one(addr("b", 2));
    c.replace_one(Data::ready(addr("c", 3)));
    c.delete_one(addr("c", 9));
    assert_eq!(c.get(addr("a", 1)), Some(Sign::Next(5)));
    assert_eq!(c.get(addr("b", 2)), None);
    assert_eq!(c.get(addr("c", 3)), Some(Sign::Ready));
    c.replace_one(Data::new(addr("b", 2), Sign::Finish));
    assert_eq!(c.get(addr("b", 2)), Some(Sign::Finish));
}
