use p2p_udp::queue::{Buf, Msg, MsgError};

#[test]
fn new_message_has_its_type() {
    let m = Msg::new("1.2.3.4".to_string(), 9000, "IP-ASK".to_string());
    assert_eq!(m.get_type(), Some("IP-ASK".to_string()));
    assert_eq!(m.get(&"object".to_string()), None);
    assert_eq!(m.ip, "1.2.3.4");
    assert_eq!(m.port, 9000);
}

#[test]
fn set_object_then_get_object() {
    let mut m = Msg::new("1.2.3.4".to_string(), 9000, "P2P-RSP".to_string());
    m.set_object("{\"ip\":\"5.6.7.8\",\"port\":1}".to_string());
    assert_eq!(m.get_object(), "{\"ip\":\"5.6.7.8\",\"port\":1}".to_string());
    assert_eq!(m.get_type(), Some("P2P-RSP".to_string()));
}

#[test]
fn insert_replaces_a_field_in_place() {
    let mut m = Msg::new("h".to_string(), 1, "A".to_string());
    m.insert("ROOM".to_string(), "r1".to_string());
    m.insert("type".to_string(), "B".to_string());
    assert_eq!(m.get_type(), Some("B".to_string()));
    assert_eq!(m.get(&"ROOM".to_string()), Some("r1".to_string()));
    assert_eq!(m.data.len(), 2);
    assert_eq!(m.data[0].0, "type");
}

#[test]
fn to_buf_frames_a_json_object() {
    let mut m = Msg::new("118.193.46.124".to_string(), 5016, "ROOM-ASK".to_string());
    m.insert("ROOM".to_string(), "Test01".to_string());
    let b = m.to_buf();
    assert_eq!(b.ip, "118.193.46.124");
    assert_eq!(b.port, 5016);
    assert_eq!(
        String::from_utf8(b.bytes.clone()).unwrap(),
        "{\"type\":\"ROOM-ASK\",\"ROOM\":\"Test01\"}"
    );
}

#[test]
fn to_buf_escapes_strings() {
    let mut m = Msg::new("h".to_string(), 1, "A".to_string());
    m.insert("k".to_string(), "say \"hi\"\\\n".to_string());
    let b = m.to_buf();
    assert_eq!(
        String::from_utf8(b.bytes.clone()).unwrap(),
        "{\"type\":\"A\",\"k\":\"say \\\"hi\\\"\\\\\\n\"}"
    );
}

#[test]
fn to_msg_reads_the_fields_back() {
    let mut m = Msg::new("9.9.9.9".to_string(), 7, "P2P-ASK".to_string());
    m.set_object("{\"x\":[1,2]}".to_string());
    let b = m.to_buf();
    let back = b.to_msg().unwrap();
    assert_eq!(back.ip, "9.9.9.9");
    assert_eq!(back.port, 7);
    assert_eq!(back.get_type(), Some("P2P-ASK".to_string()));
    assert_eq!(back.get_object(), "{\"x\":[1,2]}".to_string());
}

#[test]
fn to_msg_rejects_what_is_not_a_string_object() {
    let b = Buf::new("h".to_string(), 1, b"[1,2]".to_vec());
    assert_eq!(b.to_msg().unwrap_err(), MsgError::NotAnObject);
    let b = Buf::new("h".to_string(), 1, b"{\"type\":1}".to_vec());
    assert_eq!(b.to_msg().unwrap_err(), MsgError::NotAnObject);
    let b = Buf::new("h".to_string(), 1, b"not json".to_vec());
    assert_eq!(b.to_msg().unwrap_err(), MsgError::NotAnObject);
}

#[test]
fn to_msg_keeps_one_value_per_key() {
    let b = Buf::new("h".to_string(), 1, b"{\"type\":\"A\",\"type\":\"B\"}".to_vec());
    let m = b.to_msg().unwrap();
    assert_eq!(m.get_type(), Some("B".to_string()));
    assert_eq!(m.data.len(), 1);
}

#[test]
fn get_target_joins_ip_and_port() {
    let b = Buf::new("10.0.0.1".to_string(), 65535, vec![]);
    assert_eq!(b.get_target(), "10.0.0.1:65535");
}

#[test]
fn get_md5_is_lower_hex_of_the_digest() {
    let b = Buf::new("h".to_string(), 1, vec![]);
    assert_eq!(b.get_md5(), "d41d8cd98f00b204e9800998ecf8427e");
    let b = Buf::new("h".to_string(), 1, b"abc".to_vec());
    assert_eq!(b.get_md5(), "900150983cd24fb0d6963f7d28e17f72");
}

#[test]
fn clones_keep_everything() {
    let mut m = Msg::new("h".to_string(), 3, "T".to_string());
    m.set_object("o".to_string());
    let c = m.clone();
    assert_eq!(c.ip, "h");
    assert_eq!(c.port, 3);
    assert_eq!(c.get_object(), "o".to_string());
    let b = Buf::new("h".to_string(), 3, vec![1, 2, 3]);
    let d = b.clone();
    assert_eq!(d.bytes, vec![1, 2, 3]);
}

#[test]
fn datagram_round_trip_keeps_every_field() {
    let mut m = Msg::new("7.7.7.7".to_string(), 70, "ACTION-NEW".to_string());
    m.insert("ctl".to_string(), "a\u{1}b\u{8}\t\u{c}\r\u{1f}\u{7f}".to_string());
    m.insert("uni".to_string(), "é漢\"\\/".to_string());
    m.set_object("{}".to_string());
    let b = m.to_buf();
    assert_eq!(
        String::from_utf8(b.bytes.clone()).unwrap(),
        "{\"type\":\"ACTION-NEW\",\"ctl\":\"a\\u0001b\\b\\t\\f\\r\\u001f\u{7f}\",\"uni\":\"é漢\\\"\\\\/\",\"object\":\"{}\"}"
    );
    let back = b.to_msg().unwrap();
    assert_eq!(back.ip, m.ip);
    assert_eq!(back.port, m.port);
    assert_eq!(back.data.len(), m.data.len());
    for (k, v) in m.data.iter() {
        assert_eq!(back.get(k), Some(v.clone()));
    }
}
