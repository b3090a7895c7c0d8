use p2p_udp::conf::URL;
use p2p_udp::text::{addr_string, i32_to_dec, to_hex_lower, u16_to_dec, u64_to_dec};

#[test]
fn remote_server_is_host_and_port() {
    assert_eq!(URL::remote_server(), "118.193.46.124:5016");
}

#[test]
fn local_server_binds_every_interface() {
    assert_eq!(URL::local_server(), "0.0.0.0:5016");
}

#[test]
fn remote_addr_matches_remote_server() {
    let a = URL::remote_addr();
    assert_eq!(a.ip, "118.193.46.124");
    assert_eq!(a.port, 5016);
    assert_eq!(format!("{}:{}", a.ip, a.port), URL::remote_server());
}

#[test]
fn decimal_rendering() {
    assert_eq!(u16_to_dec(0), "0");
    assert_eq!(u16_to_dec(7), "7");
    assert_eq!(u16_to_dec(10), "10");
    assert_eq!(u16_to_dec(65535), "65535");
    assert_eq!(u64_to_dec(18446744073709551615), "18446744073709551615");
    assert_eq!(i32_to_dec(-3), "-3");
    assert_eq!(i32_to_dec(i32::MIN), "-2147483648");
    assert_eq!(i32_to_dec(42), "42");
}

#[test]
fn hex_rendering() {
    assert_eq!(to_hex_lower(&[]), "");
    assert_eq!(to_hex_lower(&[0x00, 0x0f, 0xa5, 0xff]), "000fa5ff");
}

#[test]
fn address_text() {
    assert_eq!(addr_string("1.2.3.4", 80), "1.2.3.4:80");
}
