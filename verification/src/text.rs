//! Decimal and hexadecimal rendering of numbers, and `host:port` address text.
use vstd::prelude::*;

verus! {

/// The character of a decimal digit.
pub open spec fn digit_char(d: nat) -> char {
    if d == 0 { '0' }
    else if d == 1 { '1' }
    else if d == 2 { '2' }
    else if d == 3 { '3' }
    else if d == 4 { '4' }
    else if d == 5 { '5' }
    else if d == 6 { '6' }
    else if d == 7 { '7' }
    else if d == 8 { '8' }
    else { '9' }
}

/// The decimal text of a natural number, without leading zeros.
pub open spec fn dec_digits(n: nat) -> Seq<char>
    decreases n,
{
    if n < 10 {
        seq![digit_char(n)]
    } else {
        dec_digits(n / 10) + seq![digit_char(n % 10)]
    }
}

/// The character of a hexadecimal digit in lower case.
pub open spec fn nibble_char(d: nat) -> char {
    if d < 10 { digit_char(d) }
    else if d == 10 { 'a' }
    else if d == 11 { 'b' }
    else if d == 12 { 'c' }
    else if d == 13 { 'd' }
    else if d == 14 { 'e' }
    else { 'f' }
}

/// Lower-case hexadecimal text of a byte string, two digits per byte, high nibble first.
pub open spec fn hex_lower(bytes: Seq<u8>) -> Seq<char>
    decreases bytes.len(),
{
    if bytes.len() == 0 {
        seq![]
    } else {
        hex_lower(bytes.drop_last()) + seq![
            nibble_char((bytes.last() / 16) as nat),
            nibble_char((bytes.last() % 16) as nat),
        ]
    }
}

/// The text `host:port`, the port in decimal.
pub open spec fn addr_text(host: Seq<char>, port: u16) -> Seq<char> {
    host + seq![':'] + dec_digits(port as nat)
}

/// The one-character text of a decimal digit.
fn digit_str(d: u16) -> (s: &'static str)
    requires
        d < 10,
    ensures
        s@ == seq![digit_char(d as nat)],
{
    proof {
        reveal_strlit("0");
        reveal_strlit("1");
        reveal_strlit("2");
        reveal_strlit("3");
        reveal_strlit("4");
        reveal_strlit("5");
        reveal_strlit("6");
        reveal_strlit("7");
        reveal_strlit("8");
        reveal_strlit("9");
    }
    if d == 0 { "0" }
    else if d == 1 { "1" }
    else if d == 2 { "2" }
    else if d == 3 { "3" }
    else if d == 4 { "4" }
    else if d == 5 { "5" }
    else if d == 6 { "6" }
    else if d == 7 { "7" }
    else if d == 8 { "8" }
    else { "9" }
}

/// The one-character text of a hexadecimal digit in lower case.
fn nibble_str(d: u8) -> (s: &'static str)
    requires
        d < 16,
    ensures
        s@ == seq![nibble_char(d as nat)],
{
    proof {
        reveal_strlit("a");
        reveal_strlit("b");
        reveal_strlit("c");
        reveal_strlit("d");
        reveal_strlit("e");
        reveal_strlit("f");
    }
    if d < 10 { digit_str(d as u16) }
    else if d == 10 { "a" }
    else if d == 11 { "b" }
    else if d == 12 { "c" }
    else if d == 13 { "d" }
    else if d == 14 { "e" }
    else { "f" }
}

/// Renders a number in decimal.
pub fn u64_to_dec(n: u64) -> (s: String)
    ensures
        s@ == dec_digits(n as nat),
    decreases n,
{
    if n < 10 {
        String::from_str(digit_str(n as u16))
    } else {
        let mut s = u64_to_dec(n / 10);
        s.append(digit_str((n % 10) as u16));
        s
    }
}

/// Renders a port number in decimal.
pub fn u16_to_dec(n: u16) -> (s: String)
    ensures
        s@ == dec_digits(n as nat),
{
    u64_to_dec(n as u64)
}

/// The decimal text of an integer, with a leading minus sign when it is negative.
pub open spec fn int_dec(x: int) -> Seq<char> {
    if x < 0 {
        seq!['-'] + dec_digits((-x) as nat)
    } else {
        dec_digits(x as nat)
    }
}

/// Renders a signed 32-bit number in decimal.
pub fn i32_to_dec(x: i32) -> (s: String)
    ensures
        s@ == int_dec(x as int),
{
    proof {
        reveal_strlit("-");
    }
    if x < 0 {
        let m: u64 = (0i64 - (x as i64)) as u64;
        let mut s = String::from_str("-");
        let d = u64_to_dec(m);
        s.append(d.as_str());
        s
    } else {
        u64_to_dec(x as u64)
    }
}

/// Renders a byte string as lower-case hexadecimal text.
pub fn to_hex_lower(bytes: &[u8]) -> (s: String)
    ensures
        s@ == hex_lower(bytes@),
{
    let mut s = String::new();
    let mut i: usize = 0;
    while i < bytes.len()
        invariant
            i <= bytes@.len(),
            s@ == hex_lower(bytes@.subrange(0, i as int)),
        decreases bytes@.len() - i,
    {
        let b = bytes[i];
        s.append(nibble_str(b / 16));
        s.append(nibble_str(b % 16));
        proof {
            let prefix = bytes@.subrange(0, i + 1);
            assert(prefix.drop_last() =~= bytes@.subrange(0, i as int));
            assert(prefix.last() == b);
        }
        i = i + 1;
    }
    proof {
        assert(bytes@.subrange(0, bytes@.len() as int) =~= bytes@);
    }
    s
}

/// Renders the address `host:port`.
pub fn addr_string(host: &str, port: u16) -> (s: String)
    ensures
        s@ == addr_text(host@, port),
{
    proof {
        reveal_strlit(":");
    }
    let mut s = String::from_str(host);
    s.append(":");
    let p = u16_to_dec(port);
    s.append(p.as_str());
    s
}

} // verus!
