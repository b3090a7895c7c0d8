//! The JSON text of the objects that messages carry in their `object` field: addresses,
//! probing signs and peers, written as `serde_json` writes these shapes.
use vstd::prelude::*;
use crate::json::{json_string_literal, quote};
use crate::net_ip::NetIP;
use crate::p2p_ip_map::Sign;
use crate::text::{dec_digits, u16_to_dec};

verus! {

/// `{"ip":…,"port":…}`
pub open spec fn net_ip_json(a: (Seq<char>, u16)) -> Seq<char> {
    "{\"ip\":"@ + json_string_literal(a.0) + ",\"port\":"@ + dec_digits(a.1 as nat) + "}"@
}

/// `"Ready"`, `{"Next":…}`, `{"Rigth":…}`, `{"Leave":…}` or `"Finish"`.
pub open spec fn sign_json(s: Sign) -> Seq<char> {
    match s {
        Sign::Ready => "\"Ready\""@,
        Sign::Next(p) => "{\"Next\":"@ + dec_digits(p as nat) + "}"@,
        Sign::Rigth(p) => "{\"Rigth\":"@ + dec_digits(p as nat) + "}"@,
        Sign::Leave(p) => "{\"Leave\":"@ + dec_digits(p as nat) + "}"@,
        Sign::Finish => "\"Finish\""@,
    }
}

/// `{"ipa":…,"sign":…}`
pub open spec fn peer_json(a: (Seq<char>, u16), s: Sign) -> Seq<char> {
    "{\"ipa\":"@ + net_ip_json(a) + ",\"sign\":"@ + sign_json(s) + "}"@
}

/// A probe's object: `{"from":…,"to":…}`, the sender first where it knows its own address.
pub open spec fn probe_json(from: Option<(Seq<char>, u16)>, to: (Seq<char>, u16), s: Sign) -> Seq<
    char,
> {
    match from {
        Some(f) => "{\"from\":"@ + peer_json(f, Sign::Ready) + ",\"to\":"@ + peer_json(to, s)
            + "}"@,
        None => "{\"to\":"@ + peer_json(to, s) + "}"@,
    }
}

/// The JSON text of an address.
pub fn net_ip_to_json(a: &NetIP) -> (s: String)
    ensures
        s@ == net_ip_json(a@),
{
    let mut s = String::from_str("{\"ip\":");
    let ip = quote(a.ip.as_str());
    s.append(ip.as_str());
    s.append(",\"port\":");
    let p = u16_to_dec(a.port);
    s.append(p.as_str());
    s.append("}");
    assert(s@ =~= net_ip_json(a@));
    s
}

/// The JSON text of a probing sign.
pub fn sign_to_json(sign: Sign) -> (s: String)
    ensures
        s@ == sign_json(sign),
{
    match sign {
        Sign::Ready => String::from_str("\"Ready\""),
        Sign::Finish => String::from_str("\"Finish\""),
        Sign::Next(p) => {
            let mut s = String::from_str("{\"Next\":");
            let d = u16_to_dec(p);
            s.append(d.as_str());
            s.append("}");
            assert(s@ =~= sign_json(sign));
            s
        },
        Sign::Rigth(p) => {
            let mut s = String::from_str("{\"Rigth\":");
            let d = u16_to_dec(p);
            s.append(d.as_str());
            s.append("}");
            assert(s@ =~= sign_json(sign));
            s
        },
        Sign::Leave(p) => {
            let mut s = String::from_str("{\"Leave\":");
            let d = u16_to_dec(p);
            s.append(d.as_str());
            s.append("}");
            assert(s@ =~= sign_json(sign));
            s
        },
    }
}

/// The JSON text of a peer and its sign.
pub fn peer_to_json(a: &NetIP, sign: Sign) -> (s: String)
    ensures
        s@ == peer_json(a@, sign),
{
    let mut s = String::from_str("{\"ipa\":");
    let ipa = net_ip_to_json(a);
    s.append(ipa.as_str());
    s.append(",\"sign\":");
    let sg = sign_to_json(sign);
    s.append(sg.as_str());
    s.append("}");
    assert(s@ =~= peer_json(a@, sign));
    s
}

/// The JSON text of a probe's object.
pub fn probe_to_json(from: &Option<NetIP>, to: &NetIP, sign: Sign) -> (s: String)
    ensures
        s@ == probe_json(
            match from {
                Some(f) => Some(f@),
                None => None,
            },
            to@,
            sign,
        ),
{
    match from {
        Some(f) => {
            let mut s = String::from_str("{\"from\":");
            let fj = peer_to_json(f, Sign::Ready);
            s.append(fj.as_str());
            s.append(",\"to\":");
            let tj = peer_to_json(to, sign);
            s.append(tj.as_str());
            s.append("}");
            assert(s@ =~= probe_json(Some(f@), to@, sign));
            s
        },
        None => {
            let mut s = String::from_str("{\"to\":");
            let tj = peer_to_json(to, sign);
            s.append(tj.as_str());
            s.append("}");
            assert(s@ =~= probe_json(None, to@, sign));
            s
        },
    }
}

} // verus!
