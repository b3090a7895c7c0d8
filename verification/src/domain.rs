//! Connectivity tests between peers: a peer marked for testing is sent this host's address,
//! and a peer that answers is recorded with the port it answered from.
use vstd::prelude::*;
use chashmap::CHashMap;
use crate::cover::{
    lemma_prefix_round_end, lemma_prefix_round_start, lemma_prefix_round_step,
    lemma_round_sources, prefix_round, round_for, with_buf, with_index,
};
use crate::net_ip::NetIP;
use crate::p2p_ip_map::opt_addr;
use crate::queue::{
    buf_view, object_msg, type_key, typed_object_bytes, typed_object_fields, Buf, Msg,
};
use crate::table::{
    test_clone, test_contains, test_entries, test_get, test_insert, test_new, test_table,
    test_tidy,
};
use crate::wire::{net_ip_json, net_ip_to_json};

verus! {

/// Where a peer stands in the connectivity test.
#[derive(Clone, Copy, Debug, PartialEq, Eq, Structural)]
pub enum Sign {
    /// Known, not to be tested.
    Ready,
    /// To be sent this host's address.
    Test,
    /// Answered from this port.
    Rigth(u16),
}

/// A peer's address and where its test stands.
#[derive(Debug)]
pub struct IpMap {
    pub ipa: NetIP,
    pub sign: Sign,
}

impl Clone for IpMap {
    fn clone(&self) -> (r: Self)
        ensures
            r == *self,
    {
        IpMap { ipa: self.ipa.clone(), sign: self.sign }
    }
}

impl IpMap {
    /// A peer with the given sign.
    pub fn new(ipa: NetIP, sign: Sign) -> (r: Self)
        ensures
            r.ipa == ipa,
            r.sign == sign,
    {
        Self { ipa, sign }
    }

    /// A peer not to be tested.
    pub fn ready(ipa: NetIP) -> (r: Self)
        ensures
            r.ipa == ipa,
            r.sign == Sign::Ready,
    {
        Self { ipa, sign: Sign::Ready }
    }

    /// The same peer, marked for testing.
    pub fn test(&self) -> (r: Self)
        ensures
            r.ipa == self.ipa,
            r.sign == Sign::Test,
    {
        Self { ipa: self.ipa.clone(), sign: Sign::Test }
    }

    /// The same peer, answered from `port`.
    pub fn rigth(&self, port: u16) -> (r: Self)
        ensures
            r.ipa == self.ipa,
            r.sign == Sign::Rigth(port),
    {
        Self { ipa: self.ipa.clone(), sign: Sign::Rigth(port) }
    }
}

/// The datagram that tests a peer whose sign is `s`: a `P2P-ASK` to its address carrying
/// this host's address; none where the peer is not marked for testing or the host does not
/// know its own address.
pub open spec fn test_buf(host: Option<(Seq<char>, u16)>, to: (Seq<char>, u16), s: Sign) -> Option<
    (Seq<char>, u16, Seq<u8>),
> {
    match (s, host) {
        (Sign::Test, Some(h)) => Some((to.0, to.1, typed_object_bytes("P2P-ASK"@, net_ip_json(h)))),
        _ => None,
    }
}

/// A test goes out exactly to a peer marked for testing, at its own address, once this host
/// knows its own address, and carries that address.
pub proof fn law_test_only_marked(host: Option<(Seq<char>, u16)>, to: (Seq<char>, u16), s: Sign)
    ensures
        test_buf(host, to, s) is Some <==> (s == Sign::Test && host is Some),
        test_buf(host, to, s) matches Some(b) ==> (b.0 == to.0 && b.1 == to.1 && b.2
            == typed_object_bytes("P2P-ASK"@, net_ip_json(host->0))),
{
}

/// The tests of one round go to the peers of the table marked for testing, each once, and to
/// every one of them once this host knows its own address: the peers `ks`, one per test, in
/// the round's order.
pub proof fn law_test_round(
    r: Seq<Buf>,
    host: Option<(Seq<char>, u16)>,
    m: Map<(Seq<char>, u16), Sign>,
) -> (ks: Seq<(Seq<char>, u16)>)
    requires
        round_for(r, m, |k: (Seq<char>, u16), s: Sign| test_buf(host, k, s)),
    ensures
        ks.len() == r.len(),
        ks.no_duplicates(),
        forall|i: int|
            0 <= i < r.len() ==> m.contains_key(#[trigger] ks[i]) && m[ks[i]] == Sign::Test
                && r[i].ip@ == ks[i].0 && r[i].port == ks[i].1,
        forall|k: (Seq<char>, u16)|
            #[trigger] m.contains_key(k) && m[k] == Sign::Test && host is Some ==> ks.contains(k),
{
    let g = |k: (Seq<char>, u16), s: Sign| test_buf(host, k, s);
    let ks = lemma_round_sources(r, m, g);
    assert forall|i: int| 0 <= i < r.len() implies m.contains_key(#[trigger] ks[i]) && m[ks[i]]
        == Sign::Test && r[i].ip@ == ks[i].0 && r[i].port == ks[i].1 by {
        law_test_only_marked(host, ks[i], m[ks[i]]);
    }
    assert forall|k: (Seq<char>, u16)| #[trigger] m.contains_key(k) && m[k] == Sign::Test && host is Some implies ks.contains(k) by {
        law_test_only_marked(host, k, m[k]);
        assert(g(k, m[k]) is Some);
    }
    ks
}

/// The fields of the answer to a test: a `P2P-RSP` carrying this host's address where it
/// knows it.
pub open spec fn answer_fields(host: Option<(Seq<char>, u16)>) -> Seq<(Seq<char>, Seq<char>)> {
    match host {
        Some(h) => typed_object_fields("P2P-RSP"@, net_ip_json(h)),
        None => seq![(type_key(), "P2P-RSP"@)],
    }
}

/// The table of tests and this host's own address.
pub struct Cursor {
    cache: CHashMap<NetIP, Sign>,
    host: Option<NetIP>,
}

impl Cursor {
    /// The table is tidy, so it can be read.
    #[verifier::type_invariant]
    spec fn tidy(self) -> bool {
        test_tidy(self.cache)
    }

    /// The tests, by peer address.
    pub closed spec fn table(&self) -> Map<(Seq<char>, u16), Sign> {
        test_table(self.cache)
    }

    /// This host's public address, where it is known.
    pub closed spec fn host(&self) -> Option<(Seq<char>, u16)> {
        opt_addr(self.host)
    }

    /// No tests, and the host's address unknown.
    pub fn new() -> (r: Self)
        ensures
            r.table() == Map::<(Seq<char>, u16), Sign>::empty(),
            r.host() is None,
    {
        Cursor { cache: test_new(), host: None }
    }

    /// The sign of a peer, if it is in the table.
    pub fn _get(&self, key: NetIP) -> (r: Option<Sign>)
        ensures
            r == self.table().get(key@),
    {
        proof {
            use_type_invariant(self);
        }
        test_get(&self.cache, &key)
    }

    /// Whether a peer is in the table.
    pub fn exist(&self, key: &NetIP) -> (r: bool)
        ensures
            r == self.table().contains_key(key@),
    {
        proof {
            use_type_invariant(self);
        }
        test_contains(&self.cache, key)
    }

    /// A copy of the table.
    pub fn find(&self) -> (r: Domain)
        ensures
            r@ == self.table(),
            test_tidy(r.data),
    {
        proof {
            use_type_invariant(self);
        }
        Domain { data: test_clone(&self.cache) }
    }

    /// Records the sign of a peer; the one it replaces is returned.
    pub fn replace_one(&mut self, ipm: IpMap) -> (r: Option<Sign>)
        ensures
            final(self).table() == old(self).table().insert(ipm.ipa@, ipm.sign),
            final(self).host() == old(self).host(),
            r == old(self).table().get(ipm.ipa@),
    {
        proof {
            use_type_invariant(&*self);
        }
        let mut cache = test_new();
        std::mem::swap(&mut cache, &mut self.cache);
        let r = test_insert(&mut cache, ipm.ipa, ipm.sign);
        self.cache = cache;
        r
    }

    /// This host's public address, where it is known.
    pub fn get_host(&self) -> (r: Option<NetIP>)
        ensures
            opt_addr(r) == self.host(),
    {
        match &self.host {
            Some(h) => Some(h.clone()),
            None => None,
        }
    }

    /// Records this host's public address.
    pub fn set_host(&mut self, host: NetIP)
        ensures
            final(self).host() == Some(host@),
            final(self).table() == old(self).table(),
    {
        proof {
            use_type_invariant(&*self);
        }
        self.host = Some(host);
    }
}

/// A copy of the table of tests.
pub struct Domain {
    pub data: CHashMap<NetIP, Sign>,
}

impl View for Domain {
    type V = Map<(Seq<char>, u16), Sign>;

    open spec fn view(&self) -> Map<(Seq<char>, u16), Sign> {
        test_table(self.data)
    }
}

impl Domain {
    /// An empty table.
    pub fn _new() -> (r: Self)
        ensures
            r@ == Map::<(Seq<char>, u16), Sign>::empty(),
    {
        Domain { data: test_new() }
    }

    /// The test of one peer: where it is marked for testing and the host knows its own
    /// address, a `P2P-ASK` to the peer carrying that address.
    pub fn ask(ipm: &IpMap, host: &Option<NetIP>) -> (r: Option<Buf>)
        ensures
            match r {
                Some(b) => test_buf(opt_addr(*host), ipm.ipa@, ipm.sign) == Some(buf_view(b)),
                None => test_buf(opt_addr(*host), ipm.ipa@, ipm.sign) is None,
            },
            r is Some <==> (ipm.sign == Sign::Test && *host is Some),
            r matches Some(b) ==> (b.ip == ipm.ipa.ip && b.port == ipm.ipa.port),
    {
        proof {
            law_test_only_marked(opt_addr(*host), ipm.ipa@, ipm.sign);
        }
        if let Sign::Test = ipm.sign {
            if let Some(ipn) = host {
                let object = net_ip_to_json(ipn);
                let msg = object_msg(
                    ipm.ipa.ip.clone(),
                    ipm.ipa.port,
                    String::from_str("P2P-ASK"),
                    object,
                );
                return Some(msg.to_buf());
            }
        }
        None
    }

    /// One round of tests over the table: the tests of the peers marked for testing, in the
    /// table's own order.
    pub fn start(cursor: &Cursor) -> (r: Vec<Buf>)
        ensures
            round_for(
                r@,
                cursor.table(),
                |k: (Seq<char>, u16), s: Sign| test_buf(cursor.host(), k, s),
            ),
    {
        let host = cursor.get_host();
        let ghost f = |k: (Seq<char>, u16), s: Sign| test_buf(cursor.host(), k, s);
        let snapshot = cursor.find();
        let entries = test_entries(snapshot.data);
        let ghost e = entries@;
        let mut r: Vec<Buf> = Vec::new();
        let ghost mut idx: Seq<int> = Seq::empty();
        proof {
            lemma_prefix_round_start(e, f);
        }
        let mut j: usize = 0;
        while j < entries.len()
            invariant
                e == entries@,
                j <= e.len(),
                opt_addr(host) == cursor.host(),
                f == (|k: (Seq<char>, u16), s: Sign| test_buf(cursor.host(), k, s)),
                prefix_round(r@, e, j as int, f, idx),
            decreases e.len() - j,
        {
            let ipm = IpMap::new(entries[j].0.clone(), entries[j].1);
            let ghost r0 = r@;
            let b = Self::ask(&ipm, &host);
            proof {
                lemma_prefix_round_step(r0, e, j as int, f, idx, b);
            }
            match b {
                Some(b) => r.push(b),
                None => {},
            }
            proof {
                assert(r@ == with_buf(r0, b));
                idx = with_index(idx, j as int, b);
            }
            j = j + 1;
        }
        proof {
            lemma_prefix_round_end(r@, e, cursor.table(), f, idx);
        }
        r
    }

    /// Answers a test from a peer that sent its address `nip`: the peer is recorded as
    /// answered from the port the test came from, and the answer is a `P2P-RSP` to where the
    /// test came from, carrying this host's address where it is known; the datagram is
    /// returned too where the host's address is known, as only then is the answer sent.
    pub fn accept(cursor: &mut Cursor, msg: &Msg, nip: NetIP) -> (r: (Msg, Option<Buf>))
        ensures
            final(cursor).table() == old(cursor).table().insert(nip@, Sign::Rigth(msg.port)),
            final(cursor).host() == old(cursor).host(),
            r.0.ip == msg.ip,
            r.0.port == msg.port,
            r.0.fields() == answer_fields(old(cursor).host()),
            match r.1 {
                Some(b) => old(cursor).host() is Some && buf_view(b) == (msg.ip@, msg.port, typed_object_bytes("P2P-RSP"@, net_ip_json(old(cursor).host()->0))),
                None => old(cursor).host() is None,
            },
    {
        let ipm = IpMap::new(nip, Sign::Rigth(msg.port));
        cursor.replace_one(ipm);
        match cursor.get_host() {
            Some(ipn) => {
                let object = net_ip_to_json(&ipn);
                let reply = object_msg(msg.ip.clone(), msg.port, String::from_str("P2P-RSP"), object);
                let buf = reply.to_buf();
                (reply, Some(buf))
            },
            None => {
                let reply = Msg::new(msg.ip.clone(), msg.port, String::from_str("P2P-RSP"));
                (reply, None)
            },
        }
    }

    /// Takes the answer to a test from a peer that sent its address `nip`: the peer is
    /// recorded as answered from the port the answer came from.
    pub fn rsp(cursor: &mut Cursor, msg: &Msg, nip: NetIP)
        ensures
            final(cursor).table() == old(cursor).table().insert(nip@, Sign::Rigth(msg.port)),
            final(cursor).host() == old(cursor).host(),
    {
        let ipm = IpMap::new(nip, Sign::Rigth(msg.port));
        cursor.replace_one(ipm);
    }
}

} // verus!
