//! Hole punching with this host's own address taken from the room: probes go out only once
//! the host knows where it stands, a peer that asks is answered on the spot, and the answer
//! records the peer as reached.
use vstd::prelude::*;
use chashmap::CHashMap;
use crate::cover::{
    lemma_prefix_round_end, lemma_prefix_round_start, lemma_prefix_round_step,
    lemma_round_sources, prefix_round, round_for, with_buf, with_index,
};
use crate::net_ip::NetIP;
use crate::p2p_ip_map::{
    all_steppable, entries_steppable, lemma_steps_done_end, lemma_steps_done_start,
    lemma_steps_done_step, opt_addr, probe_buf, step_defined, step_sign,
    steps_done, stepped, Sign,
};
use crate::queue::{buf_view, object_msg, typed_object_bytes, typed_object_fields, Buf, Msg};
use crate::table::{
    distinct_addrs, entries_map, lemma_entries_map, link_clone, link_contains, link_entries,
    link_get, link_insert, link_new, link_table, link_tidy, link_without,
};
use crate::wire::{peer_json, peer_to_json, probe_json, probe_to_json};

verus! {

/// The sign of a peer that answered, for a peer whose public port is `base`: one not probed
/// yet answered on its public port, one being probed on the port probed.
pub open spec fn answered_sign(base: u16, s: Sign) -> Option<Sign> {
    match s {
        Sign::Ready => Some(Sign::Rigth(base)),
        Sign::Next(p) => Some(Sign::Rigth(p)),
        _ => None,
    }
}

/// The probe of a peer, sent only once this host knows its own address.
pub open spec fn link_probe(myself: Option<(Seq<char>, u16)>, to: (Seq<char>, u16), s: Sign) -> Option<
    (Seq<char>, u16, Seq<u8>),
> {
    match myself {
        Some(_) => probe_buf(myself, to, s),
        None => None,
    }
}

/// A probe goes out only once this host knows its own address, only to a peer being probed,
/// on that peer's IP and at the port being probed, and it names this host as `from`, not
/// probed yet, ahead of the peer it probes.
pub proof fn law_link_probe_addressed(
    myself: Option<(Seq<char>, u16)>,
    to: (Seq<char>, u16),
    s: Sign,
)
    ensures
        link_probe(myself, to, s) is Some <==> (myself is Some && s is Next),
        link_probe(myself, to, s) matches Some(b) ==> (s matches Sign::Next(p) && b.0 == to.0
            && b.1 == p),
        link_probe(myself, to, s) matches Some(b) ==> (myself matches Some(f) && b.2
            == typed_object_bytes(
            "P2P-ASK"@,
            "{\"from\":"@ + peer_json(f, Sign::Ready) + ",\"to\":"@ + peer_json(to, s) + "}"@,
        )),
{
}

/// Every probe of a round goes to a peer of the table, on its IP and at the port it is being
/// probed on, and names this host: the peers `ks`, one per probe, in the round's order.
pub proof fn law_link_round_addressed(
    r: Seq<Buf>,
    myself: Option<(Seq<char>, u16)>,
    m: Map<(Seq<char>, u16), Sign>,
) -> (ks: Seq<(Seq<char>, u16)>)
    requires
        round_for(r, m, |k: (Seq<char>, u16), s: Sign| link_probe(myself, k, s)),
    ensures
        ks.len() == r.len(),
        ks.no_duplicates(),
        r.len() > 0 ==> myself is Some,
        forall|k: (Seq<char>, u16)|
            #[trigger] m.contains_key(k) && m[k] is Next && myself is Some ==> ks.contains(k),
        forall|i: int|
            0 <= i < r.len() ==> m.contains_key(#[trigger] ks[i]) && r[i].ip@ == ks[i].0 && (
            m[ks[i]] matches Sign::Next(p) && r[i].port == p) && (myself matches Some(f)
                && r[i].bytes@ == typed_object_bytes(
                "P2P-ASK"@,
                "{\"from\":"@ + peer_json(f, Sign::Ready) + ",\"to\":"@ + peer_json(
                    ks[i],
                    m[ks[i]],
                ) + "}"@,
            )),
{
    let g = |k: (Seq<char>, u16), s: Sign| link_probe(myself, k, s);
    let ks = lemma_round_sources(r, m, g);
    assert forall|i: int| 0 <= i < r.len() implies m.contains_key(#[trigger] ks[i]) && r[i].ip@
        == ks[i].0 && (m[ks[i]] matches Sign::Next(p) && r[i].port == p) && (myself matches Some(
        f,
    ) && r[i].bytes@ == typed_object_bytes(
        "P2P-ASK"@,
        "{\"from\":"@ + peer_json(f, Sign::Ready) + ",\"to\":"@ + peer_json(ks[i], m[ks[i]]) + "}"@,
    )) by {
        law_link_probe_addressed(myself, ks[i], m[ks[i]]);
    }
    if r.len() > 0 {
        law_link_probe_addressed(myself, ks[0], m[ks[0]]);
    }
    assert forall|k: (Seq<char>, u16)| #[trigger] m.contains_key(k) && m[k] is Next && myself is Some implies ks.contains(k) by {
        law_link_probe_addressed(myself, k, m[k]);
        assert(g(k, m[k]) is Some);
    }
    ks
}

/// A peer's address together with where its probing stands.
#[derive(Debug)]
pub struct Data {
    pub ipa: NetIP,
    pub sign: Sign,
}

impl Clone for Data {
    fn clone(&self) -> (r: Self)
        ensures
            r == *self,
    {
        Data { ipa: self.ipa.clone(), sign: self.sign }
    }
}

impl Data {
    /// A peer with the given sign.
    pub fn new(ipa: NetIP, sign: Sign) -> (r: Self)
        ensures
            r.ipa == ipa,
            r.sign == sign,
    {
        Self { ipa, sign }
    }

    /// A peer not probed yet.
    pub fn ready(ipa: NetIP) -> (r: Self)
        ensures
            r.ipa == ipa,
            r.sign == Sign::Ready,
    {
        Self { ipa, sign: Sign::Ready }
    }

    /// One probing step, as in the first scheme: the public port first, then ports mirrored
    /// around it, until the range runs out.
    pub fn next(&self) -> (r: Option<Self>)
        requires
            step_defined(self.ipa.port, self.sign),
        ensures
            match r {
                Some(d) => d.ipa == self.ipa && step_sign(self.ipa.port, self.sign) == Some(d.sign),
                None => step_sign(self.ipa.port, self.sign) is None,
            },
    {
        match self.sign {
            Sign::Ready => Some(Self { ipa: self.ipa.clone(), sign: Sign::Next(self.ipa.port) }),
            Sign::Next(port) => {
                if port > 1024 && port < 49151 {
                    let port2: u16;
                    if port == self.ipa.port {
                        port2 = self.ipa.port + 1;
                    } else if port > self.ipa.port {
                        let offset: u16 = port - self.ipa.port;
                        port2 = self.ipa.port - (offset + 1);
                    } else {
                        let offset: u16 = self.ipa.port - port;
                        port2 = self.ipa.port + offset;
                    }
                    Some(Self { ipa: self.ipa.clone(), sign: Sign::Next(port2) })
                } else {
                    Some(self.finish())
                }
            },
            _ => None,
        }
    }

    /// The peer answered: on its public port if it was not probed yet, on the port being
    /// probed otherwise.
    pub fn rigth(&self) -> (r: Option<Self>)
        ensures
            match answered_sign(self.ipa.port, self.sign) {
                Some(s) => r == Some(Data { ipa: self.ipa, sign: s }),
                None => r is None,
            },
    {
        match self.sign {
            Sign::Ready => Some(Self { ipa: self.ipa.clone(), sign: Sign::Rigth(self.ipa.port) }),
            Sign::Next(port) => Some(Self { ipa: self.ipa.clone(), sign: Sign::Rigth(port) }),
            _ => None,
        }
    }

    /// The peer that answered has left.
    pub fn _leave(&self) -> (r: Option<Self>)
        ensures
            match self.sign {
                Sign::Rigth(p) => r == Some(Data { ipa: self.ipa, sign: Sign::Leave(p) }),
                _ => r is None,
            },
    {
        if let Sign::Rigth(port) = self.sign {
            Some(Self { ipa: self.ipa.clone(), sign: Sign::Leave(port) })
        } else {
            None
        }
    }

    /// Probing of the peer is over.
    pub fn finish(&self) -> (r: Self)
        ensures
            r.ipa == self.ipa,
            r.sign == Sign::Finish,
    {
        Self { ipa: self.ipa.clone(), sign: Sign::Finish }
    }
}

/// The table of probing signs, by peer address.
pub struct Cursor {
    cache: CHashMap<NetIP, Sign>,
}

impl View for Cursor {
    type V = Map<(Seq<char>, u16), Sign>;

    closed spec fn view(&self) -> Map<(Seq<char>, u16), Sign> {
        link_table(self.cache)
    }
}

impl Cursor {
    /// The table is tidy, so it can be read.
    #[verifier::type_invariant]
    spec fn tidy(self) -> bool {
        link_tidy(self.cache)
    }

    /// An empty table.
    pub fn new() -> (r: Self)
        ensures
            r@ == Map::<(Seq<char>, u16), Sign>::empty(),
    {
        Cursor { cache: link_new() }
    }

    /// The sign of a peer, if it is in the table.
    pub fn _get(&self, key: NetIP) -> (r: Option<Sign>)
        ensures
            r == self@.get(key@),
    {
        proof {
            use_type_invariant(self);
        }
        link_get(&self.cache, &key)
    }

    /// Whether a peer is in the table.
    pub fn exist(&self, key: &NetIP) -> (r: bool)
        ensures
            r == self@.contains_key(key@),
    {
        proof {
            use_type_invariant(self);
        }
        link_contains(&self.cache, key)
    }

    /// A copy of the whole table.
    pub fn find(&self) -> (r: IpMap)
        ensures
            r@ == self@,
            link_tidy(r.data),
    {
        proof {
            use_type_invariant(self);
        }
        IpMap { data: link_clone(&self.cache) }
    }

    /// Records the sign of a peer; the one it replaces is returned.
    pub fn replace_one(&mut self, data: Data) -> (r: Option<Sign>)
        ensures
            final(self)@ == old(self)@.insert(data.ipa@, data.sign),
            r == old(self)@.get(data.ipa@),
    {
        proof {
            use_type_invariant(&*self);
        }
        let mut cache = link_new();
        std::mem::swap(&mut cache, &mut self.cache);
        let r = link_insert(&mut cache, data.ipa, data.sign);
        self.cache = cache;
        r
    }

    /// Whether every peer in the table can take its next probing step.
    pub fn steppable(&self) -> (r: bool)
        ensures
            r == all_steppable(self@),
    {
        proof {
            use_type_invariant(self);
        }
        let entries = link_entries(link_clone(&self.cache));
        entries_steppable(&entries)
    }

    /// Forgets a peer; its sign is returned.
    pub fn _delete_one(&mut self, key: NetIP) -> (r: Option<Sign>)
        ensures
            final(self)@ == old(self)@.remove(key@),
            r == old(self)@.get(key@),
    {
        proof {
            use_type_invariant(&*self);
        }
        let r = link_get(&self.cache, &key);
        self.cache = link_without(&self.cache, &key);
        r
    }
}

/// A snapshot of the table of probing signs.
pub struct IpMap {
    pub data: CHashMap<NetIP, Sign>,
}

impl View for IpMap {
    type V = Map<(Seq<char>, u16), Sign>;

    open spec fn view(&self) -> Map<(Seq<char>, u16), Sign> {
        link_table(self.data)
    }
}

impl IpMap {
    /// An empty snapshot.
    pub fn _new() -> (r: Self)
        ensures
            r@ == Map::<(Seq<char>, u16), Sign>::empty(),
    {
        IpMap { data: link_new() }
    }

    /// The probe of a peer, once this host knows its own address: a peer not probed yet
    /// moves to its public port in the table and gets no probe this round; a peer being
    /// probed gets a `P2P-ASK` to the port probed, carrying this host and the peer.
    pub fn ask_msg(cursor: &mut Cursor, data: &Data, myself: &Option<NetIP>) -> (r: Option<Msg>)
        ensures
            match r {
                Some(m) => data.sign matches Sign::Next(p) && m.ip == data.ipa.ip && m.port == p
                    && m.fields() == typed_object_fields(
                    "P2P-ASK"@,
                    probe_json(opt_addr(*myself), data.ipa@, data.sign),
                ) && myself is Some,
                None => myself is None || !(data.sign is Next),
            },
            final(cursor)@ == if myself is Some && data.sign == Sign::Ready {
                old(cursor)@.insert(data.ipa@, Sign::Next(data.ipa.port))
            } else {
                old(cursor)@
            },
    {
        if let Some(_) = myself {
            match data.sign {
                Sign::Ready => {
                    let d = Data::new(data.ipa.clone(), Sign::Next(data.ipa.port));
                    cursor.replace_one(d);
                },
                Sign::Next(port) => {
                    let object = probe_to_json(myself, &data.ipa, data.sign);
                    return Some(
                        object_msg(data.ipa.ip.clone(), port, String::from_str("P2P-ASK"), object),
                    );
                },
                _ => {},
            }
        }
        None
    }

    /// One probing round for one peer, once this host knows its own address: the peer takes
    /// its next step in the table, and the probe to send is returned where it is being
    /// probed.
    pub fn ask(cursor: &mut Cursor, data: &Data, myself: &Option<NetIP>) -> (r: Option<Buf>)
        requires
            myself is Some ==> step_defined(data.ipa.port, data.sign),
        ensures
            match r {
                Some(b) => link_probe(opt_addr(*myself), data.ipa@, data.sign) == Some(buf_view(b)),
                None => link_probe(opt_addr(*myself), data.ipa@, data.sign) is None,
            },
            r is Some <==> (myself is Some && data.sign is Next),
            r matches Some(b) ==> (data.sign matches Sign::Next(p) && b.ip == data.ipa.ip && b.port
                == p),
            r matches Some(b) ==> (*myself matches Some(me) && b.bytes@ == typed_object_bytes(
                "P2P-ASK"@,
                "{\"from\":"@ + peer_json(me@, Sign::Ready) + ",\"to\":"@ + peer_json(
                    data.ipa@,
                    data.sign,
                ) + "}"@,
            )),
            final(cursor)@ == match (myself, step_sign(data.ipa.port, data.sign)) {
                (Some(_), Some(s)) => old(cursor)@.insert(data.ipa@, s),
                _ => old(cursor)@,
            },
    {
        proof {
            law_link_probe_addressed(opt_addr(*myself), data.ipa@, data.sign);
        }
        match Self::ask_msg(cursor, data, myself) {
            Some(msg) => {
                let buf = msg.to_buf();
                if let Some(data2) = data.next() {
                    cursor.replace_one(data2);
                }
                Some(buf)
            },
            None => None,
        }
    }

    /// One probing round over the whole table: once this host knows its own address, every
    /// peer takes its next step, and the probes for the peers being probed are returned, in
    /// the table's own order; before that, nothing happens.
    pub fn start(cursor: &mut Cursor, myself: &Option<NetIP>) -> (r: Vec<Buf>)
        requires
            myself is Some ==> all_steppable(old(cursor)@),
        ensures
            final(cursor)@ == if myself is Some {
                stepped(old(cursor)@)
            } else {
                old(cursor)@
            },
            round_for(
                r@,
                old(cursor)@,
                |k: (Seq<char>, u16), s: Sign| link_probe(opt_addr(*myself), k, s),
            ),
    {
        let ghost m0 = cursor@;
        let ghost me = opt_addr(*myself);
        let ghost f = |k: (Seq<char>, u16), s: Sign| link_probe(me, k, s);
        let snapshot = cursor.find();
        let entries = link_entries(snapshot.data);
        let ghost e = entries@;
        let mut r: Vec<Buf> = Vec::new();
        let ghost mut idx: Seq<int> = Seq::empty();
        proof {
            lemma_prefix_round_start(e, f);
            lemma_steps_done_start(m0, e);
        }
        let mut j: usize = 0;
        while j < entries.len()
            invariant
                e == entries@,
                me == opt_addr(*myself),
                j <= e.len(),
                distinct_addrs(e),
                entries_map(e) == m0,
                myself is Some ==> all_steppable(m0),
                myself is Some ==> steps_done(cursor@, m0, e, j as int),
                myself is None ==> cursor@ == m0,
                f == (|k: (Seq<char>, u16), s: Sign| link_probe(me, k, s)),
                prefix_round(r@, e, j as int, f, idx),
            decreases e.len() - j,
        {
            proof {
                lemma_entries_map(e);
                assert(m0.contains_key(e[j as int].0@));
            }
            let data = Data::new(entries[j].0.clone(), entries[j].1);
            proof {
                assert(data.ipa@ == e[j as int].0@);
                assert(data.sign == e[j as int].1);
            }
            let ghost c0 = cursor@;
            let ghost r0 = r@;
            let b = Self::ask(cursor, &data, myself);
            proof {
                if myself is Some {
                    lemma_steps_done_step(c0, cursor@, m0, e, j as int);
                }
                lemma_prefix_round_step(r0, e, j as int, f, idx, b);
            }
            match b {
                Some(b) => r.push(b),
                None => {},
            }
            proof {
                assert(r@ == with_buf(r0, b));
                idx = with_index(idx, j as int, b);
            }
            j = j + 1;
        }
        proof {
            if myself is Some {
                lemma_steps_done_end(cursor@, m0, e);
            }
            lemma_prefix_round_end(r@, e, m0, f, idx);
        }
        r
    }

    /// Answers a probe from a peer: the asking peer (`from`) is recorded as answered, and
    /// the answer is a `P2P-RSP` to where the probe came from, carrying the asked peer
    /// (`to`) with this host's own address in place of its address, marked as answered.
    pub fn accept(cursor: &mut Cursor, msg: &Msg, from: &Data, to: &Data, myself: NetIP) -> (r: (
        Msg,
        Buf,
    ))
        requires
            answered_sign(from.ipa.port, from.sign) is Some,
            answered_sign(myself.port, to.sign) is Some,
        ensures
            final(cursor)@ == old(cursor)@.insert(
                from.ipa@,
                answered_sign(from.ipa.port, from.sign)->0,
            ),
            r.0.ip == msg.ip,
            r.0.port == msg.port,
            r.0.fields() == typed_object_fields(
                "P2P-RSP"@,
                peer_json(myself@, answered_sign(myself.port, to.sign)->0),
            ),
            buf_view(r.1) == (msg.ip@, msg.port, typed_object_bytes(
                "P2P-RSP"@,
                peer_json(myself@, answered_sign(myself.port, to.sign)->0),
            )),
    {
        let b = from.rigth();
        match b {
            Some(b) => {
                cursor.replace_one(b);
            },
            None => {},
        }
        let c = Data::new(myself, to.sign);
        let d = c.rigth();
        let reply = match d {
            Some(d) => {
                let object = peer_to_json(&d.ipa, d.sign);
                object_msg(msg.ip.clone(), msg.port, String::from_str("P2P-RSP"), object)
            },
            None => {
                proof {
                    assert(false);
                }
                Msg::new(msg.ip.clone(), msg.port, String::from_str("P2P-RSP"))
            },
        };
        let buf = reply.to_buf();
        (reply, buf)
    }

    /// Takes a peer's answer: the peer it names is recorded with its sign.
    pub fn rsp(cursor: &mut Cursor, data: Data)
        ensures
            final(cursor)@ == old(cursor)@.insert(data.ipa@, data.sign),
    {
        cursor.replace_one(data);
    }
}

} // verus!
