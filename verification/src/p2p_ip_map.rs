//! Hole punching towards the players of a room: each peer's public address is probed
//! port by port, alternating above and below the port the rendezvous server saw.
use vstd::prelude::*;
use crate::net_ip::NetIP;
use crate::queue::{buf_view, object_msg, typed_object_bytes, typed_object_fields, Buf, Msg};
use crate::cover::{
    lemma_prefix_round_end, lemma_prefix_round_start, lemma_prefix_round_step,
    lemma_round_sources, prefix_round, round_for, with_buf, with_index,
};
use crate::table::{
    distinct_addrs, entries_map, lemma_entries_map, link_clone, link_entries, link_get,
    link_insert, link_new, link_table, link_tidy, link_without,
};
use crate::wire::{peer_json, probe_json, probe_to_json};
use chashmap::CHashMap;

verus! {

/// Where a peer stands in the probing of its address.
#[derive(Clone, Copy, Debug, PartialEq, Eq, Structural)]
pub enum Sign {
    /// Known, not probed yet.
    Ready,
    /// The next probe goes to this port.
    Next(u16),
    /// The peer answered on this port.
    Rigth(u16),
    /// The peer that answered on this port has left.
    Leave(u16),
    /// Probing ran out of ports.
    Finish,
}

/// The ports that probing may use lie strictly between these two.
pub open spec fn in_probe_range(p: u16) -> bool {
    1024 < p < 49151
}

/// The port probed after `p`, for a peer whose public port is `base`: one above the base
/// first, then mirrored around it, one further out each time the base is crossed downwards.
pub open spec fn next_probe_port(base: u16, p: u16) -> int {
    if p == base {
        base + 1
    } else if p > base {
        base - (p - base + 1)
    } else {
        base + (base - p)
    }
}

/// Whether computing the next probe port stays within the 16-bit port numbers.
pub open spec fn step_defined(base: u16, s: Sign) -> bool {
    match s {
        Sign::Next(p) => in_probe_range(p) ==> 0 <= next_probe_port(base, p) <= u16::MAX,
        _ => true,
    }
}

/// The sign after one probing step of a peer whose public port is `base`.
pub open spec fn step_sign(base: u16, s: Sign) -> Option<Sign> {
    match s {
        Sign::Ready => Some(Sign::Next(base)),
        Sign::Next(p) => if in_probe_range(p) {
            Some(Sign::Next(next_probe_port(base, p) as u16))
        } else {
            Some(Sign::Finish)
        },
        _ => None,
    }
}

/// The place of a probed port in the order in which probing visits ports: the public port
/// first, then one above, two below, two above, three below, and so on.
pub open spec fn probe_rank(base: int, p: int) -> int {
    if p == base {
        1
    } else if p > base {
        2 * (p - base)
    } else {
        2 * (base - p) - 1
    }
}

/// A peer's address together with where its probing stands.
#[derive(Debug)]
pub struct Data {
    pub ipa: NetIP,
    pub sign: Sign,
}

impl Clone for Data {
    fn clone(&self) -> (r: Self)
        ensures
            r == *self,
    {
        Data { ipa: self.ipa.clone(), sign: self.sign }
    }
}

impl Data {
    /// A peer with the given sign.
    pub fn new(ipa: NetIP, sign: Sign) -> (r: Self)
        ensures
            r.ipa == ipa,
            r.sign == sign,
    {
        Self { ipa, sign }
    }

    /// A peer not probed yet.
    pub fn ready(ipa: NetIP) -> (r: Self)
        ensures
            r.ipa == ipa,
            r.sign == Sign::Ready,
    {
        Self { ipa, sign: Sign::Ready }
    }

    /// One probing step: a peer not probed yet is probed first on its public port; a probe
    /// within range moves on to the next port, one out of range finishes probing; a peer that
    /// answered, left or finished has no next step.
    pub fn next(&self) -> (r: Option<Self>)
        requires
            step_defined(self.ipa.port, self.sign),
        ensures
            match r {
                Some(d) => d.ipa == self.ipa && step_sign(self.ipa.port, self.sign) == Some(d.sign),
                None => step_sign(self.ipa.port, self.sign) is None,
            },
    {
        match self.sign {
            Sign::Ready => Some(Self { ipa: self.ipa.clone(), sign: Sign::Next(self.ipa.port) }),
            Sign::Next(port) => {
                if port > 1024 && port < 49151 {
                    let port2: u16;
                    if port == self.ipa.port {
                        port2 = self.ipa.port + 1;
                    } else if port > self.ipa.port {
                        let offset: u16 = port - self.ipa.port;
                        port2 = self.ipa.port - (offset + 1);
                    } else {
                        let offset: u16 = self.ipa.port - port;
                        port2 = self.ipa.port + offset;
                    }
                    Some(Self { ipa: self.ipa.clone(), sign: Sign::Next(port2) })
                } else {
                    Some(self.finish())
                }
            },
            _ => None,
        }
    }

    /// The peer answered on the port being probed.
    pub fn rigth(&self) -> (r: Option<Self>)
        ensures
            match self.sign {
                Sign::Next(p) => r == Some(Data { ipa: self.ipa, sign: Sign::Rigth(p) }),
                _ => r is None,
            },
    {
        if let Sign::Next(port) = self.sign {
            Some(Self { ipa: self.ipa.clone(), sign: Sign::Rigth(port) })
        } else {
            None
        }
    }

    /// The peer that answered has left.
    pub fn leave(&self) -> (r: Option<Self>)
        ensures
            match self.sign {
                Sign::Rigth(p) => r == Some(Data { ipa: self.ipa, sign: Sign::Leave(p) }),
                _ => r is None,
            },
    {
        if let Sign::Rigth(port) = self.sign {
            Some(Self { ipa: self.ipa.clone(), sign: Sign::Leave(port) })
        } else {
            None
        }
    }

    /// Probing of the peer is over.
    pub fn finish(&self) -> (r: Self)
        ensures
            r.ipa == self.ipa,
            r.sign == Sign::Finish,
    {
        Self { ipa: self.ipa.clone(), sign: Sign::Finish }
    }
}

/// The sign after one step where there is a next step, else the sign as it is.
pub open spec fn step_or_keep(base: u16, s: Sign) -> Sign {
    match step_sign(base, s) {
        Some(t) => t,
        None => s,
    }
}

/// The table after every peer in it has taken one probing step.
pub open spec fn stepped(m: Map<(Seq<char>, u16), Sign>) -> Map<(Seq<char>, u16), Sign> {
    Map::new(|k: (Seq<char>, u16)| m.contains_key(k), |k: (Seq<char>, u16)| step_or_keep(k.1, m[k]))
}

/// Every peer in the table can take its next probing step.
pub open spec fn all_steppable(m: Map<(Seq<char>, u16), Sign>) -> bool {
    forall|k: (Seq<char>, u16)| #[trigger] m.contains_key(k) ==> step_defined(k.1, m[k])
}

/// An optional address as its view.
pub open spec fn opt_addr(a: Option<NetIP>) -> Option<(Seq<char>, u16)> {
    match a {
        Some(n) => Some(n@),
        None => None,
    }
}

/// The datagram that probes a peer whose sign is `s`: a `P2P-ASK` to the port being probed,
/// carrying who asks and whom; none where the peer is not being probed.
pub open spec fn probe_buf(from: Option<(Seq<char>, u16)>, to: (Seq<char>, u16), s: Sign) -> Option<
    (Seq<char>, u16, Seq<u8>),
> {
    match s {
        Sign::Next(p) => Some((to.0, p, typed_object_bytes("P2P-ASK"@, probe_json(from, to, s)))),
        _ => None,
    }
}

/// Whether a peer whose public port is `base` and whose sign is `s` can take its next
/// probing step within 16-bit port numbers.
pub fn can_step(base: u16, s: Sign) -> (r: bool)
    ensures
        r == step_defined(base, s),
{
    match s {
        Sign::Next(p) => {
            if p > 1024 && p < 49151 {
                let b: i64 = base as i64;
                let q: i64 = p as i64;
                let n: i64 = if q == b {
                    b + 1
                } else if q > b {
                    b - (q - b + 1)
                } else {
                    b + (b - q)
                };
                0 <= n && n <= 65535
            } else {
                true
            }
        },
        _ => true,
    }
}

/// Whether every listed entry can take its next probing step, and so every entry of the
/// table that the list describes.
pub fn entries_steppable(entries: &Vec<(NetIP, Sign)>) -> (r: bool)
    requires
        distinct_addrs(entries@),
    ensures
        r == all_steppable(entries_map(entries@)),
{
    let ghost m = entries_map(entries@);
    proof {
        lemma_entries_map(entries@);
    }
    let mut j: usize = 0;
    while j < entries.len()
        invariant
            j <= entries@.len(),
            m == entries_map(entries@),
            distinct_addrs(entries@),
            forall|i: int| 0 <= i < j ==> step_defined((#[trigger] entries@[i]).0.port, entries@[i].1),
        decreases entries@.len() - j,
    {
        if !can_step(entries[j].0.port, entries[j].1) {
            proof {
                lemma_entries_map(entries@);
                let k = entries@[j as int].0@;
                assert(m.contains_key(k));
                assert(m[k] == entries@[j as int].1);
            }
            return false;
        }
        j = j + 1;
    }
    proof {
        lemma_entries_map(entries@);
        assert forall|k: (Seq<char>, u16)| #[trigger] m.contains_key(k) implies step_defined(
            k.1,
            m[k],
        ) by {
            let i = choose|i: int| 0 <= i < entries@.len() && entries@[i].0@ == k;
            assert(m[entries@[i].0@] == entries@[i].1);
            assert(step_defined(entries@[i].0.port, entries@[i].1));
        }
    }
    true
}

/// The table of probing signs, by peer address, that the probing works through.
pub struct Cursor {
    cache: CHashMap<NetIP, Sign>,
}

impl View for Cursor {
    type V = Map<(Seq<char>, u16), Sign>;

    closed spec fn view(&self) -> Map<(Seq<char>, u16), Sign> {
        link_table(self.cache)
    }
}

impl Cursor {
    /// The table is tidy, so it can be read.
    #[verifier::type_invariant]
    spec fn tidy(self) -> bool {
        link_tidy(self.cache)
    }

    /// An empty table.
    pub fn new() -> (r: Self)
        ensures
            r@ == Map::<(Seq<char>, u16), Sign>::empty(),
    {
        Cursor { cache: link_new() }
    }

    /// The sign of a peer, if it is in the table.
    pub fn get(&self, key: NetIP) -> (r: Option<Sign>)
        ensures
            r == self@.get(key@),
    {
        proof {
            use_type_invariant(self);
        }
        link_get(&self.cache, &key)
    }

    /// A copy of the whole table.
    pub fn find(&self) -> (r: IpMap)
        ensures
            r@ == self@,
            link_tidy(r.data),
    {
        proof {
            use_type_invariant(self);
        }
        IpMap { data: link_clone(&self.cache) }
    }

    /// Records the sign of a peer; the one it replaces is returned.
    pub fn replace_one(&mut self, data: Data) -> (r: Option<Sign>)
        ensures
            final(self)@ == old(self)@.insert(data.ipa@, data.sign),
            r == old(self)@.get(data.ipa@),
    {
        proof {
            use_type_invariant(&*self);
        }
        let mut cache = link_new();
        std::mem::swap(&mut cache, &mut self.cache);
        let r = link_insert(&mut cache, data.ipa, data.sign);
        self.cache = cache;
        r
    }

    /// Whether every peer in the table can take its next probing step.
    pub fn steppable(&self) -> (r: bool)
        ensures
            r == all_steppable(self@),
    {
        proof {
            use_type_invariant(self);
        }
        let entries = link_entries(link_clone(&self.cache));
        entries_steppable(&entries)
    }

    /// Forgets a peer; its sign is returned.
    pub fn delete_one(&mut self, key: NetIP) -> (r: Option<Sign>)
        ensures
            final(self)@ == old(self)@.remove(key@),
            r == old(self)@.get(key@),
    {
        proof {
            use_type_invariant(&*self);
        }
        let r = link_get(&self.cache, &key);
        self.cache = link_without(&self.cache, &key);
        r
    }
}

/// A snapshot of the table of probing signs.
pub struct IpMap {
    pub data: CHashMap<NetIP, Sign>,
}

impl View for IpMap {
    type V = Map<(Seq<char>, u16), Sign>;

    open spec fn view(&self) -> Map<(Seq<char>, u16), Sign> {
        link_table(self.data)
    }
}

impl IpMap {
    /// An empty snapshot.
    pub fn new() -> (r: Self)
        ensures
            r@ == Map::<(Seq<char>, u16), Sign>::empty(),
    {
        IpMap { data: link_new() }
    }

    /// The probe for a peer: a `P2P-ASK` to the port being probed, carrying the sender's own
    /// address, where it knows it, and the peer; none where the peer is not being probed.
    pub fn ask_msg(data: &Data, public: &Option<NetIP>) -> (r: Option<Msg>)
        ensures
            match r {
                Some(m) => data.sign matches Sign::Next(p) && m.ip == data.ipa.ip && m.port == p
                    && m.fields() == typed_object_fields(
                    "P2P-ASK"@,
                    probe_json(opt_addr(*public), data.ipa@, data.sign),
                ),
                None => !(data.sign is Next),
            },
    {
        if let Sign::Next(port) = data.sign {
            let object = probe_to_json(public, &data.ipa, data.sign);
            Some(object_msg(data.ipa.ip.clone(), port, String::from_str("P2P-ASK"), object))
        } else {
            None
        }
    }

    /// One probing round for one peer: the probe to send, if it is being probed, and its
    /// next sign recorded in the table, if it has one.
    pub fn ask(cursor: &mut Cursor, data: &Data, public: &Option<NetIP>) -> (r: Option<Buf>)
        requires
            step_defined(data.ipa.port, data.sign),
        ensures
            match r {
                Some(b) => probe_buf(opt_addr(*public), data.ipa@, data.sign) == Some(buf_view(b)),
                None => probe_buf(opt_addr(*public), data.ipa@, data.sign) is None,
            },
            r is Some <==> data.sign is Next,
            r matches Some(b) ==> (data.sign matches Sign::Next(p) && b.ip == data.ipa.ip && b.port
                == p),
            r matches Some(b) ==> (*public matches Some(me) ==> b.bytes@ == typed_object_bytes(
                "P2P-ASK"@,
                "{\"from\":"@ + peer_json(me@, Sign::Ready) + ",\"to\":"@ + peer_json(
                    data.ipa@,
                    data.sign,
                ) + "}"@,
            )),
            final(cursor)@ == match step_sign(data.ipa.port, data.sign) {
                Some(s) => old(cursor)@.insert(data.ipa@, s),
                None => old(cursor)@,
            },
    {
        proof {
            law_probe_addressed(opt_addr(*public), data.ipa@, data.sign);
        }
        let msg = Self::ask_msg(data, public);
        let r = match msg {
            Some(m) => Some(m.to_buf()),
            None => None,
        };
        if let Some(data2) = data.next() {
            cursor.replace_one(data2);
        }
        r
    }

    /// One probing round over the whole table: every peer takes its next step, and the
    /// probes for the peers being probed are returned, in the table's own order.
    pub fn start(cursor: &mut Cursor, public: &Option<NetIP>) -> (r: Vec<Buf>)
        requires
            all_steppable(old(cursor)@),
        ensures
            final(cursor)@ == stepped(old(cursor)@),
            probes_of_table(r@, opt_addr(*public), old(cursor)@),
    {
        let ghost m0 = cursor@;
        let ghost from = opt_addr(*public);
        let snapshot = cursor.find();
        let entries = link_entries(snapshot.data);
        let ghost e = entries@;
        let mut r: Vec<Buf> = Vec::new();
        let ghost mut idx: Seq<int> = Seq::empty();
        let ghost f = |k: (Seq<char>, u16), s: Sign| probe_buf(from, k, s);
        proof {
            lemma_prefix_round_start(e, f);
            lemma_steps_done_start(m0, e);
        }
        let mut j: usize = 0;
        while j < entries.len()
            invariant
                e == entries@,
                from == opt_addr(*public),
                j <= e.len(),
                distinct_addrs(e),
                entries_map(e) == m0,
                all_steppable(m0),
                steps_done(cursor@, m0, e, j as int),
                f == (|k: (Seq<char>, u16), s: Sign| probe_buf(from, k, s)),
                prefix_round(r@, e, j as int, f, idx),
            decreases e.len() - j,
        {
            proof {
                lemma_entries_map(e);
                assert(m0.contains_key(e[j as int].0@));
            }
            let data = Data::new(entries[j].0.clone(), entries[j].1);
            let ghost c0 = cursor@;
            let ghost r0 = r@;
            proof {
                assert(data.ipa@ == e[j as int].0@);
                assert(data.sign == e[j as int].1);
            }
            let b = Self::ask(cursor, &data, public);
            proof {
                lemma_steps_done_step(c0, cursor@, m0, e, j as int);
                lemma_prefix_round_step(r0, e, j as int, f, idx, b);
            }
            match b {
                Some(b) => {
                    r.push(b);
                },
                None => {},
            }
            proof {
                assert(r@ == with_buf(r0, b));
                idx = with_index(idx, j as int, b);
            }
            j = j + 1;
        }
        proof {
            lemma_steps_done_end(cursor@, m0, e);
            lemma_prefix_round_end(r@, e, m0, f, idx);
        }
        r
    }
}

/// The first `j` entries have taken their step; the others are as they were.
#[verifier::opaque]
pub open spec fn steps_done(
    c: Map<(Seq<char>, u16), Sign>,
    m0: Map<(Seq<char>, u16), Sign>,
    e: Seq<(NetIP, Sign)>,
    j: int,
) -> bool {
    &&& forall|k: (Seq<char>, u16)| c.contains_key(k) <==> m0.contains_key(k)
    &&& forall|i: int| 0 <= i < j ==> c[#[trigger] e[i].0@] == step_or_keep(e[i].0@.1, e[i].1)
    &&& forall|i: int| j <= i < e.len() ==> c[#[trigger] e[i].0@] == e[i].1
}

/// One more listed entry takes its step.
pub proof fn lemma_steps_done_step(
    c0: Map<(Seq<char>, u16), Sign>,
    c1: Map<(Seq<char>, u16), Sign>,
    m0: Map<(Seq<char>, u16), Sign>,
    e: Seq<(NetIP, Sign)>,
    j: int,
)
    requires
        0 <= j < e.len(),
        distinct_addrs(e),
        entries_map(e) == m0,
        steps_done(c0, m0, e, j),
        c1 == match step_sign(e[j].0@.1, e[j].1) {
            Some(s) => c0.insert(e[j].0@, s),
            None => c0,
        },
    ensures
        steps_done(c1, m0, e, j + 1),
{
    reveal(steps_done);
    lemma_entries_map(e);
    assert(m0.contains_key(e[j].0@));
    assert forall|i: int| 0 <= i < e.len() && i != j implies e[i].0@ != e[j].0@ by {}
}

/// Once every listed entry has taken its step, the whole table has.
pub proof fn lemma_steps_done_end(
    c: Map<(Seq<char>, u16), Sign>,
    m0: Map<(Seq<char>, u16), Sign>,
    e: Seq<(NetIP, Sign)>,
)
    requires
        distinct_addrs(e),
        entries_map(e) == m0,
        steps_done(c, m0, e, e.len() as int),
    ensures
        c == stepped(m0),
{
    reveal(steps_done);
    lemma_entries_map(e);
    assert forall|k: (Seq<char>, u16)| #[trigger] m0.contains_key(k) implies c[k] == step_or_keep(
        k.1,
        m0[k],
    ) by {
        let i = choose|i: int| 0 <= i < e.len() && e[i].0@ == k;
        assert(m0[e[i].0@] == e[i].1);
    }
    assert(c =~= stepped(m0));
}

/// Before any step, the table is as it was.
pub proof fn lemma_steps_done_start(m0: Map<(Seq<char>, u16), Sign>, e: Seq<(NetIP, Sign)>)
    requires
        distinct_addrs(e),
        entries_map(e) == m0,
    ensures
        steps_done(m0, m0, e, 0),
{
    reveal(steps_done);
    lemma_entries_map(e);
}

/// The probes of one round are exactly those of the peers being probed: each returned
/// datagram probes some peer of the table, and each peer being probed has its datagram.
pub open spec fn probes_of_table(
    r: Seq<Buf>,
    from: Option<(Seq<char>, u16)>,
    m: Map<(Seq<char>, u16), Sign>,
) -> bool {
    round_for(r, m, |k: (Seq<char>, u16), s: Sign| probe_buf(from, k, s))
}

/// A probe goes to the port being probed, on the peer's IP, and only a peer being probed
/// gets one; where the sender knows its own address, the probe names it as `from`, not
/// probed yet, ahead of the peer it probes.
pub proof fn law_probe_addressed(from: Option<(Seq<char>, u16)>, to: (Seq<char>, u16), s: Sign)
    ensures
        probe_buf(from, to, s) is Some <==> s is Next,
        probe_buf(from, to, s) matches Some(b) ==> (s matches Sign::Next(p) && b.0 == to.0 && b.1
            == p),
        probe_buf(from, to, s) matches Some(b) ==> (from matches Some(f) ==> b.2
            == typed_object_bytes(
            "P2P-ASK"@,
            "{\"from\":"@ + peer_json(f, Sign::Ready) + ",\"to\":"@ + peer_json(to, s) + "}"@,
        )),
{
}

/// Every probe of a round goes to a peer of the table, on its IP and at the port it is being
/// probed on, and names the sender where the sender knows its own address: the peers `ks`,
/// one per probe, in the round's order.
pub proof fn law_round_probes_addressed(
    r: Seq<Buf>,
    from: Option<(Seq<char>, u16)>,
    m: Map<(Seq<char>, u16), Sign>,
) -> (ks: Seq<(Seq<char>, u16)>)
    requires
        probes_of_table(r, from, m),
    ensures
        ks.len() == r.len(),
        ks.no_duplicates(),
        forall|k: (Seq<char>, u16)|
            #[trigger] m.contains_key(k) && m[k] is Next ==> ks.contains(k),
        forall|i: int|
            0 <= i < r.len() ==> m.contains_key(#[trigger] ks[i]) && r[i].ip@ == ks[i].0 && (
            m[ks[i]] matches Sign::Next(p) && r[i].port == p) && (from matches Some(f) ==> r[i].bytes@
                == typed_object_bytes(
                "P2P-ASK"@,
                "{\"from\":"@ + peer_json(f, Sign::Ready) + ",\"to\":"@ + peer_json(
                    ks[i],
                    m[ks[i]],
                ) + "}"@,
            )),
{
    let g = |k: (Seq<char>, u16), s: Sign| probe_buf(from, k, s);
    let ks = lemma_round_sources(r, m, g);
    assert forall|i: int| 0 <= i < r.len() implies m.contains_key(#[trigger] ks[i]) && r[i].ip@
        == ks[i].0 && (m[ks[i]] matches Sign::Next(p) && r[i].port == p) && (from matches Some(f)
        ==> r[i].bytes@ == typed_object_bytes(
        "P2P-ASK"@,
        "{\"from\":"@ + peer_json(f, Sign::Ready) + ",\"to\":"@ + peer_json(ks[i], m[ks[i]]) + "}"@,
    )) by {
        law_probe_addressed(from, ks[i], m[ks[i]]);
    }
    assert forall|k: (Seq<char>, u16)| #[trigger] m.contains_key(k) && m[k] is Next implies ks.contains(k) by {
        law_probe_addressed(from, k, m[k]);
        assert(g(k, m[k]) is Some);
    }
    ks
}

/// Each probe within range moves on to the port of the next rank. (A peer not probed yet
/// starts at its public port, of rank 1.)
pub proof fn lemma_step_rank(base: u16, p: u16)
    requires
        in_probe_range(p),
        step_defined(base, Sign::Next(p)),
    ensures
        step_sign(base, Sign::Next(p)) == Some(Sign::Next(next_probe_port(base, p) as u16)),
        probe_rank(base as int, next_probe_port(base, p)) == probe_rank(base as int, p as int) + 1,
        probe_rank(base as int, base as int) == 1,
{
}

/// Apart from the public port and the one just below it, which share rank 1, every port has
/// its own rank.
pub proof fn lemma_rank_injective(base: int, p: int, q: int)
    requires
        probe_rank(base, p) == probe_rank(base, q),
        probe_rank(base, p) >= 2,
    ensures
        p == q,
{
}

/// The ports that probing visits, starting from a peer's public port, are all different:
/// a probe never asks the same port twice.
pub proof fn lemma_probe_ports_distinct(base: u16, ports: Seq<u16>)
    requires
        ports.len() > 0,
        ports[0] == base,
        forall|i: int|
            0 <= i < ports.len() - 1 ==> in_probe_range(#[trigger] ports[i]) && step_defined(
                base,
                Sign::Next(ports[i]),
            ) && step_sign(base, Sign::Next(ports[i])) == Some(Sign::Next(ports[i + 1])),
    ensures
        forall|i: int, j: int| 0 <= i < j < ports.len() ==> ports[i] != ports[j],
{
    assert forall|i: int| 0 <= i < ports.len() implies probe_rank(base as int, #[trigger] ports[i] as int)
        == i + 1 by {
        lemma_rank_of_index(base, ports, i);
    }
    assert forall|i: int, j: int| 0 <= i < j < ports.len() implies ports[i] != ports[j] by {
        assert(probe_rank(base as int, ports[i] as int) == i + 1);
        assert(probe_rank(base as int, ports[j] as int) == j + 1);
    }
}

proof fn lemma_rank_of_index(base: u16, ports: Seq<u16>, i: int)
    requires
        ports.len() > 0,
        ports[0] == base,
        forall|k: int|
            0 <= k < ports.len() - 1 ==> in_probe_range(#[trigger] ports[k]) && step_defined(
                base,
                Sign::Next(ports[k]),
            ) && step_sign(base, Sign::Next(ports[k])) == Some(Sign::Next(ports[k + 1])),
        0 <= i < ports.len(),
    ensures
        probe_rank(base as int, ports[i] as int) == i + 1,
    decreases i,
{
    if i > 0 {
        lemma_rank_of_index(base, ports, i - 1);
        assert(in_probe_range(ports[i - 1]));
        lemma_step_rank(base, ports[i - 1]);
    }
}

} // verus!
