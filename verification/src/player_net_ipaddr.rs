//! Probing each player's address by a growing offset from its public port, alternating
//! above and below it, with the players kept in a list.
use vstd::prelude::*;
use crate::net_ip::NetIP;
use crate::queue::{buf_view, object_msg, typed_object_bytes, typed_object_fields, Buf, Msg};
use crate::text::{i32_to_dec, int_dec};
use crate::wire::{net_ip_json, net_ip_to_json};

verus! {

/// Where a player stands in the probing of its address.
#[derive(Clone, Copy, Debug, PartialEq, Eq, Structural)]
pub enum Sign {
    Ready,
    Begin,
    Next,
    Finish,
    Rigth,
    Leave,
}

/// A player's address, where its probing stands, and the offset from its public port that
/// the next probe uses.
#[derive(Debug)]
pub struct IpMap {
    pub ipa: NetIP,
    pub sign: Sign,
    pub offset: i32,
}

impl Clone for IpMap {
    fn clone(&self) -> (r: Self)
        ensures
            r == *self,
    {
        IpMap { ipa: self.ipa.clone(), sign: self.sign, offset: self.offset }
    }
}

/// The port an offset points at, before it is fitted into 16 bits.
pub open spec fn offset_port(m: IpMap) -> int {
    m.ipa.port + m.offset
}

/// Whether the offset can be added to the public port within 32-bit arithmetic.
pub open spec fn offset_fits(m: IpMap) -> bool {
    i32::MIN <= offset_port(m) <= i32::MAX
}

/// The offset after one more probe: one further out, on the other side of the public port.
pub open spec fn next_offset(o: int) -> int {
    if o > 0 {
        -(o + 1)
    } else if o < 0 {
        -o + 1
    } else {
        0
    }
}

/// The player after one probing step: on to the next offset while the port pointed at is
/// in range, else finished with the offset kept.
pub open spec fn step_map(m: IpMap) -> IpMap {
    if 1024 < offset_port(m) < 49151 {
        IpMap { ipa: m.ipa, sign: Sign::Next, offset: next_offset(m.offset as int) as i32 }
    } else {
        IpMap { ipa: m.ipa, sign: Sign::Finish, offset: m.offset }
    }
}

/// `"Ready"`, `"Begin"`, and so on.
pub open spec fn sign_json(s: Sign) -> Seq<char> {
    match s {
        Sign::Ready => "\"Ready\""@,
        Sign::Begin => "\"Begin\""@,
        Sign::Next => "\"Next\""@,
        Sign::Finish => "\"Finish\""@,
        Sign::Rigth => "\"Rigth\""@,
        Sign::Leave => "\"Leave\""@,
    }
}

/// `{"ipa":…,"sign":…,"offset":…}`
pub open spec fn ip_map_json(m: IpMap) -> Seq<char> {
    "{\"ipa\":"@ + net_ip_json(m.ipa@) + ",\"sign\":"@ + sign_json(m.sign) + ",\"offset\":"@
        + int_dec(m.offset as int) + "}"@
}

/// The probe that a player's current offset calls for: a `P2P-ASK` to the port pointed at,
/// fitted into 16 bits, carrying that address.
pub open spec fn probe_view(m: IpMap) -> (Seq<char>, u16, Seq<u8>) {
    (m.ipa.ip@, offset_port(m) as u16, typed_object_bytes(
        "P2P-ASK"@,
        net_ip_json((m.ipa.ip@, offset_port(m) as u16)),
    ))
}

fn sign_to_json(s: Sign) -> (r: String)
    ensures
        r@ == sign_json(s),
{
    match s {
        Sign::Ready => String::from_str("\"Ready\""),
        Sign::Begin => String::from_str("\"Begin\""),
        Sign::Next => String::from_str("\"Next\""),
        Sign::Finish => String::from_str("\"Finish\""),
        Sign::Rigth => String::from_str("\"Rigth\""),
        Sign::Leave => String::from_str("\"Leave\""),
    }
}

/// The JSON text of a player entry.
pub fn ip_map_to_json(m: &IpMap) -> (r: String)
    ensures
        r@ == ip_map_json(*m),
{
    let mut s = String::from_str("{\"ipa\":");
    let a = net_ip_to_json(&m.ipa);
    s.append(a.as_str());
    s.append(",\"sign\":");
    let g = sign_to_json(m.sign);
    s.append(g.as_str());
    s.append(",\"offset\":");
    let o = i32_to_dec(m.offset);
    s.append(o.as_str());
    s.append("}");
    assert(s@ =~= ip_map_json(*m));
    s
}

impl IpMap {
    /// A player not probed yet.
    pub fn new(ipa: NetIP) -> (r: Self)
        ensures
            r.ipa == ipa,
            r.sign == Sign::Ready,
            r.offset == 0,
    {
        Self { ipa, sign: Sign::Ready, offset: 0 }
    }

    /// Probing begins, one above the public port.
    pub fn to_begin(&self) -> (r: Self)
        ensures
            r.ipa == self.ipa,
            r.sign == Sign::Begin,
            r.offset == 1,
    {
        Self { ipa: self.ipa.clone(), sign: Sign::Begin, offset: 1 }
    }

    /// One probing step: while the port pointed at lies strictly between 1024 and 49151,
    /// the offset moves one further out on the other side; otherwise probing finishes.
    pub fn to_next(&self) -> (r: Self)
        requires
            offset_fits(*self),
        ensures
            r == step_map(*self),
    {
        let port: i32 = self.ipa.port as i32 + self.offset;
        if port > 1024 && port < 49151 {
            let signum: i32 = if self.offset > 0 {
                -1
            } else if self.offset < 0 {
                1
            } else {
                0
            };
            let abs: i32 = if self.offset < 0 {
                -self.offset
            } else {
                self.offset
            };
            let offset: i32 = signum * (1 + abs);
            Self { ipa: self.ipa.clone(), sign: Sign::Next, offset }
        } else {
            self.to_finish()
        }
    }

    /// Probing is over; the offset is kept.
    pub fn to_finish(&self) -> (r: Self)
        ensures
            r == (IpMap { ipa: self.ipa, sign: Sign::Finish, offset: self.offset }),
    {
        Self { ipa: self.ipa.clone(), sign: Sign::Finish, offset: self.offset }
    }

    /// The player answered; the offset is kept.
    pub fn to_rigth(&self) -> (r: Self)
        ensures
            r == (IpMap { ipa: self.ipa, sign: Sign::Rigth, offset: self.offset }),
    {
        Self { ipa: self.ipa.clone(), sign: Sign::Rigth, offset: self.offset }
    }

    /// The player left; the offset is kept.
    pub fn to_leave(&self) -> (r: Self)
        ensures
            r == (IpMap { ipa: self.ipa, sign: Sign::Leave, offset: self.offset }),
    {
        Self { ipa: self.ipa.clone(), sign: Sign::Leave, offset: self.offset }
    }

    /// The probe of the current offset: a `P2P-ASK` to the port pointed at, fitted into
    /// 16 bits, carrying that address.
    pub fn to_msg(&self) -> (r: Msg)
        requires
            offset_fits(*self),
        ensures
            r.ip == self.ipa.ip,
            r.port == offset_port(*self) as u16,
            r.fields() == typed_object_fields(
                "P2P-ASK"@,
                net_ip_json((self.ipa.ip@, offset_port(*self) as u16)),
            ),
    {
        let sum: i32 = self.ipa.port as i32 + self.offset;
        let port: u16 = sum as u16;
        let ipa = NetIP::new(self.ipa.ip.clone(), port);
        let object = net_ip_to_json(&ipa);
        object_msg(self.ipa.ip.clone(), port, String::from_str("P2P-ASK"), object)
    }
}

/// Whether some entry of the list is for the address.
pub open spec fn has_addr(l: Seq<IpMap>, a: (Seq<char>, u16)) -> bool {
    exists|k: int| 0 <= k < l.len() && (#[trigger] l[k]).ipa@ == a
}

/// The entry at `k` is the first for the address.
pub open spec fn first_for(l: Seq<IpMap>, a: (Seq<char>, u16), k: int) -> bool {
    0 <= k < l.len() && l[k].ipa@ == a && forall|k2: int| 0 <= k2 < k ==> (#[trigger] l[k2]).ipa@ != a
}

/// The list with every entry for `v`'s address replaced by `v`.
pub open spec fn updated(l: Seq<IpMap>, v: IpMap) -> Seq<IpMap> {
    l.map_values(|i: IpMap| if i.ipa@ == v.ipa@ { v } else { i })
}

/// The list after recording `v`: its address's entries replaced where there are any, else
/// `v` appended.
pub open spec fn replaced(l: Seq<IpMap>, v: IpMap) -> Seq<IpMap> {
    if has_addr(l, v.ipa@) {
        updated(l, v)
    } else {
        l.push(v)
    }
}

/// The list without the entries for an address, in order.
pub open spec fn without(l: Seq<IpMap>, a: (Seq<char>, u16)) -> Seq<IpMap> {
    l.filter(|i: IpMap| i.ipa@ != a)
}

/// The list with the entries for an address marked as answered.
pub open spec fn answered(l: Seq<IpMap>, a: (Seq<char>, u16)) -> Seq<IpMap> {
    l.map_values(
        |i: IpMap|
            if i.ipa@ == a {
                IpMap { ipa: i.ipa, sign: Sign::Rigth, offset: i.offset }
            } else {
                i
            },
    )
}

/// Whether an entry is being probed.
pub open spec fn probing(i: IpMap) -> bool {
    i.sign == Sign::Begin || i.sign == Sign::Next
}

/// The list after one probing round: the entries being probed take one step.
pub open spec fn stepped_list(l: Seq<IpMap>) -> Seq<IpMap> {
    l.map_values(|i: IpMap| if probing(i) { step_map(i) } else { i })
}

/// The probes of one round, in list order: for each entry being probed, the probe of its
/// next offset.
pub open spec fn round_probes(l: Seq<IpMap>) -> Seq<(Seq<char>, u16, Seq<u8>)>
    decreases l.len(),
{
    if l.len() == 0 {
        seq![]
    } else if probing(l.last()) {
        round_probes(l.drop_last()).push(probe_view(step_map(l.last())))
    } else {
        round_probes(l.drop_last())
    }
}

/// The entries being probed can take their step.
pub open spec fn round_fits(l: Seq<IpMap>) -> bool {
    forall|k: int| 0 <= k < l.len() && probing(#[trigger] l[k]) ==> offset_fits(l[k])
}

/// No address has two entries.
pub open spec fn distinct_players(l: Seq<IpMap>) -> bool {
    forall|i: int, j: int| 0 <= i < j < l.len() ==> (#[trigger] l[i]).ipa@ != (#[trigger] l[j]).ipa@
}

/// The list of players being probed, which stands for the list that the process keeps.
#[derive(Debug)]
pub struct IpMapList {
    pub ip_list: Vec<IpMap>,
}

impl IpMapList {
    /// An empty list.
    pub fn new() -> (r: Self)
        ensures
            r.ip_list@ == Seq::<IpMap>::empty(),
    {
        Self { ip_list: Vec::new() }
    }

    /// A copy of the list.
    pub fn find(&self) -> (r: Self)
        ensures
            r.ip_list@ == self.ip_list@,
    {
        let mut l: Vec<IpMap> = Vec::new();
        let mut j: usize = 0;
        while j < self.ip_list.len()
            invariant
                j <= self.ip_list@.len(),
                l@ == self.ip_list@.subrange(0, j as int),
            decreases self.ip_list@.len() - j,
        {
            l.push(self.ip_list[j].clone());
            assert(l@ =~= self.ip_list@.subrange(0, j + 1));
            j = j + 1;
        }
        assert(self.ip_list@.subrange(0, self.ip_list@.len() as int) =~= self.ip_list@);
        Self { ip_list: l }
    }

    /// Stores this list in place of `stored`.
    pub fn save(&self, stored: &mut IpMapList)
        ensures
            final(stored).ip_list@ == self.ip_list@,
    {
        *stored = self.find();
    }

    /// Empties the list.
    pub fn clear(&mut self)
        ensures
            final(self).ip_list@ == Seq::<IpMap>::empty(),
    {
        let new_self = IpMapList::new();
        new_self.save(self);
    }

    /// The first entry for an address.
    pub fn find_one(&self, ipa: NetIP) -> (r: Option<IpMap>)
        ensures
            match r {
                Some(m) => exists|k: int| first_for(self.ip_list@, ipa@, k) && self.ip_list@[k] == m,
                None => !has_addr(self.ip_list@, ipa@),
            },
    {
        let mut j: usize = 0;
        while j < self.ip_list.len()
            invariant
                j <= self.ip_list@.len(),
                forall|k: int| 0 <= k < j ==> (#[trigger] self.ip_list@[k]).ipa@ != ipa@,
            decreases self.ip_list@.len() - j,
        {
            if self.ip_list[j].ipa == ipa {
                let r = self.ip_list[j].clone();
                assert(first_for(self.ip_list@, ipa@, j as int));
                return Some(r);
            }
            j = j + 1;
        }
        None
    }

    /// Replaces every entry for `value`'s address by `value`.
    pub fn update_one(&mut self, value: IpMap)
        ensures
            final(self).ip_list@ == updated(old(self).ip_list@, value),
    {
        let mut l: Vec<IpMap> = Vec::new();
        let mut j: usize = 0;
        while j < self.ip_list.len()
            invariant
                j <= self.ip_list@.len(),
                l@ == updated(self.ip_list@.subrange(0, j as int), value),
            decreases self.ip_list@.len() - j,
        {
            if self.ip_list[j].ipa == value.ipa {
                l.push(value.clone());
            } else {
                l.push(self.ip_list[j].clone());
            }
            assert(l@ =~= updated(self.ip_list@.subrange(0, j + 1), value));
            j = j + 1;
        }
        assert(self.ip_list@.subrange(0, self.ip_list@.len() as int) =~= self.ip_list@);
        self.ip_list = l;
    }

    /// Records `value`: replaces the entries for its address where there are any, appends
    /// it otherwise.
    pub fn replace_one(&mut self, value: IpMap)
        ensures
            final(self).ip_list@ == replaced(old(self).ip_list@, value),
    {
        match self.find_one(value.ipa.clone()) {
            Some(_) => {
                self.update_one(value);
            },
            None => {
                self.ip_list.push(value);
            },
        }
    }

    /// Removes the entries for `value`'s address.
    pub fn delete_one(&mut self, value: IpMap)
        ensures
            final(self).ip_list@ == without(old(self).ip_list@, value.ipa@),
    {
        let ghost a = value.ipa@;
        let mut l: Vec<IpMap> = Vec::new();
        let mut j: usize = 0;
        while j < self.ip_list.len()
            invariant
                j <= self.ip_list@.len(),
                a == value.ipa@,
                l@ == without(self.ip_list@.subrange(0, j as int), a),
            decreases self.ip_list@.len() - j,
        {
            proof {
                reveal_with_fuel(Seq::<_>::filter, 1);
                assert(self.ip_list@.subrange(0, j + 1).drop_last() =~= self.ip_list@.subrange(
                    0,
                    j as int,
                ));
            }
            if self.ip_list[j].ipa != value.ipa {
                l.push(self.ip_list[j].clone());
            }
            j = j + 1;
        }
        assert(self.ip_list@.subrange(0, self.ip_list@.len() as int) =~= self.ip_list@);
        self.ip_list = l;
    }

    /// The acknowledgement of a player's answer: a `P2P-CHK` to `ip:port` carrying the
    /// player's entry.
    pub fn check(ip: String, port: u16, map: IpMap) -> (r: Buf)
        ensures
            buf_view(r) == (ip@, port, typed_object_bytes("P2P-CHK"@, ip_map_json(map))),
    {
        let object = ip_map_to_json(&map);
        let msg = object_msg(ip, port, String::from_str("P2P-CHK"), object);
        msg.to_buf()
    }

    /// Marks the entries for an address as answered.
    pub fn check2(&mut self, map: IpMap)
        ensures
            final(self).ip_list@ == answered(old(self).ip_list@, map.ipa@),
            final(self).ip_list@.len() == old(self).ip_list@.len(),
            forall|k: int|
                0 <= k < old(self).ip_list@.len() && old(self).ip_list@[k].ipa@ != map.ipa@
                    ==> #[trigger] final(self).ip_list@[k] == old(self).ip_list@[k],
    {
        proof {
            law_answer_marks_only_that_player(self.ip_list@, map.ipa@);
        }
        let ghost a = map.ipa@;
        let mut l: Vec<IpMap> = Vec::new();
        let mut j: usize = 0;
        while j < self.ip_list.len()
            invariant
                j <= self.ip_list@.len(),
                a == map.ipa@,
                l@ == answered(self.ip_list@.subrange(0, j as int), a),
            decreases self.ip_list@.len() - j,
        {
            if self.ip_list[j].ipa == map.ipa {
                l.push(self.ip_list[j].to_rigth());
            } else {
                l.push(self.ip_list[j].clone());
            }
            assert(l@ =~= answered(self.ip_list@.subrange(0, j + 1), a));
            j = j + 1;
        }
        assert(self.ip_list@.subrange(0, self.ip_list@.len() as int) =~= self.ip_list@);
        self.ip_list = l;
    }

    /// Takes a player's answer `map`, which came in `msg`: the acknowledgement to send back
    /// is returned, and the entries for the player's address are marked as answered.
    pub fn rsp(&mut self, msg: &Msg, map: IpMap) -> (r: Buf)
        ensures
            buf_view(r) == (msg.ip@, msg.port, typed_object_bytes("P2P-CHK"@, ip_map_json(map))),
            final(self).ip_list@ == answered(old(self).ip_list@, map.ipa@),
            final(self).ip_list@.len() == old(self).ip_list@.len(),
            forall|k: int|
                0 <= k < old(self).ip_list@.len() && old(self).ip_list@[k].ipa@ != map.ipa@
                    ==> #[trigger] final(self).ip_list@[k] == old(self).ip_list@[k],
    {
        let b = Self::check(msg.ip.clone(), msg.port, map.clone());
        self.check2(map);
        b
    }

    /// One probing round over the list: each entry being probed takes one step, and the
    /// probes of the new offsets are returned in list order.
    pub fn start(&mut self) -> (r: Vec<Buf>)
        requires
            round_fits(old(self).ip_list@),
        ensures
            final(self).ip_list@ == stepped_list(old(self).ip_list@),
            r@.map_values(|b: Buf| buf_view(b)) == round_probes(old(self).ip_list@),
            final(self).ip_list@.len() == old(self).ip_list@.len(),
            forall|k: int|
                0 <= k < old(self).ip_list@.len() && old(self).ip_list@[k].sign != Sign::Begin
                    && old(self).ip_list@[k].sign != Sign::Next
                    ==> #[trigger] final(self).ip_list@[k] == old(self).ip_list@[k],
            r@.len() == old(self).ip_list@.filter(
                |i: IpMap| i.sign == Sign::Begin || i.sign == Sign::Next,
            ).len(),
    {
        proof {
            law_round_moves_only_probed(self.ip_list@);
        }
        let ghost l0 = self.ip_list@;
        let mut l: Vec<IpMap> = Vec::new();
        let mut r: Vec<Buf> = Vec::new();
        let mut j: usize = 0;
        while j < self.ip_list.len()
            invariant
                l0 == self.ip_list@,
                j <= l0.len(),
                round_fits(l0),
                l@ == stepped_list(l0.subrange(0, j as int)),
                r@.map_values(|b: Buf| buf_view(b)) == round_probes(l0.subrange(0, j as int)),
            decreases l0.len() - j,
        {
            let i = &self.ip_list[j];
            let ghost p = l0.subrange(0, j + 1);
            proof {
                assert(p.drop_last() =~= l0.subrange(0, j as int));
                assert(p.last() == l0[j as int]);
            }
            match i.sign {
                Sign::Begin | Sign::Next => {
                    proof {
                        assert(probing(l0[j as int]));
                        lemma_step_fits(*i);
                    }
                    let a = i.to_next();
                    l.push(a.clone());
                    let msg = a.to_msg();
                    let b = msg.to_buf();
                    let ghost r0 = r@;
                    r.push(b);
                    proof {
                        assert(r@.map_values(|b: Buf| buf_view(b)) =~= r0.map_values(
                            |b: Buf| buf_view(b),
                        ).push(buf_view(b)));
                    }
                },
                _ => {
                    l.push(i.clone());
                },
            }
            assert(l@ =~= stepped_list(p));
            j = j + 1;
        }
        assert(l0.subrange(0, l0.len() as int) =~= l0);
        assert(r@.len() == r@.map_values(|b: Buf| buf_view(b)).len());
        self.ip_list = l;
        r
    }
}

/// After one step the offset still fits: a new offset points within range of 16-bit ports.
proof fn lemma_step_fits(m: IpMap)
    requires
        offset_fits(m),
    ensures
        offset_fits(step_map(m)),
{
}

/// Recording an entry and looking its address up finds that entry.
pub proof fn lemma_replace_then_find(l: Seq<IpMap>, v: IpMap)
    ensures
        has_addr(replaced(l, v), v.ipa@),
        forall|k: int| first_for(replaced(l, v), v.ipa@, k) ==> replaced(l, v)[k] == v,
{
    let r = replaced(l, v);
    if has_addr(l, v.ipa@) {
        let k = choose|k: int| 0 <= k < l.len() && (#[trigger] l[k]).ipa@ == v.ipa@;
        assert(r[k] == v);
    } else {
        assert(r[l.len() as int] == v);
    }
}

/// Recording an entry leaves the entries for other addresses as they were.
pub proof fn lemma_replace_keeps_others(l: Seq<IpMap>, v: IpMap, k: int)
    requires
        0 <= k < l.len(),
        l[k].ipa@ != v.ipa@,
    ensures
        replaced(l, v)[k] == l[k],
{
}

/// After removing an address, no entry is left for it.
pub proof fn lemma_delete_then_absent(l: Seq<IpMap>, a: (Seq<char>, u16))
    ensures
        !has_addr(without(l, a), a),
{
    let w = without(l, a);
    assert forall|k: int| 0 <= k < w.len() implies (#[trigger] w[k]).ipa@ != a by {
        broadcast use vstd::seq_lib::group_filter_ensures;

        let f = |i: IpMap| i.ipa@ != a;
        assert(f(w[k]));
    }
}

/// Recording, updating, answering and stepping keep the addresses of the list distinct.
pub proof fn lemma_distinct_kept(l: Seq<IpMap>, v: IpMap)
    requires
        distinct_players(l),
    ensures
        distinct_players(replaced(l, v)),
        distinct_players(updated(l, v)),
        distinct_players(answered(l, v.ipa@)),
        distinct_players(stepped_list(l)),
{
    let r = replaced(l, v);
    if !has_addr(l, v.ipa@) {
        assert forall|i: int, j: int| 0 <= i < j < r.len() implies (#[trigger] r[i]).ipa@ != (
        #[trigger] r[j]).ipa@ by {
            if j == l.len() {
                assert(r[i] == l[i]);
            }
        }
    }
    let u = updated(l, v);
    assert forall|i: int, j: int| 0 <= i < j < u.len() implies (#[trigger] u[i]).ipa@ != (
    #[trigger] u[j]).ipa@ by {
        assert(l[i].ipa@ != l[j].ipa@);
    }
    let s = stepped_list(l);
    assert forall|i: int, j: int| 0 <= i < j < s.len() implies (#[trigger] s[i]).ipa@ != (
    #[trigger] s[j]).ipa@ by {
        assert(l[i].ipa@ != l[j].ipa@);
    }
    let w = answered(l, v.ipa@);
    assert forall|i: int, j: int| 0 <= i < j < w.len() implies (#[trigger] w[i]).ipa@ != (
    #[trigger] w[j]).ipa@ by {
        assert(l[i].ipa@ != l[j].ipa@);
    }
}

/// Each step flips the offset to the other side of the public port and moves it one
/// further out.
pub proof fn lemma_offset_alternates(o: int)
    requires
        o != 0,
    ensures
        next_offset(o) * o < 0,
        (if next_offset(o) < 0 { -next_offset(o) } else { next_offset(o) }) == (if o < 0 {
            -o
        } else {
            o
        }) + 1,
{
    if o > 0 {
        assert(next_offset(o) * o < 0) by (nonlinear_arith)
            requires
                next_offset(o) == -(o + 1),
                o > 0,
        ;
    } else {
        assert(next_offset(o) * o < 0) by (nonlinear_arith)
            requires
                next_offset(o) == -o + 1,
                o < 0,
        ;
    }
}

/// The offsets that probing goes through from its beginning, 1, -2, 3, -4, …, are all
/// different, so no port is probed twice.
pub proof fn lemma_offsets_distinct(offsets: Seq<int>)
    requires
        offsets.len() > 0,
        offsets[0] == 1,
        forall|i: int| 0 <= i < offsets.len() - 1 ==> offsets[i + 1] == next_offset(#[trigger] offsets[i]),
    ensures
        forall|i: int, j: int| 0 <= i < j < offsets.len() ==> offsets[i] != offsets[j],
{
    assert forall|i: int| 0 <= i < offsets.len() implies (if #[trigger] offsets[i] < 0 {
        -offsets[i]
    } else {
        offsets[i]
    }) == i + 1 by {
        lemma_offset_size(offsets, i);
    }
    assert forall|i: int, j: int| 0 <= i < j < offsets.len() implies offsets[i] != offsets[j] by {
        lemma_offset_size(offsets, i);
        lemma_offset_size(offsets, j);
    }
}

proof fn lemma_offset_size(offsets: Seq<int>, i: int)
    requires
        offsets.len() > 0,
        offsets[0] == 1,
        forall|k: int| 0 <= k < offsets.len() - 1 ==> offsets[k + 1] == next_offset(#[trigger] offsets[k]),
        0 <= i < offsets.len(),
    ensures
        (if offsets[i] < 0 { -offsets[i] } else { offsets[i] }) == i + 1,
    decreases i,
{
    if i > 0 {
        lemma_offset_size(offsets, i - 1);
        assert(offsets[i] == next_offset(offsets[i - 1]));
    }
}

/// One probing round moves only the players being probed, those that have begun or are on
/// their next offset: every other entry stays as it was, in its place, and the round sends
/// one probe for each player being probed, and no other.
pub proof fn law_round_moves_only_probed(l: Seq<IpMap>)
    ensures
        stepped_list(l).len() == l.len(),
        forall|k: int|
            0 <= k < l.len() && l[k].sign != Sign::Begin && l[k].sign != Sign::Next ==> (
            #[trigger] stepped_list(l)[k]) == l[k],
        forall|k: int|
            0 <= k < l.len() && (l[k].sign == Sign::Begin || l[k].sign == Sign::Next) ==> (
            #[trigger] stepped_list(l)[k]).ipa == l[k].ipa && (stepped_list(l)[k].sign
                == Sign::Next || stepped_list(l)[k].sign == Sign::Finish),
        round_probes(l).len() == l.filter(
            |i: IpMap| i.sign == Sign::Begin || i.sign == Sign::Next,
        ).len(),
    decreases l.len(),
{
    if l.len() > 0 {
        let pred = |i: IpMap| i.sign == Sign::Begin || i.sign == Sign::Next;
        law_round_moves_only_probed(l.drop_last());
        reveal_with_fuel(Seq::<IpMap>::filter, 1);
        assert(pred(l.last()) == probing(l.last()));
        assert(l.filter(pred).len() == l.drop_last().filter(pred).len() + if pred(l.last()) {
            1int
        } else {
            0int
        });
    }
}

/// Recording a player's answer marks that player's entries as answered, their offsets
/// kept, and leaves every other entry as it was, in its place.
pub proof fn law_answer_marks_only_that_player(l: Seq<IpMap>, a: (Seq<char>, u16))
    ensures
        answered(l, a).len() == l.len(),
        forall|k: int| 0 <= k < l.len() && l[k].ipa@ != a ==> #[trigger] answered(l, a)[k] == l[k],
        forall|k: int|
            0 <= k < l.len() && l[k].ipa@ == a ==> (#[trigger] answered(l, a)[k]).ipa == l[k].ipa
                && answered(l, a)[k].sign == Sign::Rigth && answered(l, a)[k].offset == l[k].offset,
{
}

} // verus!
