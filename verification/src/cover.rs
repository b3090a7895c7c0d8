//! What one round over a table sends: one datagram for each entry that calls for one, and
//! nothing else, in whatever order the table lists its entries.
use vstd::prelude::*;
use crate::net_ip::NetIP;
use crate::queue::{buf_view, Buf};
use crate::table::{distinct_addrs, entries_map, lemma_entries_map};

verus! {

/// The datagrams are those that the entries `ks` of the table call for, in that order, and
/// `ks` lists every entry that calls for one, each once.
pub open spec fn round_keys<S>(
    r: Seq<Buf>,
    m: Map<(Seq<char>, u16), S>,
    f: spec_fn((Seq<char>, u16), S) -> Option<(Seq<char>, u16, Seq<u8>)>,
    ks: Seq<(Seq<char>, u16)>,
) -> bool {
    &&& ks.len() == r.len()
    &&& ks.no_duplicates()
    &&& forall|t: int|
        0 <= t < ks.len() ==> m.contains_key(#[trigger] ks[t]) && f(ks[t], m[ks[t]]) == Some(
            buf_view(r[t]),
        )
    &&& forall|k: (Seq<char>, u16)| m.contains_key(k) && (#[trigger] f(k, m[k])) is Some ==> ks.contains(k)
}

/// The datagrams of one round are exactly those that the entries of the table call for,
/// one per entry, in some order.
pub open spec fn round_for<S>(
    r: Seq<Buf>,
    m: Map<(Seq<char>, u16), S>,
    f: spec_fn((Seq<char>, u16), S) -> Option<(Seq<char>, u16, Seq<u8>)>,
) -> bool {
    exists|ks: Seq<(Seq<char>, u16)>| round_keys(r, m, f, ks)
}

/// The datagrams so far are those that the listed entries at the increasing indices `idx`
/// call for, and these are all the entries before `j` that call for one.
#[verifier::opaque]
pub open spec fn prefix_round<S>(
    r: Seq<Buf>,
    e: Seq<(NetIP, S)>,
    j: int,
    f: spec_fn((Seq<char>, u16), S) -> Option<(Seq<char>, u16, Seq<u8>)>,
    idx: Seq<int>,
) -> bool {
    &&& idx.len() == r.len()
    &&& forall|t: int|
        0 <= t < idx.len() ==> 0 <= #[trigger] idx[t] < j && f(e[idx[t]].0@, e[idx[t]].1) == Some(
            buf_view(r[t]),
        )
    &&& forall|t1: int, t2: int| 0 <= t1 < t2 < idx.len() ==> idx[t1] < idx[t2]
    &&& forall|i: int|
        0 <= i < j && (#[trigger] f(e[i].0@, e[i].1)) is Some ==> exists|t: int|
            0 <= t < idx.len() && idx[t] == i
}

/// The datagrams after the next entry has added its own, if it calls for one.
pub open spec fn with_buf(r: Seq<Buf>, b: Option<Buf>) -> Seq<Buf> {
    match b {
        Some(x) => r.push(x),
        None => r,
    }
}

/// The indices after the next entry, at `j`, has added its datagram, if it calls for one.
pub open spec fn with_index(idx: Seq<int>, j: int, b: Option<Buf>) -> Seq<int> {
    match b {
        Some(_) => idx.push(j),
        None => idx,
    }
}

/// Before any entry, no datagram.
pub proof fn lemma_prefix_round_start<S>(
    e: Seq<(NetIP, S)>,
    f: spec_fn((Seq<char>, u16), S) -> Option<(Seq<char>, u16, Seq<u8>)>,
)
    ensures
        prefix_round(Seq::<Buf>::empty(), e, 0, f, Seq::<int>::empty()),
{
    reveal(prefix_round);
}

/// The next entry adds its datagram, if it calls for one.
pub proof fn lemma_prefix_round_step<S>(
    r: Seq<Buf>,
    e: Seq<(NetIP, S)>,
    j: int,
    f: spec_fn((Seq<char>, u16), S) -> Option<(Seq<char>, u16, Seq<u8>)>,
    idx: Seq<int>,
    b: Option<Buf>,
)
    requires
        0 <= j < e.len(),
        prefix_round(r, e, j, f, idx),
        match b {
            Some(x) => f(e[j].0@, e[j].1) == Some(buf_view(x)),
            None => f(e[j].0@, e[j].1) is None,
        },
    ensures
        prefix_round(with_buf(r, b), e, j + 1, f, with_index(idx, j, b)),
{
    reveal(prefix_round);
    let r1 = with_buf(r, b);
    let idx1 = with_index(idx, j, b);
    assert forall|t: int| 0 <= t < idx1.len() implies 0 <= #[trigger] idx1[t] < j + 1 && f(
        e[idx1[t]].0@,
        e[idx1[t]].1,
    ) == Some(buf_view(r1[t])) by {
        if t < idx.len() {
            assert(idx1[t] == idx[t]);
            assert(r1[t] == r[t]);
        }
    }
    assert forall|i: int| 0 <= i < j + 1 && (#[trigger] f(e[i].0@, e[i].1)) is Some implies exists|t: int|
        0 <= t < idx1.len() && idx1[t] == i by {
        if i < j {
            let t0 = choose|t: int| 0 <= t < idx.len() && idx[t] == i;
            assert(idx1[t0] == idx[t0]);
        } else {
            assert(idx1[idx1.len() - 1] == j);
        }
    }
}

/// After every listed entry, the datagrams are those of the round over the table.
pub proof fn lemma_prefix_round_end<S>(
    r: Seq<Buf>,
    e: Seq<(NetIP, S)>,
    m: Map<(Seq<char>, u16), S>,
    f: spec_fn((Seq<char>, u16), S) -> Option<(Seq<char>, u16, Seq<u8>)>,
    idx: Seq<int>,
)
    requires
        distinct_addrs(e),
        entries_map(e) == m,
        prefix_round(r, e, e.len() as int, f, idx),
    ensures
        round_for(r, m, f),
{
    reveal(prefix_round);
    lemma_entries_map(e);
    let ks = idx.map_values(|i: int| e[i].0@);
    assert forall|t: int| 0 <= t < ks.len() implies m.contains_key(#[trigger] ks[t]) && f(
        ks[t],
        m[ks[t]],
    ) == Some(buf_view(r[t])) by {
        assert(0 <= idx[t] < e.len());
        assert(m[e[idx[t]].0@] == e[idx[t]].1);
    }
    assert forall|t1: int, t2: int| 0 <= t1 < ks.len() && 0 <= t2 < ks.len() && t1 != t2 implies ks[t1]
        != ks[t2] by {
        assert(0 <= idx[t1] < e.len());
        assert(0 <= idx[t2] < e.len());
        if t1 < t2 {
            assert(idx[t1] < idx[t2]);
        } else {
            assert(idx[t2] < idx[t1]);
        }
    }
    assert forall|k: (Seq<char>, u16)| m.contains_key(k) && (#[trigger] f(k, m[k])) is Some implies ks.contains(
        k,
    ) by {
        let i = choose|i: int| 0 <= i < e.len() && e[i].0@ == k;
        assert(m[e[i].0@] == e[i].1);
        assert(f(e[i].0@, e[i].1) is Some);
        let t = choose|t: int| 0 <= t < idx.len() && idx[t] == i;
        assert(ks[t] == k);
    }
    assert(round_keys(r, m, f, ks));
}

/// Each datagram of a round is one that some entry of the table calls for: the entries
/// `ks`, one per datagram, in the round's order.
pub proof fn lemma_round_sources<S>(
    r: Seq<Buf>,
    m: Map<(Seq<char>, u16), S>,
    f: spec_fn((Seq<char>, u16), S) -> Option<(Seq<char>, u16, Seq<u8>)>,
) -> (ks: Seq<(Seq<char>, u16)>)
    requires
        round_for(r, m, f),
    ensures
        ks.len() == r.len(),
        ks.no_duplicates(),
        forall|i: int|
            0 <= i < r.len() ==> m.contains_key(#[trigger] ks[i]) && f(ks[i], m[ks[i]]) == Some(
                buf_view(r[i]),
            ),
        forall|k: (Seq<char>, u16)| m.contains_key(k) && (#[trigger] f(k, m[k])) is Some ==> ks.contains(k),
{
    choose|ks: Seq<(Seq<char>, u16)>| round_keys(r, m, f, ks)
}

} // verus!
