//! The concurrent hash maps, from `chashmap`, that hold what is known of each peer.
//!
//! A table is read through the map of its entries, keyed by the view of the peer's address.
//! The contracts below take two addresses as the same key exactly when their views are
//! equal, which is how `NetIP`'s `PartialEq` compares them and what its derived `Hash`
//! agrees with.
//!
//! Only a tidy table is read: one in which no bucket holds a removal marker and no key
//! fills two buckets. In `chashmap` a removal leaves a marker that only a resize clears, a
//! lookup scans the buckets once for the key or an empty bucket and panics if it finds
//! neither, and an insert may reuse a marker ahead of the key's own bucket; building a table
//! from an iterator may put one key in two buckets. `CHashMap::new` makes a tidy table, and
//! `insert` and `clone` keep it tidy: an insert finds the key's bucket or the first empty
//! one, and resizes before the live entries fill the buckets. No table here is ever shrunk
//! by `CHashMap::remove`; a peer is forgotten by building the table afresh without it
//! (`link_without`).
use vstd::prelude::*;
use chashmap::CHashMap;
use crate::net_ip::NetIP;
use crate::domain::Sign as TestSign;
use crate::p2p_ip_map::Sign as LinkSign;

verus! {

#[verifier::external_type_specification]
#[verifier::external_body]
#[verifier::reject_recursive_types(K)]
#[verifier::reject_recursive_types(V)]
pub struct ExCHashMap<K, V>(CHashMap<K, V>);

/// The entries of a table of probing signs: the value in the bucket of each peer address,
/// keyed by the address's view (on a tidy table each address fills at most one bucket).
pub uninterp spec fn link_table(m: CHashMap<NetIP, LinkSign>) -> Map<(Seq<char>, u16), LinkSign>;

/// The entries of a table of connectivity tests: the value in the bucket of each peer address,
/// keyed by the address's view (on a tidy table each address fills at most one bucket).
pub uninterp spec fn test_table(m: CHashMap<NetIP, TestSign>) -> Map<(Seq<char>, u16), TestSign>;

/// Whether a table of probing signs is tidy: no bucket holds a removal marker, and no key
/// fills two buckets.
pub uninterp spec fn link_tidy(m: CHashMap<NetIP, LinkSign>) -> bool;

/// Whether a table of connectivity tests is tidy: no bucket holds a removal marker, and no
/// key fills two buckets.
pub uninterp spec fn test_tidy(m: CHashMap<NetIP, TestSign>) -> bool;

/// The map that a list of entries describes, later entries overriding earlier ones.
pub open spec fn entries_map<V>(s: Seq<(NetIP, V)>) -> Map<(Seq<char>, u16), V>
    decreases s.len(),
{
    if s.len() == 0 {
        Map::empty()
    } else {
        entries_map(s.drop_last()).insert(s.last().0@, s.last().1)
    }
}

/// A table with no entries.
pub open spec fn no_entries<V>() -> Map<(Seq<char>, u16), V> {
    Map::empty()
}

/// No address occurs twice in a list of entries.
pub open spec fn distinct_addrs<V>(s: Seq<(NetIP, V)>) -> bool {
    forall|i: int, j: int| 0 <= i < j < s.len() ==> s[i].0@ != s[j].0@
}

/// What the entries of a table list: each entry is in the map with its value, and each key
/// of the map is listed.
pub proof fn lemma_entries_map<V>(s: Seq<(NetIP, V)>)
    requires
        distinct_addrs(s),
    ensures
        forall|i: int|
            0 <= i < s.len() ==> entries_map(s).contains_key(#[trigger] s[i].0@) && entries_map(
                s,
            )[s[i].0@] == s[i].1,
        forall|k: (Seq<char>, u16)|
            #[trigger] entries_map(s).contains_key(k) ==> exists|i: int|
                0 <= i < s.len() && s[i].0@ == k,
    decreases s.len(),
{
    if s.len() > 0 {
        let t = s.drop_last();
        assert(distinct_addrs(t));
        lemma_entries_map(t);
        assert forall|i: int| 0 <= i < s.len() implies entries_map(s).contains_key(
            #[trigger] s[i].0@,
        ) && entries_map(s)[s[i].0@] == s[i].1 by {
            if i < s.len() - 1 {
                assert(s[i] == t[i]);
                assert(s[i].0@ != s.last().0@);
            }
        }
        assert forall|k: (Seq<char>, u16)| #[trigger] entries_map(s).contains_key(k) implies exists|i: int|
            0 <= i < s.len() && s[i].0@ == k by {
            if k != s.last().0@ {
                assert(entries_map(t).contains_key(k));
                let i = choose|i: int| 0 <= i < t.len() && t[i].0@ == k;
                assert(s[i] == t[i]);
            } else {
                assert(s[s.len() - 1].0@ == k);
            }
        }
    }
}

/// Reading a table after recording a peer gives what was recorded, the other peers read as
/// before, and a peer that was forgotten reads as absent.
pub proof fn lemma_read_after_write<V>(
    m: Map<(Seq<char>, u16), V>,
    k: (Seq<char>, u16),
    v: V,
    other: (Seq<char>, u16),
)
    requires
        other != k,
    ensures
        m.insert(k, v).get(k) == Some(v),
        m.insert(k, v).get(other) == m.get(other),
        m.remove(k).get(k) is None,
        m.remove(k).get(other) == m.get(other),
{
}

/// One change to a table, as a cursor's `replace_one` and `delete_one` make it: a peer
/// recorded with a value, or forgotten.
pub enum TableOp<V> {
    Record((Seq<char>, u16), V),
    Forget((Seq<char>, u16)),
}

/// The peer that a change is about.
pub open spec fn op_key<V>(op: TableOp<V>) -> (Seq<char>, u16) {
    match op {
        TableOp::Record(k, _) => k,
        TableOp::Forget(k) => k,
    }
}

/// The table after a run of changes, in order.
pub open spec fn apply_ops<V>(m: Map<(Seq<char>, u16), V>, ops: Seq<TableOp<V>>) -> Map<
    (Seq<char>, u16),
    V,
>
    decreases ops.len(),
{
    if ops.len() == 0 {
        m
    } else {
        let before = apply_ops(m, ops.drop_last());
        match ops.last() {
            TableOp::Record(k, v) => before.insert(k, v),
            TableOp::Forget(k) => before.remove(k),
        }
    }
}

/// After a run of changes, a peer reads as its last change left it: with the value it was
/// last recorded with, or absent if it was last forgotten. Changes to other peers after
/// that do not touch it.
pub proof fn lemma_read_after_ops<V>(m: Map<(Seq<char>, u16), V>, ops: Seq<TableOp<V>>, i: int)
    requires
        0 <= i < ops.len(),
        forall|j: int| i < j < ops.len() ==> op_key(#[trigger] ops[j]) != op_key(ops[i]),
    ensures
        match ops[i] {
            TableOp::Record(k, v) => apply_ops(m, ops).get(k) == Some(v),
            TableOp::Forget(k) => apply_ops(m, ops).get(k) is None,
        },
    decreases ops.len(),
{
    if i < ops.len() - 1 {
        let t = ops.drop_last();
        assert(t[i] == ops[i]);
        assert forall|j: int| i < j < t.len() implies op_key(#[trigger] t[j]) != op_key(t[i]) by {
            assert(t[j] == ops[j]);
        }
        lemma_read_after_ops(m, t, i);
        assert(op_key(ops[ops.len() - 1]) != op_key(ops[i]));
    }
}

/// `CHashMap::new`: the table starts empty, and so tidy.
#[verifier::external_body]
pub(crate) fn link_new() -> (m: CHashMap<NetIP, LinkSign>)
    ensures
        link_table(m) == no_entries::<LinkSign>(),
        link_tidy(m),
{
    CHashMap::new()
}

/// `CHashMap::get`, the guarded value copied out: the entry of the address, if any.
///
/// The table must be tidy: on it the scan meets the key or an empty bucket.
#[verifier::external_body]
pub(crate) fn link_get(m: &CHashMap<NetIP, LinkSign>, k: &NetIP) -> (r: Option<LinkSign>)
    requires
        link_tidy(*m),
    ensures
        r == link_table(*m).get(k@),
{
    match m.get(k) {
        Some(g) => Some(*g),
        None => None,
    }
}

/// `CHashMap::contains_key`: whether the address has an entry.
///
/// The table must be tidy: on it the scan meets the key or an empty bucket.
#[verifier::external_body]
pub(crate) fn link_contains(m: &CHashMap<NetIP, LinkSign>, k: &NetIP) -> (r: bool)
    requires
        link_tidy(*m),
    ensures
        r == link_table(*m).contains_key(k@),
{
    m.contains_key(k)
}

/// `CHashMap::insert`: the entry of the address becomes `v`; the previous one is returned.
/// On a tidy table the key's bucket, or else the first empty one, is filled, so the table
/// stays tidy.
#[verifier::external_body]
pub(crate) fn link_insert(m: &mut CHashMap<NetIP, LinkSign>, k: NetIP, v: LinkSign) -> (r: Option<
    LinkSign,
>)
    requires
        link_tidy(*old(m)),
    ensures
        link_tidy(*final(m)),
        link_table(*final(m)) == link_table(*old(m)).insert(k@, v),
        r == link_table(*old(m)).get(k@),
{
    m.insert(k, v)
}

/// `CHashMap::clone`: a table with the same buckets, so the same entries, tidy if `m` is.
#[verifier::external_body]
pub(crate) fn link_clone(m: &CHashMap<NetIP, LinkSign>) -> (r: CHashMap<NetIP, LinkSign>)
    ensures
        link_table(r) == link_table(*m),
        link_tidy(*m) ==> link_tidy(r),
{
    m.clone()
}

/// `CHashMap::into_iter`, collected: the entry of each filled bucket, in the table's own
/// order; on a tidy table that is every entry once.
#[verifier::external_body]
pub(crate) fn link_entries(m: CHashMap<NetIP, LinkSign>) -> (r: Vec<(NetIP, LinkSign)>)
    requires
        link_tidy(m),
    ensures
        entries_map(r@) == link_table(m),
        distinct_addrs(r@),
{
    m.into_iter().collect()
}

/// The table `m` without the entry of `k`, built afresh from the other entries.
pub(crate) fn link_without(m: &CHashMap<NetIP, LinkSign>, k: &NetIP) -> (r: CHashMap<
    NetIP,
    LinkSign,
>)
    requires
        link_tidy(*m),
    ensures
        link_table(r) == link_table(*m).remove(k@),
        link_tidy(r),
{
    let entries = link_entries(link_clone(m));
    let ghost e = entries@;
    let mut r = link_new();
    let mut j: usize = 0;
    while j < entries.len()
        invariant
            e == entries@,
            j <= e.len(),
            entries_map(e) == link_table(*m),
            link_tidy(r),
            link_table(r) == entries_map(e.subrange(0, j as int)).remove(k@),
        decreases e.len() - j,
    {
        let ghost before = entries_map(e.subrange(0, j as int));
        proof {
            let p = e.subrange(0, j + 1);
            assert(p.drop_last() =~= e.subrange(0, j as int));
            assert(p.last() == e[j as int]);
        }
        let same = entries[j].0.ip == k.ip && entries[j].0.port == k.port;
        if !same {
            link_insert(&mut r, entries[j].0.clone(), entries[j].1);
            assert(link_table(r) =~= before.insert(e[j as int].0@, e[j as int].1).remove(k@));
        } else {
            assert(before.remove(k@) =~= before.insert(e[j as int].0@, e[j as int].1).remove(k@));
        }
        j = j + 1;
    }
    assert(e.subrange(0, e.len() as int) =~= e);
    r
}

/// `CHashMap::new`: the table starts empty, and so tidy.
#[verifier::external_body]
pub(crate) fn test_new() -> (m: CHashMap<NetIP, TestSign>)
    ensures
        test_table(m) == no_entries::<TestSign>(),
        test_tidy(m),
{
    CHashMap::new()
}

/// `CHashMap::get`, the guarded value copied out: the entry of the address, if any.
///
/// The table must be tidy: on it the scan meets the key or an empty bucket.
#[verifier::external_body]
pub(crate) fn test_get(m: &CHashMap<NetIP, TestSign>, k: &NetIP) -> (r: Option<TestSign>)
    requires
        test_tidy(*m),
    ensures
        r == test_table(*m).get(k@),
{
    match m.get(k) {
        Some(g) => Some(*g),
        None => None,
    }
}

/// `CHashMap::contains_key`: whether the address has an entry.
///
/// The table must be tidy: on it the scan meets the key or an empty bucket.
#[verifier::external_body]
pub(crate) fn test_contains(m: &CHashMap<NetIP, TestSign>, k: &NetIP) -> (r: bool)
    requires
        test_tidy(*m),
    ensures
        r == test_table(*m).contains_key(k@),
{
    m.contains_key(k)
}

/// `CHashMap::insert`: the entry of the address becomes `v`; the previous one is returned.
/// On a tidy table the key's bucket, or else the first empty one, is filled, so the table
/// stays tidy.
#[verifier::external_body]
pub(crate) fn test_insert(m: &mut CHashMap<NetIP, TestSign>, k: NetIP, v: TestSign) -> (r: Option<
    TestSign,
>)
    requires
        test_tidy(*old(m)),
    ensures
        test_tidy(*final(m)),
        test_table(*final(m)) == test_table(*old(m)).insert(k@, v),
        r == test_table(*old(m)).get(k@),
{
    m.insert(k, v)
}

/// `CHashMap::clone`: a table with the same buckets, so the same entries, tidy if `m` is.
#[verifier::external_body]
pub(crate) fn test_clone(m: &CHashMap<NetIP, TestSign>) -> (r: CHashMap<NetIP, TestSign>)
    ensures
        test_table(r) == test_table(*m),
        test_tidy(*m) ==> test_tidy(r),
{
    m.clone()
}

/// `CHashMap::into_iter`, collected: the entry of each filled bucket, in the table's own
/// order; on a tidy table that is every entry once.
#[verifier::external_body]
pub(crate) fn test_entries(m: CHashMap<NetIP, TestSign>) -> (r: Vec<(NetIP, TestSign)>)
    requires
        test_tidy(m),
    ensures
        entries_map(r@) == test_table(m),
        distinct_addrs(r@),
{
    m.into_iter().collect()
}

} // verus!
