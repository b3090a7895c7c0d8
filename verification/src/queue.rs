//! Messages and the datagrams that carry them.
//!
//! A message is addressed to a peer and holds string fields, among them `type`, which names
//! what the message is for, and often `object`, the JSON text of what it carries. On the wire
//! the fields form one JSON object.
use vstd::prelude::*;
use vstd::slice::slice_to_vec;
use vstd::utf8::encode_utf8;
use crate::digest::md5_hex;
use crate::json::{
    decode_object, distinct_keys, encode_object, json_object_members, json_object_text,
    members_map, pairs_view,
};
use crate::text::{addr_string, addr_text, hex_lower};

verus! {

/// The field that names the kind of a message.
pub open spec fn type_key() -> Seq<char> {
    seq!['t', 'y', 'p', 'e']
}

/// The field that holds the JSON text of what a message carries.
pub open spec fn object_key() -> Seq<char> {
    seq!['o', 'b', 'j', 'e', 'c', 't']
}

/// The index of the last field named `k`, or -1.
pub open spec fn key_index(f: Seq<(Seq<char>, Seq<char>)>, k: Seq<char>) -> int
    decreases f.len(),
{
    if f.len() == 0 {
        -1
    } else if f.last().0 == k {
        f.len() - 1
    } else {
        key_index(f.drop_last(), k)
    }
}

/// The value of the field named `k`, if there is one.
pub open spec fn field_value(f: Seq<(Seq<char>, Seq<char>)>, k: Seq<char>) -> Option<Seq<char>> {
    let i = key_index(f, k);
    if i >= 0 {
        Some(f[i].1)
    } else {
        None
    }
}

/// The fields after setting `k` to `v`: its value replaced where it is present, else appended.
pub open spec fn with_field(f: Seq<(Seq<char>, Seq<char>)>, k: Seq<char>, v: Seq<char>) -> Seq<
    (Seq<char>, Seq<char>),
> {
    let i = key_index(f, k);
    if i >= 0 {
        f.update(i, (k, v))
    } else {
        f.push((k, v))
    }
}

/// The text of an optional string.
pub open spec fn opt_text(o: Option<String>) -> Option<Seq<char>> {
    match o {
        Some(s) => Some(s@),
        None => None,
    }
}

/// What `key_index` finds: a field named `k` with none after it, or no such field at all.
pub proof fn lemma_key_index(f: Seq<(Seq<char>, Seq<char>)>, k: Seq<char>)
    ensures
        -1 <= key_index(f, k) < f.len(),
        key_index(f, k) >= 0 ==> f[key_index(f, k)].0 == k,
        forall|j: int| key_index(f, k) < j < f.len() ==> f[j].0 != k,
    decreases f.len(),
{
    if f.len() > 0 && f.last().0 != k {
        let g = f.drop_last();
        lemma_key_index(g, k);
        assert forall|j: int| key_index(f, k) < j < f.len() implies f[j].0 != k by {
            if j < f.len() - 1 {
                assert(f[j] == g[j]);
            }
        }
    }
}

/// Setting a field and reading it back gives the value set; other fields read as before.
pub proof fn lemma_field_after_set(
    f: Seq<(Seq<char>, Seq<char>)>,
    k: Seq<char>,
    v: Seq<char>,
    other: Seq<char>,
)
    requires
        distinct_keys(f),
        other != k,
    ensures
        field_value(with_field(f, k, v), k) == Some(v),
        field_value(with_field(f, k, v), other) == field_value(f, other),
        distinct_keys(with_field(f, k, v)),
{
    let g = with_field(f, k, v);
    lemma_key_index(f, k);
    lemma_key_index(f, other);
    lemma_key_index(g, k);
    lemma_key_index(g, other);
    let i = key_index(f, k);
    if i >= 0 {
        assert(g[i].0 == k);
        assert(key_index(g, k) == i) by {
            if key_index(g, k) != i {
                assert(g[key_index(g, k)].0 == k);
            }
        }
    } else {
        assert(g.last().0 == k);
        assert forall|j: int| 0 <= j < f.len() implies f[j].0 != k by {
            if f[j].0 == k {
                assert(j > key_index(f, k));
            }
        }
    }
    let io = key_index(f, other);
    let jo = key_index(g, other);
    assert(io == jo) by {
        if io >= 0 {
            assert(g[io].0 == other);
            if jo != io {
                assert(g[jo].0 == other);
                assert(f[jo].0 == other);
            }
        } else {
            if jo >= 0 {
                assert(g[jo].0 == other);
                assert(f[jo].0 == other);
            }
        }
    }
}

/// A message addressed to a peer.
#[derive(Debug)]
pub struct Msg {
    pub ip: String,
    pub port: u16,
    pub data: Vec<(String, String)>,
}

/// A datagram: the bytes of a message and the peer it goes to or came from.
#[derive(Debug)]
pub struct Buf {
    pub ip: String,
    pub port: u16,
    pub bytes: Vec<u8>,
}

/// Why a datagram could not be read as a message.
#[derive(Debug, Clone, Copy, PartialEq, Eq)]
pub enum MsgError {
    /// The bytes are not a JSON object whose values are all strings.
    NotAnObject,
}

/// The index of the last pair whose key is `key`.
fn find_key(data: &Vec<(String, String)>, key: &String) -> (r: Option<usize>)
    ensures
        match r {
            Some(i) => i == key_index(pairs_view(data@), key@),
            None => key_index(pairs_view(data@), key@) == -1,
        },
{
    let ghost f = pairs_view(data@);
    let mut found: Option<usize> = None;
    let mut j: usize = 0;
    while j < data.len()
        invariant
            j <= data@.len(),
            f == pairs_view(data@),
            match found {
                Some(i) => i == key_index(f.subrange(0, j as int), key@),
                None => key_index(f.subrange(0, j as int), key@) == -1,
            },
        decreases data@.len() - j,
    {
        proof {
            let p = f.subrange(0, j + 1);
            assert(p.drop_last() =~= f.subrange(0, j as int));
            assert(p.last() == f[j as int]);
        }
        if data[j].0 == *key {
            found = Some(j);
        }
        j = j + 1;
    }
    proof {
        assert(f.subrange(0, data@.len() as int) =~= f);
    }
    found
}

/// A copy of a list of string pairs.
fn copy_pairs(data: &Vec<(String, String)>) -> (r: Vec<(String, String)>)
    ensures
        pairs_view(r@) == pairs_view(data@),
{
    let mut r: Vec<(String, String)> = Vec::new();
    let mut j: usize = 0;
    while j < data.len()
        invariant
            j <= data@.len(),
            r@.len() == j,
            forall|i: int| 0 <= i < j ==> r@[i].0@ == data@[i].0@ && r@[i].1@ == data@[i].1@,
        decreases data@.len() - j,
    {
        r.push((data[j].0.clone(), data[j].1.clone()));
        j = j + 1;
    }
    assert(pairs_view(r@) =~= pairs_view(data@));
    r
}

impl Msg {
    /// The fields of the message, in the order they were first set.
    pub open spec fn fields(&self) -> Seq<(Seq<char>, Seq<char>)> {
        pairs_view(self.data@)
    }

    /// A message to `ip:port` whose only field is `type`.
    pub fn new(ip: String, port: u16, type1: String) -> (r: Self)
        ensures
            r.ip == ip,
            r.port == port,
            r.fields() == seq![(type_key(), type1@)],
    {
        proof {
            reveal_strlit("type");
            assert("type"@ =~= type_key());
        }
        let mut data: Vec<(String, String)> = Vec::new();
        data.push((String::from_str("type"), type1));
        let r = Self { ip, port, data };
        assert(r.fields() =~= seq![(type_key(), r.data@[0].1@)]);
        r
    }

    /// Sets the field `key` to `value`.
    pub fn insert(&mut self, key: String, value: String)
        ensures
            final(self).ip == old(self).ip,
            final(self).port == old(self).port,
            final(self).fields() == with_field(old(self).fields(), key@, value@),
    {
        let ghost f = pairs_view(self.data@);
        let found = find_key(&self.data, &key);
        match found {
            Some(i) => {
                proof {
                    lemma_key_index(f, key@);
                }
                self.data.set(i, (key, value));
                assert(pairs_view(self.data@) =~= f.update(i as int, (key@, value@)));
            },
            None => {
                self.data.push((key, value));
                assert(pairs_view(self.data@) =~= f.push((key@, value@)));
            },
        }
    }

    /// Sets the field `object` to the JSON text of what the message carries.
    pub fn set_object(&mut self, object: String)
        ensures
            final(self).ip == old(self).ip,
            final(self).port == old(self).port,
            final(self).fields() == with_field(old(self).fields(), object_key(), object@),
    {
        proof {
            reveal_strlit("object");
            assert("object"@ =~= object_key());
        }
        self.insert(String::from_str("object"), object);
    }

    /// The value of the field `key`.
    pub fn get(&self, key: &String) -> (r: Option<String>)
        ensures
            opt_text(r) == field_value(self.fields(), key@),
    {
        match find_key(&self.data, key) {
            Some(i) => {
                proof {
                    lemma_key_index(self.fields(), key@);
                }
                Some(self.data[i].1.clone())
            },
            None => None,
        }
    }

    /// The kind of the message: its `type` field.
    pub fn get_type(&self) -> (r: Option<String>)
        ensures
            opt_text(r) == field_value(self.fields(), type_key()),
    {
        proof {
            reveal_strlit("type");
            assert("type"@ =~= type_key());
        }
        self.get(&String::from_str("type"))
    }

    /// The JSON text of what the message carries: its `object` field, which it must have.
    pub fn get_object(&self) -> (r: String)
        requires
            field_value(self.fields(), object_key()) is Some,
        ensures
            Some(r@) == field_value(self.fields(), object_key()),
    {
        proof {
            reveal_strlit("object");
            assert("object"@ =~= object_key());
        }
        match self.get(&String::from_str("object")) {
            Some(t) => t,
            None => {
                proof {
                    assert(false);
                }
                String::new()
            },
        }
    }

    /// The datagram of the message: its fields as one JSON object, in UTF-8.
    pub fn to_buf(&self) -> (r: Buf)
        ensures
            r.ip == self.ip,
            r.port == self.port,
            r.bytes@ == encode_utf8(json_object_text(self.fields())),
    {
        let text = encode_object(&self.data);
        let bytes = slice_to_vec(text.as_str().as_bytes());
        Buf { ip: self.ip.clone(), port: self.port, bytes }
    }
}

impl Clone for Msg {
    fn clone(&self) -> (r: Self)
        ensures
            r.ip == self.ip,
            r.port == self.port,
            r.fields() == self.fields(),
    {
        Msg { ip: self.ip.clone(), port: self.port, data: copy_pairs(&self.data) }
    }
}

impl Buf {
    /// A datagram of `bytes` for the peer `ip:port`.
    pub fn new(ip: String, port: u16, bytes: Vec<u8>) -> (r: Self)
        ensures
            r.ip == ip,
            r.port == port,
            r.bytes == bytes,
    {
        Self { ip, port, bytes }
    }

    /// Reads the datagram as a message from its peer.
    pub fn to_msg(&self) -> (r: Result<Msg, MsgError>)
        ensures
            match r {
                Ok(m) => m.ip == self.ip && m.port == self.port
                    && json_object_members(self.bytes@) == Some(m.fields())
                    && distinct_keys(m.fields()),
                Err(e) => e == MsgError::NotAnObject && json_object_members(self.bytes@) is None,
            },
            forall|f: Seq<(Seq<char>, Seq<char>)>|
                self.bytes@ == encode_utf8(#[trigger] json_object_text(f)) ==> (r matches Ok(m)
                    && members_map(m.fields()) == members_map(f)),
    {
        match decode_object(self.bytes.as_slice()) {
            Some(data) => Ok(Msg { ip: self.ip.clone(), port: self.port, data }),
            None => Err(MsgError::NotAnObject),
        }
    }

    /// The peer as the text `ip:port`.
    pub fn get_target(&self) -> (s: String)
        ensures
            s@ == addr_text(self.ip@, self.port),
    {
        addr_string(self.ip.as_str(), self.port)
    }

    /// The MD5 digest of the bytes, in lower-case hex.
    pub fn get_md5(&self) -> (s: String)
        ensures
            s@ == hex_lower(crate::digest::md5_digest(self.bytes@)),
            s@.len() == 32,
    {
        md5_hex(self.bytes.as_slice())
    }
}

impl Clone for Buf {
    fn clone(&self) -> (r: Self)
        ensures
            r.ip == self.ip,
            r.port == self.port,
            r.bytes@ == self.bytes@,
    {
        Buf { ip: self.ip.clone(), port: self.port, bytes: slice_to_vec(self.bytes.as_slice()) }
    }
}

/// A message read back from its own datagram is addressed to the same peer and has the same
/// fields, each with its value.
pub proof fn lemma_datagram_round_trip(m: Msg, b: Buf, back: Result<Msg, MsgError>)
    requires
        call_ensures(Msg::to_buf, (&m,), b),
        call_ensures(Buf::to_msg, (&b,), back),
    ensures
        back matches Ok(m2) && m2.ip == m.ip && m2.port == m.port && members_map(m2.fields())
            == members_map(m.fields()),
{
}

/// What a datagram is: its peer and its bytes.
pub open spec fn buf_view(b: Buf) -> (Seq<char>, u16, Seq<u8>) {
    (b.ip@, b.port, b.bytes@)
}

/// The fields of a message of kind `t` that carries the object `obj`.
pub open spec fn typed_object_fields(t: Seq<char>, obj: Seq<char>) -> Seq<(Seq<char>, Seq<char>)> {
    seq![(type_key(), t), (object_key(), obj)]
}

/// The bytes of a message of kind `t` that carries the object `obj`.
pub open spec fn typed_object_bytes(t: Seq<char>, obj: Seq<char>) -> Seq<u8> {
    encode_utf8(json_object_text(typed_object_fields(t, obj)))
}

/// Setting the object of a new message appends it after the kind.
pub proof fn lemma_typed_object_fields(t: Seq<char>, obj: Seq<char>)
    ensures
        with_field(seq![(type_key(), t)], object_key(), obj) == typed_object_fields(t, obj),
{
    assert(type_key() != object_key()) by {
        assert(type_key()[0] != object_key()[0]);
    }
    let f = seq![(type_key(), t)];
    assert(f.drop_last() =~= Seq::<(Seq<char>, Seq<char>)>::empty());
    assert(key_index(f.drop_last(), object_key()) == -1);
    assert(f.last() == (type_key(), t));
    assert(key_index(f, object_key()) == -1);
    assert(f.push((object_key(), obj)) =~= typed_object_fields(t, obj));
}

/// Setting a second field on a new message appends it after the kind.
pub proof fn lemma_second_field(t: Seq<char>, k: Seq<char>, v: Seq<char>)
    requires
        k != type_key(),
    ensures
        with_field(seq![(type_key(), t)], k, v) == seq![(type_key(), t), (k, v)],
{
    let f = seq![(type_key(), t)];
    assert(f.drop_last() =~= Seq::<(Seq<char>, Seq<char>)>::empty());
    assert(key_index(f.drop_last(), k) == -1);
    assert(f.last() == (type_key(), t));
    assert(key_index(f, k) == -1);
    assert(f.push((k, v)) =~= seq![(type_key(), t), (k, v)]);
}

/// A message of kind `type1` to `ip:port` with one more field, `key` set to `value`.
pub fn keyed_msg(ip: String, port: u16, type1: String, key: String, value: String) -> (r: Msg)
    requires
        key@ != type_key(),
    ensures
        r.ip == ip,
        r.port == port,
        r.fields() == seq![(type_key(), type1@), (key@, value@)],
{
    let mut m = Msg::new(ip, port, type1);
    let ghost k = key@;
    let ghost v = value@;
    m.insert(key, value);
    proof {
        lemma_second_field(type1@, k, v);
    }
    m
}

/// A message of kind `type1` to `ip:port` carrying `object`.
pub fn object_msg(ip: String, port: u16, type1: String, object: String) -> (r: Msg)
    ensures
        r.ip == ip,
        r.port == port,
        r.fields() == typed_object_fields(type1@, object@),
{
    let mut m = Msg::new(ip, port, type1);
    m.set_object(object);
    proof {
        lemma_typed_object_fields(type1@, object@);
    }
    m
}

/// A new message carries no field twice, and setting a field keeps it so.
pub proof fn lemma_msg_fields_distinct(f: Seq<(Seq<char>, Seq<char>)>, k: Seq<char>, v: Seq<char>)
    requires
        distinct_keys(f),
    ensures
        distinct_keys(with_field(f, k, v)),
        distinct_keys(seq![(type_key(), v)]),
{
    lemma_field_after_set(f, k, v, if k == type_key() { object_key() } else { type_key() });
}

/// The kind given to a new message is what `get_type` reads back, and setting the object
/// keeps the kind and is what `get_object` reads back.
pub proof fn lemma_new_then_read(type1: Seq<char>, object: Seq<char>)
    ensures
        field_value(seq![(type_key(), type1)], type_key()) == Some(type1),
        field_value(with_field(seq![(type_key(), type1)], object_key(), object), object_key())
            == Some(object),
        field_value(with_field(seq![(type_key(), type1)], object_key(), object), type_key())
            == Some(type1),
{
    let f = seq![(type_key(), type1)];
    assert(f.last().0 == type_key());
    assert(type_key() != object_key()) by {
        assert(type_key()[0] != object_key()[0]);
    }
    lemma_field_after_set(f, object_key(), object, type_key());
}

} // verus!
