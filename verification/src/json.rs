//! JSON text of flat string-to-string objects, the wire format of every message.
//!
//! Quoting a string as a JSON literal, and reading a byte string back into its
//! members, are done by `serde_json`; the object around the members is framed here.
use vstd::prelude::*;
use vstd::utf8::encode_utf8;
use std::collections::BTreeMap;
use crate::text::nibble_char;

verus! {

#[verifier::external_type_specification]
#[verifier::external_body]
pub struct ExJsonError(serde_json::Error);

/// How `serde_json` writes one character inside a string literal: the quote, the backslash
/// and the control characters escaped (those without a short escape as `\u00` and two
/// lower-case hex digits), every other character as it is.
pub open spec fn json_escape(c: char) -> Seq<char> {
    if c == '"' {
        seq!['\\', '"']
    } else if c == '\\' {
        seq!['\\', '\\']
    } else if c == '\u{8}' {
        seq!['\\', 'b']
    } else if c == '\t' {
        seq!['\\', 't']
    } else if c == '\n' {
        seq!['\\', 'n']
    } else if c == '\u{c}' {
        seq!['\\', 'f']
    } else if c == '\r' {
        seq!['\\', 'r']
    } else if (c as u32) < 0x20 {
        seq!['\\', 'u', '0', '0', nibble_char((c as u32 / 16) as nat), nibble_char((c as u32 % 16) as nat)]
    } else {
        seq![c]
    }
}

/// The characters of a text, each escaped as in a JSON string literal.
pub open spec fn json_escaped(s: Seq<char>) -> Seq<char>
    decreases s.len(),
{
    if s.len() == 0 {
        seq![]
    } else {
        json_escaped(s.drop_last()) + json_escape(s.last())
    }
}

/// The JSON string literal that `serde_json` writes for a text: the escaped text in quotes.
pub open spec fn json_string_literal(s: Seq<char>) -> Seq<char> {
    seq!['"'] + json_escaped(s) + seq!['"']
}

/// The members that `serde_json` reads from the bytes of a JSON object whose values are all
/// strings, one per key (the last value where a key repeats), in the order of the keys as a
/// `BTreeMap` keeps them; `None` where the bytes are not such an object.
pub uninterp spec fn json_object_members(bytes: Seq<u8>) -> Option<Seq<(Seq<char>, Seq<char>)>>;

/// `serde_json::to_string` on a `str`.
///
/// The contract claims that the call succeeds and returns `json_string_literal` of the
/// argument: serializing a `str` writes the quote, each character escaped by the table of
/// `serde_json`'s serializer, and the closing quote, into a `Vec<u8>`, whose writes cannot
/// fail.
#[verifier::external_body]
fn serde_quote(s: &str) -> (r: Result<String, serde_json::Error>)
    ensures
        r is Ok,
        r matches Ok(t) ==> t@ == json_string_literal(s@),
{
    serde_json::to_string(s)
}

/// `serde_json::from_slice` into a `BTreeMap<String, String>`, its entries then listed in
/// the map's order.
///
/// The contract claims that the call fails exactly when the name `json_object_members` is
/// `None` on the bytes, that otherwise the entries are those members, and that no key is
/// listed twice, as the keys of a `BTreeMap` are distinct. It also claims that the UTF-8
/// bytes of an object text framed as `json_object_text` frames it, with its keys and values
/// quoted by `json_string_literal`, are read without error, and give back each key with its
/// value (the last one, where a key repeats, as a `BTreeMap` keeps the last value inserted):
/// the parser undoes each escape that the serializer writes.
#[verifier::external_body]
fn serde_members(bytes: &[u8]) -> (r: Result<Vec<(String, String)>, serde_json::Error>)
    ensures
        match r {
            Ok(v) => json_object_members(bytes@) == Some(pairs_view(v@))
                && distinct_keys(pairs_view(v@)),
            Err(_) => json_object_members(bytes@) is None,
        },
        forall|f: Seq<(Seq<char>, Seq<char>)>|
            bytes@ == encode_utf8(#[trigger] json_object_text(f)) ==> r is Ok && members_map(
                pairs_view(r->Ok_0@),
            ) == members_map(f),
{
    match serde_json::from_slice::<BTreeMap<String, String>>(bytes) {
        Ok(m) => Ok(m.into_iter().collect()),
        Err(e) => Err(e),
    }
}

/// The texts of a list of string pairs.
pub open spec fn pairs_view(v: Seq<(String, String)>) -> Seq<(Seq<char>, Seq<char>)> {
    v.map_values(|p: (String, String)| (p.0@, p.1@))
}

/// The members as a map from key to value, a later value of a key replacing an earlier one.
pub open spec fn members_map(f: Seq<(Seq<char>, Seq<char>)>) -> Map<Seq<char>, Seq<char>>
    decreases f.len(),
{
    if f.len() == 0 {
        Map::empty()
    } else {
        members_map(f.drop_last()).insert(f.last().0, f.last().1)
    }
}

/// No key occurs twice in a list of members.
pub open spec fn distinct_keys(f: Seq<(Seq<char>, Seq<char>)>) -> bool {
    forall|i: int, j: int| 0 <= i < j < f.len() ==> f[i].0 != f[j].0
}

/// One member `"key":"value"`.
pub open spec fn json_member(m: (Seq<char>, Seq<char>)) -> Seq<char> {
    json_string_literal(m.0) + seq![':'] + json_string_literal(m.1)
}

/// The members joined by commas.
pub open spec fn json_members(f: Seq<(Seq<char>, Seq<char>)>) -> Seq<char>
    decreases f.len(),
{
    if f.len() == 0 {
        seq![]
    } else if f.len() == 1 {
        json_member(f[0])
    } else {
        json_members(f.drop_last()) + seq![','] + json_member(f.last())
    }
}

/// The JSON object text of a list of string members, in their order.
pub open spec fn json_object_text(f: Seq<(Seq<char>, Seq<char>)>) -> Seq<char> {
    seq!['{'] + json_members(f) + seq!['}']
}

/// Quotes a text as a JSON string literal.
pub fn quote(s: &str) -> (r: String)
    ensures
        r@ == json_string_literal(s@),
{
    match serde_quote(s) {
        Ok(t) => t,
        Err(_) => {
            proof {
                assert(false);
            }
            String::new()
        },
    }
}

/// The JSON object text of string members, in their order.
pub fn encode_object(fields: &Vec<(String, String)>) -> (r: String)
    ensures
        r@ == json_object_text(pairs_view(fields@)),
{
    proof {
        reveal_strlit("{");
        reveal_strlit("}");
        reveal_strlit(",");
        reveal_strlit(":");
    }
    let ghost f = pairs_view(fields@);
    let mut s = String::from_str("{");
    let mut i: usize = 0;
    while i < fields.len()
        invariant
            i <= fields@.len(),
            f == pairs_view(fields@),
            s@ == seq!['{'] + json_members(f.subrange(0, i as int)),
        decreases fields@.len() - i,
    {
        let ghost s0 = s@;
        proof {
            reveal_strlit(",");
            reveal_strlit(":");
        }
        if i > 0 {
            s.append(",");
        }
        let k = quote(fields[i].0.as_str());
        let v = quote(fields[i].1.as_str());
        s.append(k.as_str());
        s.append(":");
        s.append(v.as_str());
        proof {
            let p = f.subrange(0, i + 1);
            assert(p.drop_last() =~= f.subrange(0, i as int));
            assert(p.last() == f[i as int]);
            assert(f[i as int] == (fields@[i as int].0@, fields@[i as int].1@));
            let m = json_member(f[i as int]);
            if i == 0 {
                assert(p.len() == 1);
                assert(json_members(f.subrange(0, 0)) =~= seq![]);
                assert(s@ =~= seq!['{'] + m);
            } else {
                assert(s@ =~= s0 + seq![','] + m);
                assert(s@ =~= seq!['{'] + (json_members(f.subrange(0, i as int)) + seq![','] + m));
            }
        }
        i = i + 1;
    }
    s.append("}");
    proof {
        reveal_strlit("}");
        assert(f.subrange(0, fields@.len() as int) =~= f);
    }
    s
}

/// Reads the members of a JSON object whose values are all strings.
pub fn decode_object(bytes: &[u8]) -> (r: Option<Vec<(String, String)>>)
    ensures
        match r {
            Some(v) => json_object_members(bytes@) == Some(pairs_view(v@))
                && distinct_keys(pairs_view(v@)),
            None => json_object_members(bytes@) is None,
        },
        forall|f: Seq<(Seq<char>, Seq<char>)>|
            bytes@ == encode_utf8(#[trigger] json_object_text(f)) ==> (r matches Some(v)
                && members_map(pairs_view(v@)) == members_map(f)),
{
    match serde_members(bytes) {
        Ok(v) => Some(v),
        Err(_) => None,
    }
}

} // verus!
