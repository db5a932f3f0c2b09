//! Fields of MessagePack maps, found by key and by the kind of their value.

use vstd::prelude::*;

use crate::msgpack;
use crate::msgpack::{Msg, MsgValue};

verus! {

/// What a value is wanted for.
#[derive(Clone, Copy, PartialEq, Eq, Structural, Debug)]
pub enum Shape {
    Bytes,
    Unsigned,
    Truth,
    Number,
    Text,
}

/// A value is of use as it is wanted.
pub open spec fn fits(m: Msg, shape: Shape) -> bool {
    match shape {
        Shape::Bytes => msgpack::bytes_of(m) is Some,
        Shape::Unsigned => msgpack::u64_of(m) is Some,
        Shape::Truth => msgpack::bool_of(m) is Some,
        Shape::Number => msgpack::is_number(m),
        Shape::Text => msgpack::text_of(m) is Some,
    }
}

/// The value of the first entry with a key whose value is of use.
pub open spec fn sought(p: Seq<(Msg, Msg)>, key: Seq<char>, shape: Shape) -> Option<Msg>
    decreases p.len(),
{
    if p.len() == 0 {
        None
    } else if p[0].0 == Msg::Text(key) && fits(p[0].1, shape) {
        Some(p[0].1)
    } else {
        sought(p.skip(1), key, shape)
    }
}

/// The bytes of a field.
pub open spec fn bytes_field(p: Seq<(Msg, Msg)>, key: Seq<char>) -> Option<Seq<u8>> {
    match sought(p, key, Shape::Bytes) {
        Some(m) => msgpack::bytes_of(m),
        None => None,
    }
}

/// The number of a field that is not negative.
pub open spec fn u64_field(p: Seq<(Msg, Msg)>, key: Seq<char>) -> Option<u64> {
    match sought(p, key, Shape::Unsigned) {
        Some(m) => msgpack::u64_of(m),
        None => None,
    }
}

/// The number of a field, or a default.
pub open spec fn u64_field_or(p: Seq<(Msg, Msg)>, key: Seq<char>, default: u64) -> u64 {
    match u64_field(p, key) {
        Some(n) => n,
        None => default,
    }
}

/// The truth value of a field.
pub open spec fn bool_field(p: Seq<(Msg, Msg)>, key: Seq<char>) -> Option<bool> {
    match sought(p, key, Shape::Truth) {
        Some(m) => msgpack::bool_of(m),
        None => None,
    }
}

/// The text of a field.
pub open spec fn text_field(p: Seq<(Msg, Msg)>, key: Seq<char>) -> Option<Seq<char>> {
    match sought(p, key, Shape::Text) {
        Some(m) => msgpack::text_of(m),
        None => None,
    }
}

/// The number of a field, of any kind.
pub open spec fn number_field(p: Seq<(Msg, Msg)>, key: Seq<char>) -> Option<Msg> {
    sought(p, key, Shape::Number)
}

/// A value inside an option.
pub open spec fn value_view(o: Option<MsgValue>) -> Option<Msg> {
    match o {
        Some(v) => Some(v@),
        None => None,
    }
}

fn is_of_use(v: &MsgValue, shape: Shape) -> (r: bool)
    ensures
        r == fits(v@, shape),
{
    match shape {
        Shape::Bytes => v.as_slice().is_some(),
        Shape::Unsigned => v.as_u64().is_some(),
        Shape::Truth => v.as_bool().is_some(),
        Shape::Number => v.is_number(),
        Shape::Text => v.as_str().is_some(),
    }
}

/// The value of the first entry with a key whose value is of use.
pub fn seek<'a>(m: &'a Vec<(MsgValue, MsgValue)>, key: &str, shape: Shape) -> (r: Option<
    &'a MsgValue,
>)
    ensures
        match r {
            Some(v) => sought(msgpack::pair_models(m@), key@, shape) == Some(v@),
            None => sought(msgpack::pair_models(m@), key@, shape) is None,
        },
        r matches Some(v) ==> fits(v@, shape),
{
    let ghost all = msgpack::pair_models(m@);
    let mut i: usize = 0;
    assert(all.skip(0) =~= all);
    while i < m.len()
        invariant
            i <= m@.len(),
            all == msgpack::pair_models(m@),
            sought(all.skip(i as int), key@, shape) == sought(all, key@, shape),
        decreases m@.len() - i,
    {
        assert(all.skip(i as int)[0] == (m@[i as int].0@, m@[i as int].1@));
        if m[i].0.is_text(key) && is_of_use(&m[i].1, shape) {
            return Some(&m[i].1);
        }
        assert(all.skip(i as int).skip(1) =~= all.skip(i + 1));
        i = i + 1;
    }
    None
}

/// The bytes of a field.
pub fn map_get_bytes(m: &Vec<(MsgValue, MsgValue)>, key: &str) -> (r: Option<Vec<u8>>)
    ensures
        crate::gitutil::bytes_view(r) == bytes_field(msgpack::pair_models(m@), key@),
{
    match seek(m, key, Shape::Bytes) {
        Some(v) => v.as_slice(),
        None => None,
    }
}

/// The number of a field that is not negative.
pub fn map_get_u64(m: &Vec<(MsgValue, MsgValue)>, key: &str) -> (r: Option<u64>)
    ensures
        r == u64_field(msgpack::pair_models(m@), key@),
{
    match seek(m, key, Shape::Unsigned) {
        Some(v) => v.as_u64(),
        None => None,
    }
}

/// The number of a field, or a default.
pub fn get_u64_or(m: &Vec<(MsgValue, MsgValue)>, key: &str, default: u64) -> (r: u64)
    ensures
        r == u64_field_or(msgpack::pair_models(m@), key@, default),
{
    match map_get_u64(m, key) {
        Some(n) => n,
        None => default,
    }
}

/// The truth value of a field.
pub fn map_get_bool(m: &Vec<(MsgValue, MsgValue)>, key: &str) -> (r: Option<bool>)
    ensures
        r == bool_field(msgpack::pair_models(m@), key@),
{
    match seek(m, key, Shape::Truth) {
        Some(v) => v.as_bool(),
        None => None,
    }
}

/// The text of a field.
pub fn map_get_str(m: &Vec<(MsgValue, MsgValue)>, key: &str) -> (r: Option<String>)
    ensures
        crate::args::opt_text(r) == text_field(msgpack::pair_models(m@), key@),
{
    match seek(m, key, Shape::Text) {
        Some(v) => match v.as_str() {
            Some(s) => Some(s.to_owned()),
            None => None,
        },
        None => None,
    }
}

/// The number of a field, of any kind.
pub fn map_get_number(m: &Vec<(MsgValue, MsgValue)>, key: &str) -> (r: Option<MsgValue>)
    ensures
        value_view(r) == number_field(msgpack::pair_models(m@), key@),
{
    match seek(m, key, Shape::Number) {
        Some(v) => Some(v.copy()),
        None => None,
    }
}

} // verus!
