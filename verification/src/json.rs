//! JSON values.

use vstd::prelude::*;

use crate::msgpack;
use crate::msgpack::{Msg, MsgValue};
use crate::text;
use serde_json::Value;

verus! {

/// A JSON value. The entries of an object have keys that differ.
#[derive(Debug)]
pub enum Json {
    Null,
    Truth(bool),
    UInt(u64),
    NegInt(i64),
    /// A number of floating point: the given number, as such.
    Float(MsgValue),
    Text(String),
    List(Vec<Json>),
    Object(Vec<(String, Json)>),
}

/// A JSON value over sequences.
pub enum JsonModel {
    Null,
    Truth(bool),
    UInt(u64),
    NegInt(i64),
    Float(Msg),
    Text(Seq<char>),
    List(Seq<JsonModel>),
    Object(Seq<(Seq<char>, JsonModel)>),
}

impl Json {
    /// The value over sequences.
    pub open spec fn model(self) -> JsonModel
        decreases self,
    {
        match self {
            Json::Null => JsonModel::Null,
            Json::Truth(b) => JsonModel::Truth(b),
            Json::UInt(n) => JsonModel::UInt(n),
            Json::NegInt(n) => JsonModel::NegInt(n),
            Json::Float(m) => JsonModel::Float(m@),
            Json::Text(s) => JsonModel::Text(s@),
            Json::List(a) => JsonModel::List(
                Seq::new(
                    a@.len(),
                    |i: int|
                        if 0 <= i < a@.len() {
                            a@[i].model()
                        } else {
                            JsonModel::Null
                        },
                ),
            ),
            Json::Object(a) => JsonModel::Object(
                Seq::new(
                    a@.len(),
                    |i: int|
                        if 0 <= i < a@.len() {
                            (a@[i].0@, a@[i].1.model())
                        } else {
                            (Seq::empty(), JsonModel::Null)
                        },
                ),
            ),
        }
    }
}

impl View for Json {
    type V = JsonModel;

    open spec fn view(&self) -> JsonModel {
        self.model()
    }
}

/// The models of values.
pub open spec fn list_models(v: Seq<Json>) -> Seq<JsonModel> {
    Seq::new(v.len(), |i: int| v[i]@)
}

/// The models of entries.
pub open spec fn entry_models(v: Seq<(String, Json)>) -> Seq<(Seq<char>, JsonModel)> {
    Seq::new(v.len(), |i: int| (v[i].0@, v[i].1@))
}

/// A text.
pub fn string(s: &str) -> (r: Json)
    ensures
        r@ == JsonModel::Text(s@),
{
    Json::Text(s.to_owned())
}

/// A list.
pub fn list(v: Vec<Json>) -> (r: Json)
    ensures
        r@ == JsonModel::List(list_models(v@)),
{
    let r = Json::List(v);
    assert(r@->List_0 =~= list_models(v@));
    r
}

/// An object.
pub fn object(v: Vec<(String, Json)>) -> (r: Json)
    ensures
        r@ == JsonModel::Object(entry_models(v@)),
{
    let r = Json::Object(v);
    assert(r@->Object_0 =~= entry_models(v@));
    r
}

/// Adds an entry.
pub fn put(v: &mut Vec<(String, Json)>, key: &str, value: Json)
    ensures
        entry_models(final(v)@) == entry_models(old(v)@).push((key@, value@)),
{
    let ghost o = entry_models(v@);
    v.push((key.to_owned(), value));
    assert(entry_models(v@) =~= o.push((key@, value@)));
}

/// No entries.
pub fn empty() -> (r: Vec<(String, Json)>)
    ensures
        entry_models(r@) == Seq::<(Seq<char>, JsonModel)>::empty(),
{
    let r: Vec<(String, Json)> = Vec::new();
    assert(entry_models(r@) =~= Seq::empty());
    r
}

/// The value of the first entry with a key.
pub open spec fn lookup(p: Seq<(Seq<char>, JsonModel)>, key: Seq<char>) -> Option<JsonModel>
    decreases p.len(),
{
    if p.len() == 0 {
        None
    } else if p[0].0 == key {
        Some(p[0].1)
    } else {
        lookup(p.skip(1), key)
    }
}

/// The entry of an object with a key.
pub open spec fn entry(m: JsonModel, key: Seq<char>) -> Option<JsonModel> {
    match m {
        JsonModel::Object(p) => lookup(p, key),
        _ => None,
    }
}

/// The text of an entry.
pub open spec fn text_entry(m: JsonModel, key: Seq<char>) -> Option<Seq<char>> {
    match entry(m, key) {
        Some(JsonModel::Text(s)) => Some(s),
        _ => None,
    }
}

impl Json {
    /// The entry of an object with a key.
    pub fn get(&self, key: &str) -> (r: Option<&Json>)
        ensures
            match r {
                Some(v) => entry(self@, key@) == Some(v@),
                None => entry(self@, key@) is None,
            },
    {
        match self {
            Json::Object(m) => {
                let ghost all = entry_models(m@);
                assert(self@->Object_0 =~= all);
                let mut i: usize = 0;
                assert(all.skip(0) =~= all);
                while i < m.len()
                    invariant
                        i <= m@.len(),
                        all == entry_models(m@),
                        lookup(all.skip(i as int), key@) == lookup(all, key@),
                        self@ == JsonModel::Object(all),
                    decreases m@.len() - i,
                {
                    assert(all.skip(i as int)[0] == (m@[i as int].0@, m@[i as int].1@));
                    if text::same(m[i].0.as_str(), key) {
                        return Some(&m[i].1);
                    }
                    assert(all.skip(i as int).skip(1) =~= all.skip(i + 1));
                    i = i + 1;
                }
                None
            },
            _ => None,
        }
    }

    /// The text of an entry.
    pub fn get_text(&self, key: &str) -> (r: Option<&str>)
        ensures
            match r {
                Some(s) => text_entry(self@, key@) == Some(s@),
                None => text_entry(self@, key@) is None,
            },
    {
        match self.get(key) {
            Some(Json::Text(s)) => Some(s.as_str()),
            _ => None,
        }
    }

    /// A copy of the value.
    pub fn copy(&self) -> (r: Json)
        ensures
            r@ == self@,
        decreases self@,
    {
        match self {
            Json::Null => Json::Null,
            Json::Truth(b) => Json::Truth(*b),
            Json::UInt(n) => Json::UInt(*n),
            Json::NegInt(n) => Json::NegInt(*n),
            Json::Float(m) => Json::Float(m.copy()),
            Json::Text(s) => Json::Text(s.clone()),
            Json::List(a) => {
                let mut out: Vec<Json> = Vec::new();
                let mut i: usize = 0;
                while i < a.len()
                    invariant
                        i <= a@.len(),
                        self@ is List,
                        self@->List_0 =~= list_models(a@),
                        out@.len() == i,
                        forall|j: int| 0 <= j < i ==> (#[trigger] out@[j])@ == a@[j]@,
                    decreases a@.len() - i,
                {
                    assert(self@->List_0[i as int] == a@[i as int]@);
                    out.push(a[i].copy());
                    i = i + 1;
                }
                let r = Json::List(out);
                assert(r@->List_0 =~= self@->List_0) by {
                    assert(r@->List_0 =~= list_models(out@));
                }
                r
            },
            Json::Object(a) => {
                let mut out: Vec<(String, Json)> = Vec::new();
                let mut i: usize = 0;
                while i < a.len()
                    invariant
                        i <= a@.len(),
                        self@ is Object,
                        self@->Object_0 =~= entry_models(a@),
                        out@.len() == i,
                        forall|j: int|
                            0 <= j < i ==> (#[trigger] out@[j]).0@ == a@[j].0@ && out@[j].1@
                                == a@[j].1@,
                    decreases a@.len() - i,
                {
                    assert(self@->Object_0[i as int] == (a@[i as int].0@, a@[i as int].1@));
                    proof {
                        let e = self@->Object_0[i as int];
                        assert(decreases_to!(self@ => self@->Object_0[i as int]));
                        assert(decreases_to!(e => e.1));
                    }
                    let y = a[i].1.copy();
                    out.push((a[i].0.clone(), y));
                    i = i + 1;
                }
                let r = Json::Object(out);
                assert(r@->Object_0 =~= self@->Object_0) by {
                    assert(r@->Object_0 =~= entry_models(out@));
                }
                r
            },
        }
    }
}

// ---------------------------------------------------------------------------
// Reading
// ---------------------------------------------------------------------------

/// A value of `serde_json`.
#[verifier::external_type_specification]
#[verifier::external_body]
pub struct ExJsonValue(serde_json::Value);

/// What a value of `serde_json` holds. The entries of an object stand in the
/// order in which the value hands them out.
pub uninterp spec fn contents(v: Value) -> JsonModel;

/// What `serde_json::from_str` reads out of a text, or the words of its error.
pub uninterp spec fn json_read(s: Seq<char>) -> Result<JsonModel, Seq<char>>;

/// One level of an outside value: the containers hold outside values.
pub enum JsonNode {
    Null,
    Truth(bool),
    UInt(u64),
    NegInt(i64),
    Double(u64),
    Text(String),
    List(Vec<Value>),
    Object(Vec<(String, Value)>),
}

impl JsonNode {
    /// What the level holds.
    pub open spec fn model(self) -> JsonModel {
        match self {
            JsonNode::Null => JsonModel::Null,
            JsonNode::Truth(b) => JsonModel::Truth(b),
            JsonNode::UInt(n) => JsonModel::UInt(n),
            JsonNode::NegInt(n) => JsonModel::NegInt(n),
            JsonNode::Double(b) => JsonModel::Float(Msg::Double(b)),
            JsonNode::Text(s) => JsonModel::Text(s@),
            JsonNode::List(a) => JsonModel::List(Seq::new(a@.len(), |i: int| contents(a@[i]))),
            JsonNode::Object(a) => JsonModel::Object(
                Seq::new(a@.len(), |i: int| (a@[i].0@, contents(a@[i].1))),
            ),
        }
    }
}

/// `serde_json::from_str` with a `serde_json::Value` as its result, and the words
/// of its error.
#[verifier::external_body]
fn read_outside(s: &str) -> (r: Result<Value, String>)
    ensures
        match r {
            Ok(v) => json_read(s@) == Ok::<JsonModel, Seq<char>>(contents(v)),
            Err(e) => json_read(s@) == Err::<JsonModel, Seq<char>>(e@),
        },
{
    serde_json::from_str(s).map_err(|e: serde_json::Error| e.to_string())
}

/// Takes one level off a value of `serde_json`, whose variants are told apart: a
/// number is unsigned, or else signed, or else of floating point.
#[verifier::external_body]
fn open_node(v: Value) -> (r: JsonNode)
    ensures
        r.model() == contents(v),
{
    match v {
        Value::Null => JsonNode::Null,
        Value::Bool(b) => JsonNode::Truth(b),
        Value::Number(n) => match (n.as_u64(), n.as_i64()) {
            (Some(u), _) => JsonNode::UInt(u),
            (None, Some(i)) => JsonNode::NegInt(i),
            (None, None) => JsonNode::Double(n.as_f64().unwrap().to_bits()),
        },
        Value::String(s) => JsonNode::Text(s),
        Value::Array(a) => JsonNode::List(a),
        Value::Object(m) => JsonNode::Object(m.into_iter().collect()),
    }
}

fn from_outside(v: Value) -> (r: Json)
    ensures
        r@ == contents(v),
    decreases contents(v),
{
    let ghost whole = contents(v);
    match open_node(v) {
        JsonNode::Null => Json::Null,
        JsonNode::Truth(b) => Json::Truth(b),
        JsonNode::UInt(n) => Json::UInt(n),
        JsonNode::NegInt(n) => Json::NegInt(n),
        JsonNode::Double(b) => Json::Float(MsgValue::Double(b)),
        JsonNode::Text(s) => Json::Text(s),
        JsonNode::List(a) => {
            let ghost all = a@;
            let mut rest = a;
            let mut back: Vec<Json> = Vec::new();
            while rest.len() > 0
                invariant
                    whole == contents(v),
                    whole is List,
                    whole->List_0.len() == all.len(),
                    rest@.len() + back@.len() == all.len(),
                    forall|j: int| 0 <= j < rest@.len() ==> rest@[j] == all[j],
                    forall|j: int| 0 <= j < all.len() ==> whole->List_0[j] == contents(all[j]),
                    forall|j: int|
                        0 <= j < back@.len() ==> (#[trigger] back@[j])@ == whole->List_0[all.len() - 1
                            - j],
                decreases rest@.len(),
            {
                let x = rest.pop().unwrap();
                assert(whole->List_0[rest@.len() as int] == contents(x));
                back.push(from_outside(x));
            }
            let r = list(msgpack::reversed(back));
            assert(r@->List_0 =~= whole->List_0);
            r
        },
        JsonNode::Object(a) => {
            let ghost all = a@;
            let mut rest = a;
            let mut back: Vec<(String, Json)> = Vec::new();
            while rest.len() > 0
                invariant
                    whole == contents(v),
                    whole is Object,
                    whole->Object_0.len() == all.len(),
                    rest@.len() + back@.len() == all.len(),
                    forall|j: int| 0 <= j < rest@.len() ==> rest@[j] == all[j],
                    forall|j: int|
                        0 <= j < all.len() ==> whole->Object_0[j] == (
                            all[j].0@,
                            contents(all[j].1),
                        ),
                    forall|j: int|
                        0 <= j < back@.len() ==> ((#[trigger] back@[j]).0@, back@[j].1@)
                            == whole->Object_0[all.len() - 1 - j],
                decreases rest@.len(),
            {
                let (k, y) = rest.pop().unwrap();
                assert(whole->Object_0[rest@.len() as int] == (k@, contents(y)));
                proof {
                    let e = whole->Object_0[rest@.len() as int];
                    assert(decreases_to!(whole => whole->Object_0[rest@.len() as int]));
                    assert(decreases_to!(e => e.1));
                }
                let q = from_outside(y);
                back.push((k, q));
            }
            let r = object(msgpack::reversed(back));
            assert(r@->Object_0 =~= whole->Object_0);
            r
        },
    }
}

/// Reads a text as JSON.
pub fn read(s: &str) -> (r: Result<Json, String>)
    ensures
        match r {
            Ok(v) => json_read(s@) == Ok::<JsonModel, Seq<char>>(v@),
            Err(e) => json_read(s@) == Err::<JsonModel, Seq<char>>(e@),
        },
{
    match read_outside(s) {
        Ok(v) => Ok(from_outside(v)),
        Err(e) => Err(e),
    }
}

} // verus!
