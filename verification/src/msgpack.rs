//! Dynamically typed MessagePack values.
//!
//! [`MsgValue`] is what the tools build and take apart; encoding and decoding
//! is done by the `rmpv` crate.

use rmpv::Value;
use vstd::prelude::*;

verus! {

/// A MessagePack value. Floating point numbers are held as their bits. A string
/// that is not valid UTF-8 is held as its bytes.
#[derive(Debug)]
pub enum MsgValue {
    Nil,
    Boolean(bool),
    UInt(u64),
    NegInt(i64),
    Single(u32),
    Double(u64),
    Text(String),
    RawText(Vec<u8>),
    Binary(Vec<u8>),
    Array(Vec<MsgValue>),
    Pairs(Vec<(MsgValue, MsgValue)>),
    Ext(i8, Vec<u8>),
}

/// What a MessagePack value is, over sequences and integers.
pub enum Msg {
    Nil,
    Boolean(bool),
    Integer(int),
    Single(u32),
    Double(u64),
    Text(Seq<char>),
    RawText(Seq<u8>),
    Binary(Seq<u8>),
    Array(Seq<Msg>),
    Pairs(Seq<(Msg, Msg)>),
    Ext(i8, Seq<u8>),
}

impl MsgValue {
    /// The value over sequences and integers.
    pub open spec fn model(self) -> Msg
        decreases self,
    {
        match self {
            MsgValue::Nil => Msg::Nil,
            MsgValue::Boolean(b) => Msg::Boolean(b),
            MsgValue::UInt(n) => Msg::Integer(n as int),
            MsgValue::NegInt(n) => Msg::Integer(n as int),
            MsgValue::Single(b) => Msg::Single(b),
            MsgValue::Double(b) => Msg::Double(b),
            MsgValue::Text(s) => Msg::Text(s@),
            MsgValue::RawText(b) => Msg::RawText(b@),
            MsgValue::Binary(b) => Msg::Binary(b@),
            MsgValue::Array(a) => Msg::Array(
                Seq::new(
                    a@.len(),
                    |i: int|
                        if 0 <= i < a@.len() {
                            a@[i].model()
                        } else {
                            Msg::Nil
                        },
                ),
            ),
            MsgValue::Pairs(a) => Msg::Pairs(
                Seq::new(
                    a@.len(),
                    |i: int|
                        if 0 <= i < a@.len() {
                            (a@[i].0.model(), a@[i].1.model())
                        } else {
                            (Msg::Nil, Msg::Nil)
                        },
                ),
            ),
            MsgValue::Ext(t, b) => Msg::Ext(t, b@),
        }
    }
}

impl View for MsgValue {
    type V = Msg;

    open spec fn view(&self) -> Msg {
        self.model()
    }
}

/// The models of a sequence of values.
pub open spec fn models(v: Seq<MsgValue>) -> Seq<Msg> {
    Seq::new(v.len(), |i: int| v[i]@)
}

/// The models of a sequence of pairs of values.
pub open spec fn pair_models(v: Seq<(MsgValue, MsgValue)>) -> Seq<(Msg, Msg)> {
    Seq::new(v.len(), |i: int| (v[i].0@, v[i].1@))
}

/// The bits of a double precision number that is not a number.
pub open spec fn is_nan(bits: u64) -> bool {
    (bits / 0x10_0000_0000_0000) % 0x800 == 0x7ff && bits % 0x10_0000_0000_0000 != 0
}

/// The value can be encoded so that decoding gives it back: strings are valid
/// text, integers are in range, lengths fit in 32 bits, no number is a NaN, and
/// containers are nested at most `depth` deep.
pub open spec fn plain(m: Msg, depth: nat) -> bool
    decreases depth,
{
    match m {
        Msg::Nil => true,
        Msg::Boolean(_) => true,
        Msg::Integer(n) => i64::MIN <= n <= u64::MAX,
        Msg::Single(_) => false,
        Msg::Double(b) => !is_nan(b),
        Msg::Text(s) => vstd::utf8::encode_utf8(s).len() <= u32::MAX,
        Msg::RawText(_) => false,
        Msg::Binary(b) => b.len() <= u32::MAX,
        Msg::Array(a) => {
            &&& depth > 0
            &&& a.len() <= u32::MAX
            &&& forall|i: int| 0 <= i < a.len() ==> #[trigger] plain(a[i], (depth - 1) as nat)
        },
        Msg::Pairs(a) => {
            &&& depth > 0
            &&& a.len() <= u32::MAX
            &&& forall|i: int|
                0 <= i < a.len() ==> #[trigger] plain(a[i].0, (depth - 1) as nat) && plain(
                    a[i].1,
                    (depth - 1) as nat,
                )
        },
        Msg::Ext(_, _) => false,
    }
}

/// The value holds only what `encode` takes: text that is valid, and no number
/// that is not a number.
pub open spec fn encodable(m: Msg) -> bool
    decreases m,
{
    match m {
        Msg::Single(_) => false,
        Msg::Double(b) => !is_nan(b),
        Msg::RawText(_) => false,
        Msg::Array(a) => forall|i: int| 0 <= i < a.len() ==> encodable(#[trigger] a[i]),
        Msg::Pairs(a) => forall|i: int|
            0 <= i < a.len() ==> encodable((#[trigger] a[i]).0) && encodable(a[i].1),
        _ => true,
    }
}

// ---------------------------------------------------------------------------
// The outside representation
// ---------------------------------------------------------------------------

/// A value of the `rmpv` crate.
#[verifier::external_type_specification]
#[verifier::external_body]
pub struct ExValue(rmpv::Value);

/// What a value of the `rmpv` crate holds.
pub uninterp spec fn contents(v: rmpv::Value) -> Msg;

/// The bytes that `rmpv::encode::write_value` writes for a value.
pub uninterp spec fn msgpack(m: Msg) -> Seq<u8>;

/// The value that `rmpv::decode::read_value` reads at the start of the bytes, or
/// the text of its error.
pub uninterp spec fn msgpack_read(b: Seq<u8>) -> Result<Msg, Seq<char>>;

/// One level of an outside value: the containers hold outside values.
pub enum Node {
    Nil,
    Boolean(bool),
    UInt(u64),
    NegInt(i64),
    Single(u32),
    Double(u64),
    Text(String),
    RawText(Vec<u8>),
    Binary(Vec<u8>),
    Array(Vec<Value>),
    Pairs(Vec<(Value, Value)>),
    Ext(i8, Vec<u8>),
}

impl Node {
    /// What the level holds.
    pub open spec fn model(self) -> Msg {
        match self {
            Node::Nil => Msg::Nil,
            Node::Boolean(b) => Msg::Boolean(b),
            Node::UInt(n) => Msg::Integer(n as int),
            Node::NegInt(n) => Msg::Integer(n as int),
            Node::Single(b) => Msg::Single(b),
            Node::Double(b) => Msg::Double(b),
            Node::Text(s) => Msg::Text(s@),
            Node::RawText(b) => Msg::RawText(b@),
            Node::Binary(b) => Msg::Binary(b@),
            Node::Array(a) => Msg::Array(Seq::new(a@.len(), |i: int| contents(a@[i]))),
            Node::Pairs(a) => Msg::Pairs(
                Seq::new(a@.len(), |i: int| (contents(a@[i].0), contents(a@[i].1))),
            ),
            Node::Ext(t, b) => Msg::Ext(t, b@),
        }
    }
}

/// Takes one level off a value of `rmpv`, whose variants are told apart: an
/// integer is unsigned or else signed, a string is text or else its bytes.
#[verifier::external_body]
fn open_node(v: Value) -> (r: Node)
    ensures
        r.model() == contents(v),
        r matches Node::NegInt(n) ==> n < 0,
{
    match v {
        Value::Nil => Node::Nil,
        Value::Boolean(b) => Node::Boolean(b),
        Value::Integer(i) => i.as_u64().map_or_else(|| Node::NegInt(i.as_i64().unwrap()), Node::UInt),
        Value::F32(x) => Node::Single(x.to_bits()),
        Value::F64(x) => Node::Double(x.to_bits()),
        Value::String(s) => String::from_utf8(s.into_bytes())
            .map_or_else(|e| Node::RawText(e.into_bytes()), Node::Text),
        Value::Binary(b) => Node::Binary(b),
        Value::Array(a) => Node::Array(a),
        Value::Map(a) => Node::Pairs(a),
        Value::Ext(t, b) => Node::Ext(t, b),
    }
}

/// Makes a value of `rmpv` from one level. A double is read from its nine byte
/// encoding. Bits that are not a number, and text that is not valid, cannot be
/// made.
#[verifier::external_body]
fn make_node(n: Node) -> (r: Value)
    requires
        !(n is Single),
        !(n is RawText),
        n matches Node::Double(b) ==> !is_nan(b),
    ensures
        contents(r) == n.model(),
{
    match n {
        Node::Nil | Node::Single(_) | Node::RawText(_) => Value::Nil,
        Node::Boolean(b) => Value::Boolean(b),
        Node::UInt(n) => Value::from(n),
        Node::NegInt(n) => Value::from(n),
        Node::Double(b) => rmpv::decode::read_value(&mut &[&[0xcb], &b.to_be_bytes()[..]].concat()[..]).unwrap(),
        Node::Text(s) => Value::from(s),
        Node::Binary(b) => Value::Binary(b),
        Node::Array(a) => Value::Array(a),
        Node::Pairs(a) => Value::Map(a),
        Node::Ext(t, b) => Value::Ext(t, b),
    }
}

/// `rmpv::decode::read_value` on the bytes. What it returns depends on the bytes
/// alone; of bytes that `write_value` wrote for a plain value, nested no more
/// than eight deep, it returns that value.
#[verifier::external_body]
fn read_outside(b: &[u8]) -> (r: Result<Value, String>)
    ensures
        match r {
            Ok(v) => msgpack_read(b@) == Ok::<Msg, Seq<char>>(contents(v)),
            Err(e) => msgpack_read(b@) == Err::<Msg, Seq<char>>(e@),
        },
        forall|m: Msg|
            #[trigger] plain(m, 8) && b@ == msgpack(m) ==> r is Ok && contents(r->Ok_0) == m,
{
    rmpv::decode::read_value(&mut std::io::Cursor::new(b)).map_err(|e| e.to_string())
}

/// `rmpv::encode::write_value` into a vector, which does not fail and writes a
/// marker at least.
#[verifier::external_body]
fn write_outside(v: &Value) -> (r: Vec<u8>)
    ensures
        r@ == msgpack(contents(*v)),
        r@.len() > 0,
{
    let mut b = Vec::new();
    rmpv::encode::write_value(&mut b, v).unwrap();
    b
}

// ---------------------------------------------------------------------------
// Encoding and decoding
// ---------------------------------------------------------------------------

fn to_outside(v: &MsgValue) -> (r: Value)
    requires
        encodable(v@),
    ensures
        contents(r) == v@,
    decreases v@,
{
    let node = match v {
        MsgValue::Nil => Node::Nil,
        MsgValue::Boolean(b) => Node::Boolean(*b),
        MsgValue::UInt(n) => Node::UInt(*n),
        MsgValue::NegInt(n) => Node::NegInt(*n),
        MsgValue::Single(b) => Node::Single(*b),
        MsgValue::Double(b) => Node::Double(*b),
        MsgValue::Text(s) => Node::Text(s.clone()),
        MsgValue::RawText(b) => Node::RawText(crate::bytes::copy(b.as_slice())),
        MsgValue::Binary(b) => Node::Binary(crate::bytes::copy(b.as_slice())),
        MsgValue::Array(a) => {
            let mut out: Vec<Value> = Vec::new();
            let mut i: usize = 0;
            while i < a.len()
                invariant
                    i <= a@.len(),
                    out@.len() == i,
                    v@ is Array,
                    v@->Array_0 =~= models(a@),
                    encodable(v@),
                    forall|j: int| 0 <= j < i ==> contents(#[trigger] out@[j]) == a@[j]@,
                decreases a@.len() - i,
            {
                assert(v@->Array_0[i as int] == a@[i as int]@);
                out.push(to_outside(&a[i]));
                i = i + 1;
            }
            Node::Array(out)
        },
        MsgValue::Pairs(a) => {
            let mut out: Vec<(Value, Value)> = Vec::new();
            let mut i: usize = 0;
            while i < a.len()
                invariant
                    i <= a@.len(),
                    out@.len() == i,
                    v@ is Pairs,
                    v@->Pairs_0 =~= pair_models(a@),
                    encodable(v@),
                    forall|j: int|
                        0 <= j < i ==> contents((#[trigger] out@[j]).0) == a@[j].0@ && contents(
                            out@[j].1,
                        ) == a@[j].1@,
                decreases a@.len() - i,
            {
                assert(v@->Pairs_0[i as int] == (a@[i as int].0@, a@[i as int].1@));
                let x = to_outside(&a[i].0);
                let y = to_outside(&a[i].1);
                out.push((x, y));
                i = i + 1;
            }
            Node::Pairs(out)
        },
        MsgValue::Ext(t, b) => Node::Ext(*t, crate::bytes::copy(b.as_slice())),
    };
    proof {
        if v@ is Array {
            assert(node.model()->Array_0 =~= v@->Array_0);
        }
        if v@ is Pairs {
            assert(node.model()->Pairs_0 =~= v@->Pairs_0);
        }
    }
    make_node(node)
}

fn from_outside(v: Value) -> (r: MsgValue)
    ensures
        r@ == contents(v),
    decreases contents(v),
{
    let ghost whole = contents(v);
    match open_node(v) {
        Node::Nil => MsgValue::Nil,
        Node::Boolean(b) => MsgValue::Boolean(b),
        Node::UInt(n) => MsgValue::UInt(n),
        Node::NegInt(n) => MsgValue::NegInt(n),
        Node::Single(b) => MsgValue::Single(b),
        Node::Double(b) => MsgValue::Double(b),
        Node::Text(s) => MsgValue::Text(s),
        Node::RawText(b) => MsgValue::RawText(b),
        Node::Binary(b) => MsgValue::Binary(b),
        Node::Array(a) => {
            let ghost all = a@;
            let mut rest = a;
            let mut back: Vec<MsgValue> = Vec::new();
            while rest.len() > 0
                invariant
                    whole == contents(v),
                    whole is Array,
                    whole->Array_0.len() == all.len(),
                    rest@.len() + back@.len() == all.len(),
                    forall|j: int| 0 <= j < rest@.len() ==> rest@[j] == all[j],
                    forall|j: int| 0 <= j < all.len() ==> whole->Array_0[j] == contents(all[j]),
                    forall|j: int|
                        0 <= j < back@.len() ==> (#[trigger] back@[j])@ == whole->Array_0[all.len() - 1
                            - j],
                decreases rest@.len(),
            {
                let x = rest.pop().unwrap();
                assert(whole->Array_0[rest@.len() as int] == contents(x));
                back.push(from_outside(x));
            }
            let r = MsgValue::Array(reversed(back));
            assert(r@->Array_0 =~= whole->Array_0);
            r
        },
        Node::Pairs(a) => {
            let ghost all = a@;
            let mut rest = a;
            let mut back: Vec<(MsgValue, MsgValue)> = Vec::new();
            while rest.len() > 0
                invariant
                    whole == contents(v),
                    whole is Pairs,
                    whole->Pairs_0.len() == all.len(),
                    rest@.len() + back@.len() == all.len(),
                    forall|j: int| 0 <= j < rest@.len() ==> rest@[j] == all[j],
                    forall|j: int|
                        0 <= j < all.len() ==> whole->Pairs_0[j] == (
                            contents(all[j].0),
                            contents(all[j].1),
                        ),
                    forall|j: int|
                        0 <= j < back@.len() ==> ((#[trigger] back@[j]).0@, back@[j].1@)
                            == whole->Pairs_0[all.len() - 1 - j],
                decreases rest@.len(),
            {
                let (x, y) = rest.pop().unwrap();
                assert(whole->Pairs_0[rest@.len() as int] == (contents(x), contents(y)));
                proof {
                    let e = whole->Pairs_0[rest@.len() as int];
                    assert(decreases_to!(whole => whole->Pairs_0[rest@.len() as int]));
                    assert(decreases_to!(e => e.0));
                    assert(decreases_to!(e => e.1));
                }
                let p = from_outside(x);
                let q = from_outside(y);
                back.push((p, q));
            }
            let r = MsgValue::Pairs(reversed(back));
            assert(r@->Pairs_0 =~= whole->Pairs_0);
            r
        },
        Node::Ext(t, b) => MsgValue::Ext(t, b),
    }
}

/// The elements from the last to the first.
pub fn reversed<T>(v: Vec<T>) -> (r: Vec<T>)
    ensures
        r@ == v@.reverse(),
{
    let ghost all = v@;
    let mut rest = v;
    let mut r: Vec<T> = Vec::new();
    while rest.len() > 0
        invariant
            rest@.len() + r@.len() == all.len(),
            forall|j: int| 0 <= j < rest@.len() ==> rest@[j] == all[j],
            forall|j: int| 0 <= j < r@.len() ==> r@[j] == all[all.len() - 1 - j],
        decreases rest@.len(),
    {
        let x = rest.pop().unwrap();
        r.push(x);
    }
    assert(r@ =~= all.reverse());
    r
}

/// Encodes a value.
pub fn encode(v: &MsgValue) -> (r: Vec<u8>)
    requires
        encodable(v@),
    ensures
        r@ == msgpack(v@),
        r@.len() > 0,
{
    let o = to_outside(v);
    write_outside(&o)
}

/// Decodes the value at the start of the bytes.
pub fn decode(b: &[u8]) -> (r: Result<MsgValue, String>)
    ensures
        match r {
            Ok(v) => msgpack_read(b@) == Ok::<Msg, Seq<char>>(v@),
            Err(e) => msgpack_read(b@) == Err::<Msg, Seq<char>>(e@),
        },
        forall|m: Msg|
            #[trigger] plain(m, 8) && b@ == msgpack(m) ==> r is Ok && (r->Ok_0)@ == m,
{
    match read_outside(b) {
        Ok(v) => Ok(from_outside(v)),
        Err(e) => Err(e),
    }
}

// ---------------------------------------------------------------------------
// Making a value
// ---------------------------------------------------------------------------

/// An integer that is not negative.
pub fn uint(n: u64) -> (r: MsgValue)
    ensures
        r@ == Msg::Integer(n as int),
{
    MsgValue::UInt(n)
}

/// An integer.
pub fn integer(n: i64) -> (r: MsgValue)
    ensures
        r@ == Msg::Integer(n as int),
{
    if n < 0 {
        MsgValue::NegInt(n)
    } else {
        MsgValue::UInt(n as u64)
    }
}

/// A truth value.
pub fn boolean(b: bool) -> (r: MsgValue)
    ensures
        r@ == Msg::Boolean(b),
{
    MsgValue::Boolean(b)
}

/// A string.
pub fn string(s: &str) -> (r: MsgValue)
    ensures
        r@ == Msg::Text(s@),
{
    MsgValue::Text(s.to_owned())
}

/// A binary value.
pub fn binary(b: &[u8]) -> (r: MsgValue)
    ensures
        r@ == Msg::Binary(b@),
{
    MsgValue::Binary(crate::bytes::copy(b))
}

/// An array.
pub fn array(v: Vec<MsgValue>) -> (r: MsgValue)
    ensures
        r@ == Msg::Array(models(v@)),
{
    let r = MsgValue::Array(v);
    assert(r@->Array_0 =~= models(v@));
    r
}

/// A map.
pub fn map(v: Vec<(MsgValue, MsgValue)>) -> (r: MsgValue)
    ensures
        r@ == Msg::Pairs(pair_models(v@)),
{
    let r = MsgValue::Pairs(v);
    assert(r@->Pairs_0 =~= pair_models(v@));
    r
}

// ---------------------------------------------------------------------------
// Reading a value
// ---------------------------------------------------------------------------

/// The text of a string.
pub open spec fn text_of(m: Msg) -> Option<Seq<char>> {
    match m {
        Msg::Text(s) => Some(s),
        _ => None,
    }
}

/// The bytes of a binary value or of a string.
pub open spec fn bytes_of(m: Msg) -> Option<Seq<u8>> {
    match m {
        Msg::Binary(b) => Some(b),
        Msg::Text(s) => Some(vstd::utf8::encode_utf8(s)),
        Msg::RawText(b) => Some(b),
        _ => None,
    }
}

/// A truth value.
pub open spec fn bool_of(m: Msg) -> Option<bool> {
    match m {
        Msg::Boolean(b) => Some(b),
        _ => None,
    }
}

/// An integer that is not negative.
pub open spec fn u64_of(m: Msg) -> Option<u64> {
    match m {
        Msg::Integer(n) => if 0 <= n <= u64::MAX {
            Some(n as u64)
        } else {
            None
        },
        _ => None,
    }
}

/// An integer in the range of 64 signed bits.
pub open spec fn i64_of(m: Msg) -> Option<i64> {
    match m {
        Msg::Integer(n) => if i64::MIN <= n <= i64::MAX {
            Some(n as i64)
        } else {
            None
        },
        _ => None,
    }
}

/// The entries of a map.
pub open spec fn pairs_of(m: Msg) -> Option<Seq<(Msg, Msg)>> {
    match m {
        Msg::Pairs(p) => Some(p),
        _ => None,
    }
}

/// The items of an array.
pub open spec fn items_of(m: Msg) -> Option<Seq<Msg>> {
    match m {
        Msg::Array(a) => Some(a),
        _ => None,
    }
}

/// A number: an integer or a floating point number.
pub open spec fn is_number(m: Msg) -> bool {
    m is Integer || m is Single || m is Double
}

/// The value of the first entry with the text `key` as its key.
pub open spec fn lookup(p: Seq<(Msg, Msg)>, key: Seq<char>) -> Option<Msg>
    decreases p.len(),
{
    if p.len() == 0 {
        None
    } else if p[0].0 == Msg::Text(key) {
        Some(p[0].1)
    } else {
        lookup(p.skip(1), key)
    }
}

/// The value of the first entry with the integer `key` as its key.
pub open spec fn lookup_int(p: Seq<(Msg, Msg)>, key: int) -> Option<Msg>
    decreases p.len(),
{
    if p.len() == 0 {
        None
    } else if p[0].0 == Msg::Integer(key) {
        Some(p[0].1)
    } else {
        lookup_int(p.skip(1), key)
    }
}

/// The text of the first entry with the given key.
pub open spec fn text_at(p: Seq<(Msg, Msg)>, key: Seq<char>) -> Option<Seq<char>> {
    match lookup(p, key) {
        Some(m) => text_of(m),
        None => None,
    }
}

/// The truth value of the first entry with the given key; false where there is
/// none.
pub open spec fn flag_at(p: Seq<(Msg, Msg)>, key: Seq<char>) -> bool {
    match lookup(p, key) {
        Some(Msg::Boolean(b)) => b,
        _ => false,
    }
}

impl MsgValue {
    /// The text of a string.
    pub fn as_str(&self) -> (r: Option<&str>)
        ensures
            match r {
                Some(s) => text_of(self@) == Some(s@),
                None => text_of(self@) is None,
            },
    {
        match self {
            MsgValue::Text(s) => Some(s.as_str()),
            _ => None,
        }
    }

    /// The bytes of a binary value or of a string.
    pub fn as_slice(&self) -> (r: Option<Vec<u8>>)
        ensures
            match r {
                Some(b) => bytes_of(self@) == Some(b@),
                None => bytes_of(self@) is None,
            },
    {
        match self {
            MsgValue::Binary(b) => Some(crate::bytes::copy(b.as_slice())),
            MsgValue::Text(s) => Some(crate::text::utf8(s.as_str())),
            MsgValue::RawText(b) => Some(crate::bytes::copy(b.as_slice())),
            _ => None,
        }
    }

    /// A truth value.
    pub fn as_bool(&self) -> (r: Option<bool>)
        ensures
            r == bool_of(self@),
    {
        match self {
            MsgValue::Boolean(b) => Some(*b),
            _ => None,
        }
    }

    /// An integer that is not negative.
    pub fn as_u64(&self) -> (r: Option<u64>)
        ensures
            r == u64_of(self@),
    {
        match self {
            MsgValue::UInt(n) => Some(*n),
            MsgValue::NegInt(n) => if *n >= 0 {
                Some(*n as u64)
            } else {
                None
            },
            _ => None,
        }
    }

    /// An integer in the range of 64 signed bits.
    pub fn as_i64(&self) -> (r: Option<i64>)
        ensures
            r == i64_of(self@),
    {
        match self {
            MsgValue::UInt(n) => if *n <= i64::MAX as u64 {
                Some(*n as i64)
            } else {
                None
            },
            MsgValue::NegInt(n) => Some(*n),
            _ => None,
        }
    }

    /// The items of an array.
    pub fn as_array(&self) -> (r: Option<&Vec<MsgValue>>)
        ensures
            match r {
                Some(a) => items_of(self@) == Some(models(a@)),
                None => items_of(self@) is None,
            },
    {
        match self {
            MsgValue::Array(a) => {
                assert(self@->Array_0 =~= models(a@));
                Some(a)
            },
            _ => None,
        }
    }

    /// The entries of a map.
    pub fn as_map(&self) -> (r: Option<&Vec<(MsgValue, MsgValue)>>)
        ensures
            match r {
                Some(a) => pairs_of(self@) == Some(pair_models(a@)),
                None => pairs_of(self@) is None,
            },
    {
        match self {
            MsgValue::Pairs(a) => {
                assert(self@->Pairs_0 =~= pair_models(a@));
                Some(a)
            },
            _ => None,
        }
    }

    /// Whether the value is a number.
    pub fn is_number(&self) -> (r: bool)
        ensures
            r == is_number(self@),
    {
        match self {
            MsgValue::UInt(_) => true,
            MsgValue::NegInt(_) => true,
            MsgValue::Single(_) => true,
            MsgValue::Double(_) => true,
            _ => false,
        }
    }

    /// Whether the value is the text `s`.
    pub fn is_text(&self, s: &str) -> (r: bool)
        ensures
            r == (self@ == Msg::Text(s@)),
    {
        match self {
            MsgValue::Text(t) => crate::text::same(t.as_str(), s),
            _ => false,
        }
    }

    /// Whether the value is the integer `n`.
    pub fn is_int(&self, n: i64) -> (r: bool)
        ensures
            r == (self@ == Msg::Integer(n as int)),
    {
        match self.as_i64() {
            Some(m) => m == n,
            None => false,
        }
    }

    /// A copy of the value.
    pub fn copy(&self) -> (r: MsgValue)
        ensures
            r@ == self@,
        decreases self@,
    {
        match self {
            MsgValue::Nil => MsgValue::Nil,
            MsgValue::Boolean(b) => MsgValue::Boolean(*b),
            MsgValue::UInt(n) => MsgValue::UInt(*n),
            MsgValue::NegInt(n) => MsgValue::NegInt(*n),
            MsgValue::Single(b) => MsgValue::Single(*b),
            MsgValue::Double(b) => MsgValue::Double(*b),
            MsgValue::Text(s) => MsgValue::Text(s.clone()),
            MsgValue::RawText(b) => MsgValue::RawText(crate::bytes::copy(b.as_slice())),
            MsgValue::Binary(b) => MsgValue::Binary(crate::bytes::copy(b.as_slice())),
            MsgValue::Array(a) => {
                let mut out: Vec<MsgValue> = Vec::new();
                let mut i: usize = 0;
                while i < a.len()
                    invariant
                        i <= a@.len(),
                        self@ is Array,
                        self@->Array_0 =~= models(a@),
                        out@.len() == i,
                        forall|j: int| 0 <= j < i ==> (#[trigger] out@[j])@ == a@[j]@,
                    decreases a@.len() - i,
                {
                    assert(self@->Array_0[i as int] == a@[i as int]@);
                    out.push(a[i].copy());
                    i = i + 1;
                }
                let r = MsgValue::Array(out);
                assert(r@->Array_0 =~= self@->Array_0) by {
                    assert(r@->Array_0 =~= models(out@));
                }
                r
            },
            MsgValue::Pairs(a) => {
                let mut out: Vec<(MsgValue, MsgValue)> = Vec::new();
                let mut i: usize = 0;
                while i < a.len()
                    invariant
                        i <= a@.len(),
                        self@ is Pairs,
                        self@->Pairs_0 =~= pair_models(a@),
                        out@.len() == i,
                        forall|j: int|
                            0 <= j < i ==> (#[trigger] out@[j]).0@ == a@[j].0@ && out@[j].1@ == a@[j].1@,
                    decreases a@.len() - i,
                {
                    assert(self@->Pairs_0[i as int] == (a@[i as int].0@, a@[i as int].1@));
                    proof {
                        let e = self@->Pairs_0[i as int];
                        assert(decreases_to!(self@ => self@->Pairs_0[i as int]));
                        assert(decreases_to!(e => e.0));
                        assert(decreases_to!(e => e.1));
                    }
                    let x = a[i].0.copy();
                    let y = a[i].1.copy();
                    out.push((x, y));
                    i = i + 1;
                }
                let r = MsgValue::Pairs(out);
                assert(r@->Pairs_0 =~= self@->Pairs_0) by {
                    assert(r@->Pairs_0 =~= pair_models(out@));
                }
                r
            },
            MsgValue::Ext(t, b) => MsgValue::Ext(*t, crate::bytes::copy(b.as_slice())),
        }
    }
}

/// The value of the first entry with a key.
pub fn get<'a>(m: &'a Vec<(MsgValue, MsgValue)>, key: &str) -> (r: Option<&'a MsgValue>)
    ensures
        match r {
            Some(v) => lookup(pair_models(m@), key@) == Some(v@),
            None => lookup(pair_models(m@), key@) is None,
        },
{
    let ghost all = pair_models(m@);
    let mut i: usize = 0;
    assert(all.skip(0) =~= all);
    while i < m.len()
        invariant
            i <= m@.len(),
            all == pair_models(m@),
            lookup(all.skip(i as int), key@) == lookup(all, key@),
        decreases m@.len() - i,
    {
        assert(all.skip(i as int)[0] == (m@[i as int].0@, m@[i as int].1@));
        if m[i].0.is_text(key) {
            return Some(&m[i].1);
        }
        assert(all.skip(i as int).skip(1) =~= all.skip(i + 1));
        i = i + 1;
    }
    None
}

/// The value of the first entry with an integer key.
pub fn get_int<'a>(m: &'a Vec<(MsgValue, MsgValue)>, key: i64) -> (r: Option<&'a MsgValue>)
    ensures
        match r {
            Some(v) => lookup_int(pair_models(m@), key as int) == Some(v@),
            None => lookup_int(pair_models(m@), key as int) is None,
        },
{
    let ghost all = pair_models(m@);
    let mut i: usize = 0;
    assert(all.skip(0) =~= all);
    while i < m.len()
        invariant
            i <= m@.len(),
            all == pair_models(m@),
            lookup_int(all.skip(i as int), key as int) == lookup_int(all, key as int),
        decreases m@.len() - i,
    {
        assert(all.skip(i as int)[0] == (m@[i as int].0@, m@[i as int].1@));
        if m[i].0.is_int(key) {
            return Some(&m[i].1);
        }
        assert(all.skip(i as int).skip(1) =~= all.skip(i + 1));
        i = i + 1;
    }
    None
}

/// The text of the first entry with a key.
pub fn get_text<'a>(m: &'a Vec<(MsgValue, MsgValue)>, key: &str) -> (r: Option<&'a str>)
    ensures
        match r {
            Some(s) => text_at(pair_models(m@), key@) == Some(s@),
            None => text_at(pair_models(m@), key@) is None,
        },
{
    match get(m, key) {
        Some(v) => v.as_str(),
        None => None,
    }
}

/// The truth value of the first entry with a key; false where there is none.
pub fn get_flag(m: &Vec<(MsgValue, MsgValue)>, key: &str) -> (r: bool)
    ensures
        r == flag_at(pair_models(m@), key@),
{
    match get(m, key) {
        Some(MsgValue::Boolean(b)) => *b,
        _ => false,
    }
}

} // verus!
