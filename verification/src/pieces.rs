//! Texts with numbers in them that are yet to be worded.
//!
//! Numbers of messages may be of floating point. A text that shows some is built
//! as pieces; whoever prints it reads each number and the pieces are then put
//! together.

use vstd::prelude::*;

use crate::digits;
use crate::msgpack::{Msg, MsgValue};
use crate::text;

verus! {

/// A piece of a text.
#[derive(Debug)]
pub enum Piece {
    /// Plain text.
    Text(String),
    /// A number of seconds, as a duration.
    Duration(MsgValue),
    /// A number with one decimal.
    Decimal(MsgValue),
    /// A number of seconds above zero, as a duration behind the first text, or
    /// else the second text.
    Positive(MsgValue, String, String),
}

/// A piece of a text, over sequences.
pub enum Part {
    Text(Seq<char>),
    Duration(Msg),
    Decimal(Msg),
    Positive(Msg, Seq<char>, Seq<char>),
}

impl View for Piece {
    type V = Part;

    open spec fn view(&self) -> Part {
        match self {
            Piece::Text(t) => Part::Text(t@),
            Piece::Duration(m) => Part::Duration(m@),
            Piece::Decimal(m) => Part::Decimal(m@),
            Piece::Positive(m, a, b) => Part::Positive(m@, a@, b@),
        }
    }
}

/// The pieces over sequences.
pub open spec fn parts(v: Seq<Piece>) -> Seq<Part> {
    Seq::new(v.len(), |i: int| v[i]@)
}

/// What was read of a number: whether it is at most zero, whether it is above
/// zero, its whole part within the range of 64 bits, and its text with one
/// decimal.
#[derive(Debug)]
pub struct Reading {
    pub now: bool,
    pub positive: bool,
    pub seconds: u64,
    pub decimal: String,
}

/// What was read of a number, over sequences.
pub struct Figure {
    pub now: bool,
    pub positive: bool,
    pub seconds: u64,
    pub decimal: Seq<char>,
}

impl View for Reading {
    type V = Figure;

    open spec fn view(&self) -> Figure {
        Figure {
            now: self.now,
            positive: self.positive,
            seconds: self.seconds,
            decimal: self.decimal@,
        }
    }
}

/// The figures of readings.
pub open spec fn figures(v: Seq<Reading>) -> Seq<Figure> {
    Seq::new(v.len(), |i: int| v[i]@)
}

/// A number of seconds as a duration, from its largest unit that is not zero down
/// to seconds.
pub open spec fn duration_text(total: u64) -> Seq<char> {
    let d = total / 86400;
    let h = (total % 86400) / 3600;
    let m = (total % 3600) / 60;
    let seconds = digits::dec((total % 60) as nat) + "s"@;
    let minutes = digits::dec(m as nat) + "m "@ + seconds;
    let hours = digits::dec(h as nat) + "h "@ + minutes;
    if d > 0 {
        digits::dec(d as nat) + "d "@ + hours
    } else if h > 0 {
        hours
    } else if m > 0 {
        minutes
    } else {
        seconds
    }
}

/// A figure as a duration.
pub open spec fn span_text(f: Figure) -> Seq<char> {
    if f.now {
        "now"@
    } else {
        duration_text(f.seconds)
    }
}

fn unit(n: u64, name: &str, rest: &str) -> (r: String)
    ensures
        r@ == digits::dec(n as nat) + name@ + rest@,
{
    let d = digits::decimal(n);
    text::cat3(d.as_str(), name, rest)
}

/// A number of seconds as a duration.
pub fn pretty_duration(f: &Reading) -> (r: String)
    ensures
        r@ == span_text(f@),
{
    if f.now {
        return "now".to_owned();
    }
    let total: u64 = f.seconds;
    let d: u64 = total / 86400;
    let h: u64 = (total % 86400) / 3600;
    let m: u64 = (total % 3600) / 60;
    let s = unit(total % 60, "s", "");
    proof {
        reveal_strlit("");
    }
    assert(s@ =~= digits::dec((total % 60) as nat) + "s"@);
    if d > 0 {
        let ms = unit(m, "m ", s.as_str());
        let hs = unit(h, "h ", ms.as_str());
        unit(d, "d ", hs.as_str())
    } else if h > 0 {
        let ms = unit(m, "m ", s.as_str());
        unit(h, "h ", ms.as_str())
    } else if m > 0 {
        unit(m, "m ", s.as_str())
    } else {
        s
    }
}

/// The number that a piece shows.
pub open spec fn hole(p: Part) -> Option<Msg> {
    match p {
        Part::Text(_) => None,
        Part::Duration(m) => Some(m),
        Part::Decimal(m) => Some(m),
        Part::Positive(m, _, _) => Some(m),
    }
}

/// The numbers that pieces show, in order.
pub open spec fn numbers(p: Seq<Part>) -> Seq<Msg>
    decreases p.len(),
{
    if p.len() == 0 {
        Seq::empty()
    } else {
        match hole(p.last()) {
            Some(m) => numbers(p.drop_last()).push(m),
            None => numbers(p.drop_last()),
        }
    }
}

/// The text of a piece, with what was read of its number.
pub open spec fn worded(p: Part, f: Figure) -> Seq<char> {
    match p {
        Part::Text(t) => t,
        Part::Duration(_) => span_text(f),
        Part::Decimal(_) => f.decimal,
        Part::Positive(_, before, otherwise) => if f.positive {
            before + span_text(f)
        } else {
            otherwise
        },
    }
}

/// The text of pieces, with what was read of their numbers in order.
pub open spec fn rendered(p: Seq<Part>, f: Seq<Figure>) -> Seq<char>
    decreases p.len(),
{
    if p.len() == 0 {
        Seq::empty()
    } else {
        let before = p.drop_last();
        rendered(before, f) + worded(p.last(), f[numbers(before).len() as int])
    }
}

/// The numbers that pieces show, in order.
pub fn holes(p: &Vec<Piece>) -> (r: Vec<MsgValue>)
    ensures
        crate::msgpack::models(r@) == numbers(parts(p@)),
{
    let ghost all = parts(p@);
    let mut out: Vec<MsgValue> = Vec::new();
    let mut i: usize = 0;
    assert(all.take(0) =~= Seq::empty());
    assert(crate::msgpack::models(out@) =~= Seq::empty());
    while i < p.len()
        invariant
            i <= p@.len(),
            all == parts(p@),
            crate::msgpack::models(out@) == numbers(all.take(i as int)),
        decreases p@.len() - i,
    {
        assert(all.take(i + 1).drop_last() =~= all.take(i as int));
        assert(all.take(i + 1).last() == p@[i as int]@);
        let ghost before = crate::msgpack::models(out@);
        match &p[i] {
            Piece::Text(_) => {},
            Piece::Duration(m) => {
                out.push(m.copy());
                assert(crate::msgpack::models(out@) =~= before.push(m@));
            },
            Piece::Decimal(m) => {
                out.push(m.copy());
                assert(crate::msgpack::models(out@) =~= before.push(m@));
            },
            Piece::Positive(m, _, _) => {
                out.push(m.copy());
                assert(crate::msgpack::models(out@) =~= before.push(m@));
            },
        }
        i = i + 1;
    }
    assert(all.take(all.len() as int) =~= all);
    out
}

proof fn lemma_numbers_grow(p: Seq<Part>, i: int)
    requires
        0 <= i <= p.len(),
    ensures
        numbers(p.take(i)).len() <= numbers(p).len(),
        i < p.len() && hole(p[i]) is Some ==> numbers(p.take(i)).len() < numbers(p).len(),
    decreases p.len(),
{
    if i < p.len() {
        let q = p.drop_last();
        if i < q.len() {
            lemma_numbers_grow(q, i);
            assert(q.take(i) =~= p.take(i));
        } else {
            assert(p.take(i) =~= q);
        }
    } else {
        assert(p.take(i) =~= p);
    }
}

/// Puts pieces together.
pub fn render(p: &Vec<Piece>, readings: &[Reading]) -> (r: String)
    requires
        numbers(parts(p@)).len() <= readings@.len(),
    ensures
        r@ == rendered(parts(p@), figures(readings@)),
{
    let ghost all = parts(p@);
    let ghost figs = figures(readings@);
    let mut out = String::new();
    let mut i: usize = 0;
    let mut k: usize = 0;
    assert(all.take(0) =~= Seq::empty());
    assert(out@ =~= Seq::empty());
    while i < p.len()
        invariant
            i <= p@.len(),
            all == parts(p@),
            figs == figures(readings@),
            numbers(all).len() <= readings@.len(),
            k == numbers(all.take(i as int)).len(),
            out@ == rendered(all.take(i as int), figs),
        decreases p@.len() - i,
    {
        proof {
            assert(all.take(i + 1).drop_last() =~= all.take(i as int));
            assert(all.take(i + 1).last() == p@[i as int]@);
            lemma_numbers_grow(all, i as int);
        }
        match &p[i] {
            Piece::Text(t) => {
                out.append(t.as_str());
            },
            Piece::Duration(_) => {
                assert(figs[k as int] == readings@[k as int]@);
                let t = pretty_duration(&readings[k]);
                out.append(t.as_str());
                k = k + 1;
            },
            Piece::Decimal(_) => {
                assert(figs[k as int] == readings@[k as int]@);
                out.append(readings[k].decimal.as_str());
                k = k + 1;
            },
            Piece::Positive(_, before, otherwise) => {
                assert(figs[k as int] == readings@[k as int]@);
                if readings[k].positive {
                    let t = pretty_duration(&readings[k]);
                    let u = text::cat(before.as_str(), t.as_str());
                    out.append(u.as_str());
                } else {
                    out.append(otherwise.as_str());
                }
                k = k + 1;
            },
        }
        i = i + 1;
    }
    assert(all.take(all.len() as int) =~= all);
    out
}

// ---------------------------------------------------------------------------
// Building
// ---------------------------------------------------------------------------

/// A duration that may be missing, which counts as none at all.
pub open spec fn duration_part(m: Option<Msg>) -> Part {
    match m {
        Some(m) => Part::Duration(m),
        None => Part::Text("now"@),
    }
}

/// A duration above zero that may be missing.
pub open spec fn positive_part(m: Option<Msg>, before: Seq<char>, otherwise: Seq<char>) -> Part {
    match m {
        Some(m) => Part::Positive(m, before, otherwise),
        None => Part::Text(otherwise),
    }
}

/// A piece for a duration that may be missing.
pub fn duration_piece(m: Option<MsgValue>) -> (r: Piece)
    ensures
        r@ == duration_part(crate::fields::value_view(m)),
{
    match m {
        Some(m) => Piece::Duration(m),
        None => Piece::Text("now".to_owned()),
    }
}

/// A piece for a duration above zero that may be missing.
pub fn positive_piece(m: Option<MsgValue>, before: &str, otherwise: &str) -> (r: Piece)
    ensures
        r@ == positive_part(crate::fields::value_view(m), before@, otherwise@),
{
    match m {
        Some(m) => Piece::Positive(m, before.to_owned(), otherwise.to_owned()),
        None => Piece::Text(otherwise.to_owned()),
    }
}

/// Adds a piece.
pub fn push(p: &mut Vec<Piece>, x: Piece)
    ensures
        parts(final(p)@) == parts(old(p)@).push(x@),
{
    let ghost o = parts(p@);
    p.push(x);
    assert(parts(p@) =~= o.push(x@));
}

/// Adds a piece of plain text.
pub fn push_text(p: &mut Vec<Piece>, t: String)
    ensures
        parts(final(p)@) == parts(old(p)@).push(Part::Text(t@)),
{
    push(p, Piece::Text(t));
}

/// No pieces.
pub fn none() -> (r: Vec<Piece>)
    ensures
        parts(r@) == Seq::<Part>::empty(),
{
    let r: Vec<Piece> = Vec::new();
    assert(parts(r@) =~= Seq::empty());
    r
}

/// `1 hop`, but `2 hops`.
pub open spec fn hops_word(hops: u64) -> Seq<char> {
    if hops == 1 {
        "hop"@
    } else {
        "hops"@
    }
}

/// `1 hop`, but `2 hops`.
pub fn hop_word(hops: u64) -> (r: &'static str)
    ensures
        r@ == hops_word(hops),
{
    if hops == 1 {
        "hop"
    } else {
        "hops"
    }
}

/// An ending for all numbers but one.
pub open spec fn plural(n: u64) -> Seq<char> {
    if n == 1 {
        ""@
    } else {
        "s"@
    }
}

/// An ending for all numbers but one.
pub fn plural_ending(n: u64) -> (r: &'static str)
    ensures
        r@ == plural(n),
{
    if n == 1 {
        ""
    } else {
        "s"
    }
}

} // verus!
