//! Command lines: options by name, with or without values, and one word.
//!
//! A program describes its options; the arguments are then read from left to
//! right into tokens, and the first thing that does not fit is an error.

use vstd::prelude::*;

use crate::digits;
use crate::text;

verus! {

/// What follows an option.
#[derive(Clone, Copy, PartialEq, Eq, Structural, Debug)]
pub enum Kind {
    /// Nothing.
    Flag,
    /// Nothing, and the arguments after it are not read.
    Stop,
    /// A value.
    Text,
    /// A value, unless the next argument starts with `-` or there is none.
    Optional,
    /// All values up to the next argument that starts with `-`.
    Many,
    /// A whole number up to a maximum.
    Number(u64),
    /// A decimal number.
    Decimal,
}

/// An option: its two names, which may be the same, what follows it, and the
/// error where that is not a number as it should be.
pub struct Opt {
    pub short: &'static str,
    pub long: &'static str,
    pub kind: Kind,
    pub bad: &'static str,
}

/// An option over sequences.
pub struct OptRule {
    pub short: Seq<char>,
    pub long: Seq<char>,
    pub kind: Kind,
    pub bad: Seq<char>,
}

impl View for Opt {
    type V = OptRule;

    open spec fn view(&self) -> OptRule {
        OptRule { short: self.short@, long: self.long@, kind: self.kind, bad: self.bad@ }
    }
}

/// An option whose value is not read as a number.
pub open spec fn rule(short: Seq<char>, long: Seq<char>, kind: Kind) -> OptRule {
    OptRule { short, long, kind, bad: ""@ }
}

/// The options of a program, and the texts of its errors.
pub struct Grammar {
    pub opts: Vec<Opt>,
    /// What stands before and after the name of an option without its value.
    pub missing: (&'static str, &'static str),
    /// What stands before an argument that is not known.
    pub unknown: &'static str,
    /// What stands before a second word; no word at all is known without it.
    pub extra: Option<&'static str>,
}

/// The options of a program over sequences.
pub struct Rules {
    pub opts: Seq<OptRule>,
    pub missing: (Seq<char>, Seq<char>),
    pub unknown: Seq<char>,
    pub extra: Option<Seq<char>>,
}

/// The views of options.
pub open spec fn opt_views(v: Seq<Opt>) -> Seq<OptRule> {
    Seq::new(v.len(), |i: int| v[i]@)
}

impl View for Grammar {
    type V = Rules;

    open spec fn view(&self) -> Rules {
        Rules {
            opts: opt_views(self.opts@),
            missing: (self.missing.0@, self.missing.1@),
            unknown: self.unknown@,
            extra: match self.extra {
                Some(s) => Some(s@),
                None => None,
            },
        }
    }
}

/// One thing that was read. An option is known by its long name.
pub enum Token {
    Flag(String),
    Value(String, String),
    Optional(String, Option<String>),
    Many(String, Vec<String>),
    Word(String),
}

/// One thing that was read, over sequences.
pub enum Item {
    Flag(Seq<char>),
    Value(Seq<char>, Seq<char>),
    Optional(Seq<char>, Option<Seq<char>>),
    Many(Seq<char>, Seq<Seq<char>>),
    Word(Seq<char>),
}

/// A text inside an option, over sequences.
pub open spec fn opt_text(o: Option<String>) -> Option<Seq<char>> {
    match o {
        Some(s) => Some(s@),
        None => None,
    }
}

impl View for Token {
    type V = Item;

    open spec fn view(&self) -> Item {
        match self {
            Token::Flag(n) => Item::Flag(n@),
            Token::Value(n, v) => Item::Value(n@, v@),
            Token::Optional(n, v) => Item::Optional(n@, opt_text(*v)),
            Token::Many(n, v) => Item::Many(n@, text::views(v@)),
            Token::Word(w) => Item::Word(w@),
        }
    }
}

/// The views of tokens.
pub open spec fn items(v: Seq<Token>) -> Seq<Item> {
    Seq::new(v.len(), |i: int| v[i]@)
}

/// The first option with a name.
pub open spec fn find_opt(opts: Seq<OptRule>, name: Seq<char>) -> Option<OptRule>
    decreases opts.len(),
{
    if opts.len() == 0 {
        None
    } else if opts[0].short == name || opts[0].long == name {
        Some(opts[0])
    } else {
        find_opt(opts.skip(1), name)
    }
}

/// An argument that starts with `-`.
pub open spec fn dashed(a: Seq<char>) -> bool {
    a.len() > 0 && a[0] == '-'
}

/// How many arguments stand before the next that starts with `-`.
pub open spec fn run_length(args: Seq<Seq<char>>) -> nat
    decreases args.len(),
{
    if args.len() == 0 || dashed(args[0]) {
        0
    } else {
        1 + run_length(args.skip(1))
    }
}

/// A run is no longer than the arguments.
pub proof fn lemma_run_length(args: Seq<Seq<char>>)
    ensures
        run_length(args) <= args.len(),
    decreases args.len(),
{
    if args.len() > 0 && !dashed(args[0]) {
        lemma_run_length(args.skip(1));
    }
}

/// The value is a number as the option wants it.
pub open spec fn value_fits(kind: Kind, v: Seq<char>) -> bool {
    match kind {
        Kind::Number(max) => digits::unsigned(v, max as nat) is Some,
        Kind::Decimal => digits::decimal_text(v),
        _ => true,
    }
}

/// A word was read.
pub open spec fn has_word(ts: Seq<Item>) -> bool {
    exists|i: int| 0 <= i < ts.len() && (#[trigger] ts[i]) is Word
}

/// The tokens of the arguments, after those that were read before.
pub open spec fn scanned(args: Seq<Seq<char>>, g: Rules, ts: Seq<Item>) -> Result<
    Seq<Item>,
    Seq<char>,
>
    decreases args.len(),
{
    if args.len() == 0 {
        Ok(ts)
    } else {
        let a = args[0];
        match find_opt(g.opts, a) {
            Some(o) => match o.kind {
                Kind::Flag => scanned(args.skip(1), g, ts.push(Item::Flag(o.long))),
                Kind::Stop => Ok(ts.push(Item::Flag(o.long))),
                Kind::Optional => if args.len() > 1 && !dashed(args[1]) {
                    scanned(args.skip(2), g, ts.push(Item::Optional(o.long, Some(args[1]))))
                } else {
                    scanned(args.skip(1), g, ts.push(Item::Optional(o.long, None)))
                },
                Kind::Many => {
                    proof {
                        lemma_run_length(args.skip(1));
                    }
                    let n = run_length(args.skip(1)) as int;
                    scanned(
                        args.skip(1 + n),
                        g,
                        ts.push(Item::Many(o.long, args.skip(1).take(n))),
                    )
                },
                _ => if args.len() == 1 {
                    Err(g.missing.0 + a + g.missing.1)
                } else if !value_fits(o.kind, args[1]) {
                    Err(o.bad)
                } else {
                    scanned(args.skip(2), g, ts.push(Item::Value(o.long, args[1])))
                },
            },
            None => if dashed(a) || g.extra is None {
                Err(g.unknown + a)
            } else if has_word(ts) {
                Err(g.extra->0 + a)
            } else {
                scanned(args.skip(1), g, ts.push(Item::Word(a)))
            },
        }
    }
}

// ---------------------------------------------------------------------------
// Asking tokens
// ---------------------------------------------------------------------------

/// How often an option without a value was given.
pub open spec fn count(ts: Seq<Item>, name: Seq<char>) -> nat
    decreases ts.len(),
{
    if ts.len() == 0 {
        0
    } else {
        count(ts.drop_last(), name) + if ts.last() == Item::Flag(name) {
            1nat
        } else {
            0nat
        }
    }
}

/// The value that an option was given last.
pub open spec fn last_value(ts: Seq<Item>, name: Seq<char>) -> Option<Seq<char>>
    decreases ts.len(),
{
    if ts.len() == 0 {
        None
    } else {
        match ts.last() {
            Item::Value(n, v) => if n == name {
                Some(v)
            } else {
                last_value(ts.drop_last(), name)
            },
            _ => last_value(ts.drop_last(), name),
        }
    }
}

/// All values that an option was given.
pub open spec fn all_values(ts: Seq<Item>, name: Seq<char>) -> Seq<Seq<char>>
    decreases ts.len(),
{
    if ts.len() == 0 {
        Seq::empty()
    } else {
        let before = all_values(ts.drop_last(), name);
        match ts.last() {
            Item::Value(n, v) => if n == name {
                before.push(v)
            } else {
                before
            },
            _ => before,
        }
    }
}

/// The value that an option with an optional value was given last.
pub open spec fn last_optional(ts: Seq<Item>, name: Seq<char>) -> Option<Option<Seq<char>>>
    decreases ts.len(),
{
    if ts.len() == 0 {
        None
    } else {
        match ts.last() {
            Item::Optional(n, v) => if n == name {
                Some(v)
            } else {
                last_optional(ts.drop_last(), name)
            },
            _ => last_optional(ts.drop_last(), name),
        }
    }
}

/// The values that an option with many values was given last.
pub open spec fn last_many(ts: Seq<Item>, name: Seq<char>) -> Option<Seq<Seq<char>>>
    decreases ts.len(),
{
    if ts.len() == 0 {
        None
    } else {
        match ts.last() {
            Item::Many(n, v) => if n == name {
                Some(v)
            } else {
                last_many(ts.drop_last(), name)
            },
            _ => last_many(ts.drop_last(), name),
        }
    }
}

/// The last word that was read.
pub open spec fn last_word(ts: Seq<Item>) -> Option<Seq<char>>
    decreases ts.len(),
{
    if ts.len() == 0 {
        None
    } else {
        match ts.last() {
            Item::Word(w) => Some(w),
            _ => last_word(ts.drop_last()),
        }
    }
}

// ---------------------------------------------------------------------------
// Executable functions
// ---------------------------------------------------------------------------

/// An option.
pub fn opt(short: &'static str, long: &'static str, kind: Kind, bad: &'static str) -> (r: Opt)
    ensures
        r@ == (OptRule { short: short@, long: long@, kind, bad: bad@ }),
{
    Opt { short, long, kind, bad }
}

fn find<'a>(opts: &'a Vec<Opt>, name: &str) -> (r: Option<&'a Opt>)
    ensures
        match r {
            Some(o) => find_opt(opt_views(opts@), name@) == Some(o@),
            None => find_opt(opt_views(opts@), name@) is None,
        },
{
    let ghost all = opt_views(opts@);
    let mut i: usize = 0;
    assert(all.skip(0) =~= all);
    while i < opts.len()
        invariant
            i <= opts@.len(),
            all == opt_views(opts@),
            find_opt(all.skip(i as int), name@) == find_opt(all, name@),
        decreases opts@.len() - i,
    {
        assert(all.skip(i as int)[0] == opts@[i as int]@);
        assert(all.skip(i as int).skip(1) =~= all.skip(i + 1));
        if text::same(opts[i].short, name) || text::same(opts[i].long, name) {
            return Some(&opts[i]);
        }
        i = i + 1;
    }
    None
}

fn is_dashed(a: &str) -> (r: bool)
    ensures
        r == dashed(a@),
{
    let v = text::chars(a);
    v.len() > 0 && v[0] == '-'
}

fn word_among(ts: &Vec<Token>) -> (r: bool)
    ensures
        r == has_word(items(ts@)),
{
    let mut i: usize = 0;
    while i < ts.len()
        invariant
            i <= ts@.len(),
            forall|j: int| 0 <= j < i ==> !((#[trigger] items(ts@)[j]) is Word),
        decreases ts@.len() - i,
    {
        assert(items(ts@)[i as int] == ts@[i as int]@);
        if let Token::Word(_) = &ts[i] {
            assert(items(ts@)[i as int] is Word);
            return true;
        }
        i = i + 1;
    }
    false
}

fn fits(kind: Kind, v: &str) -> (r: bool)
    ensures
        r == value_fits(kind, v@),
{
    match kind {
        Kind::Number(max) => digits::parse_unsigned(v, max).is_some(),
        Kind::Decimal => digits::is_decimal(v),
        _ => true,
    }
}

fn push_token(ts: &mut Vec<Token>, t: Token)
    ensures
        items(final(ts)@) == items(old(ts)@).push(t@),
{
    let ghost before = items(ts@);
    ts.push(t);
    assert(items(ts@) =~= before.push(t@));
}

fn gather(args: &[String], from: usize) -> (r: Vec<String>)
    requires
        from <= args@.len(),
    ensures
        r@.len() == run_length(text::views(args@).skip(from as int)),
        r@.len() <= args@.len() - from,
        text::views(r@) == text::views(args@).skip(from as int).take(r@.len() as int),
{
    let ghost all = text::views(args@);
    let mut out: Vec<String> = Vec::new();
    let mut i: usize = from;
    while i < args.len() && !is_dashed(args[i].as_str())
        invariant
            from <= i <= args@.len(),
            all == text::views(args@),
            out@.len() == i - from,
            forall|j: int| 0 <= j < out@.len() ==> (#[trigger] out@[j])@ == all[from + j],
            run_length(all.skip(from as int)) == (i - from) + run_length(all.skip(i as int)),
        decreases args@.len() - i,
    {
        assert(all.skip(i as int)[0] == args@[i as int]@);
        assert(all.skip(i as int).skip(1) =~= all.skip(i + 1));
        out.push(args[i].clone());
        i = i + 1;
    }
    proof {
        if i < args@.len() {
            assert(all.skip(i as int)[0] == args@[i as int]@);
        }
    }
    assert(text::views(out@) =~= all.skip(from as int).take(out@.len() as int));
    out
}

/// Reads arguments into tokens.
pub fn scan(args: &[String], g: &Grammar) -> (r: Result<Vec<Token>, String>)
    ensures
        match r {
            Ok(ts) => scanned(text::views(args@), g@, Seq::empty()) == Ok::<_, Seq<char>>(
                items(ts@),
            ),
            Err(e) => scanned(text::views(args@), g@, Seq::empty()) == Err::<Seq<Item>, _>(e@),
        },
{
    let ghost all = text::views(args@);
    let ghost goal = scanned(all, g@, Seq::empty());
    let n: usize = args.len();
    let mut ts: Vec<Token> = Vec::new();
    let mut i: usize = 0;
    assert(all.skip(0) =~= all);
    assert(items(ts@) =~= Seq::empty());
    while i < n
        invariant
            i <= n == args@.len(),
            all == text::views(args@),
            goal == scanned(all, g@, Seq::empty()),
            scanned(all.skip(i as int), g@, items(ts@)) == goal,
        decreases n - i,
    {
        let ghost rest = all.skip(i as int);
        assert(rest[0] == args@[i as int]@);
        assert(rest.skip(1) =~= all.skip(i + 1));
        let a = args[i].as_str();
        match find(&g.opts, a) {
            Some(o) => {
                let name = o.long.to_owned();
                match o.kind {
                    Kind::Flag => {
                        push_token(&mut ts, Token::Flag(name));
                        i = i + 1;
                    },
                    Kind::Stop => {
                        push_token(&mut ts, Token::Flag(name));
                        return Ok(ts);
                    },
                    Kind::Optional => {
                        if n - i > 1 && !is_dashed(args[i + 1].as_str()) {
                            assert(rest[1] == args@[i + 1]@);
                            assert(rest.skip(2) =~= all.skip(i + 2));
                            push_token(&mut ts, Token::Optional(name, Some(args[i + 1].clone())));
                            i = i + 2;
                        } else {
                            proof {
                                if n - i > 1 {
                                    assert(rest[1] == args@[i + 1]@);
                                }
                            }
                            push_token(&mut ts, Token::Optional(name, None));
                            i = i + 1;
                        }
                    },
                    Kind::Many => {
                        let many = gather(args, i + 1);
                        let k: usize = many.len();
                        assert(rest.skip(1 + k as int) =~= all.skip(i + 1 + k as int));
                        push_token(&mut ts, Token::Many(name, many));
                        i = i + 1 + k;
                    },
                    _ => {
                        if n - i == 1 {
                            return Err(text::cat3(g.missing.0, a, g.missing.1));
                        }
                        assert(rest[1] == args@[i + 1]@);
                        assert(rest.skip(2) =~= all.skip(i + 2));
                        if !fits(o.kind, args[i + 1].as_str()) {
                            return Err(o.bad.to_owned());
                        }
                        push_token(&mut ts, Token::Value(name, args[i + 1].clone()));
                        i = i + 2;
                    },
                }
            },
            None => {
                let extra = match g.extra {
                    Some(e) => e,
                    None => {
                        return Err(text::cat(g.unknown, a));
                    },
                };
                if is_dashed(a) {
                    return Err(text::cat(g.unknown, a));
                }
                if word_among(&ts) {
                    return Err(text::cat(extra, a));
                }
                push_token(&mut ts, Token::Word(a.to_owned()));
                i = i + 1;
            },
        }
    }
    assert(all.skip(i as int) =~= Seq::empty());
    Ok(ts)
}

/// How often an option without a value was given.
pub fn count_of(ts: &Vec<Token>, name: &str) -> (r: usize)
    ensures
        r == count(items(ts@), name@),
        r <= ts@.len(),
{
    let ghost all = items(ts@);
    let mut n: usize = 0;
    let mut i: usize = 0;
    assert(all.take(0) =~= Seq::empty());
    while i < ts.len()
        invariant
            i <= ts@.len(),
            n <= i,
            all == items(ts@),
            n == count(all.take(i as int), name@),
        decreases ts@.len() - i,
    {
        assert(all.take(i + 1).drop_last() =~= all.take(i as int));
        assert(all.take(i + 1).last() == ts@[i as int]@);
        if let Token::Flag(f) = &ts[i] {
            if text::same(f.as_str(), name) {
                n = n + 1;
            }
        }
        i = i + 1;
    }
    assert(all.take(all.len() as int) =~= all);
    n
}

/// Whether an option without a value was given.
pub fn has(ts: &Vec<Token>, name: &str) -> (r: bool)
    ensures
        r == (count(items(ts@), name@) > 0),
{
    count_of(ts, name) > 0
}

/// The value that an option was given last.
pub fn value_of(ts: &Vec<Token>, name: &str) -> (r: Option<String>)
    ensures
        opt_text(r) == last_value(items(ts@), name@),
{
    let ghost all = items(ts@);
    let mut i: usize = ts.len();
    assert(all.take(all.len() as int) =~= all);
    while i > 0
        invariant
            i <= ts@.len(),
            all == items(ts@),
            last_value(all.take(i as int), name@) == last_value(all, name@),
        decreases i,
    {
        i = i - 1;
        assert(all.take(i + 1).drop_last() =~= all.take(i as int));
        assert(all.take(i + 1).last() == ts@[i as int]@);
        if let Token::Value(n, v) = &ts[i] {
            if text::same(n.as_str(), name) {
                return Some(v.clone());
            }
        }
    }
    None
}

/// All values that an option was given.
pub fn values_of(ts: &Vec<Token>, name: &str) -> (r: Vec<String>)
    ensures
        text::views(r@) == all_values(items(ts@), name@),
{
    let ghost all = items(ts@);
    let mut out: Vec<String> = Vec::new();
    let mut i: usize = 0;
    assert(all.take(0) =~= Seq::empty());
    assert(text::views(out@) =~= Seq::empty());
    while i < ts.len()
        invariant
            i <= ts@.len(),
            all == items(ts@),
            text::views(out@) == all_values(all.take(i as int), name@),
        decreases ts@.len() - i,
    {
        assert(all.take(i + 1).drop_last() =~= all.take(i as int));
        assert(all.take(i + 1).last() == ts@[i as int]@);
        if let Token::Value(n, v) = &ts[i] {
            if text::same(n.as_str(), name) {
                let ghost before = text::views(out@);
                out.push(v.clone());
                assert(text::views(out@) =~= before.push(v@));
            }
        }
        i = i + 1;
    }
    assert(all.take(all.len() as int) =~= all);
    out
}

/// The value that an option with an optional value was given last.
pub fn optional_of(ts: &Vec<Token>, name: &str) -> (r: Option<Option<String>>)
    ensures
        match r {
            Some(v) => last_optional(items(ts@), name@) == Some(opt_text(v)),
            None => last_optional(items(ts@), name@) is None,
        },
{
    let ghost all = items(ts@);
    let mut i: usize = ts.len();
    assert(all.take(all.len() as int) =~= all);
    while i > 0
        invariant
            i <= ts@.len(),
            all == items(ts@),
            last_optional(all.take(i as int), name@) == last_optional(all, name@),
        decreases i,
    {
        i = i - 1;
        assert(all.take(i + 1).drop_last() =~= all.take(i as int));
        assert(all.take(i + 1).last() == ts@[i as int]@);
        if let Token::Optional(n, v) = &ts[i] {
            if text::same(n.as_str(), name) {
                return match v {
                    Some(s) => Some(Some(s.clone())),
                    None => Some(None),
                };
            }
        }
    }
    None
}

/// The values that an option with many values was given last.
pub fn many_of(ts: &Vec<Token>, name: &str) -> (r: Option<Vec<String>>)
    ensures
        match r {
            Some(v) => last_many(items(ts@), name@) == Some(text::views(v@)),
            None => last_many(items(ts@), name@) is None,
        },
{
    let ghost all = items(ts@);
    let mut i: usize = ts.len();
    assert(all.take(all.len() as int) =~= all);
    while i > 0
        invariant
            i <= ts@.len(),
            all == items(ts@),
            last_many(all.take(i as int), name@) == last_many(all, name@),
        decreases i,
    {
        i = i - 1;
        assert(all.take(i + 1).drop_last() =~= all.take(i as int));
        assert(all.take(i + 1).last() == ts@[i as int]@);
        if let Token::Many(n, v) = &ts[i] {
            if text::same(n.as_str(), name) {
                let mut out: Vec<String> = Vec::new();
                assert(text::views(out@) =~= Seq::empty());
                crate::gitutil::extend(&mut out, v.as_slice());
                assert(text::views(out@) =~= text::views(v@));
                return Some(out);
            }
        }
    }
    None
}

/// The last word that was read.
pub fn word_of(ts: &Vec<Token>) -> (r: Option<String>)
    ensures
        opt_text(r) == last_word(items(ts@)),
{
    let ghost all = items(ts@);
    let mut i: usize = ts.len();
    assert(all.take(all.len() as int) =~= all);
    while i > 0
        invariant
            i <= ts@.len(),
            all == items(ts@),
            last_word(all.take(i as int)) == last_word(all),
        decreases i,
    {
        i = i - 1;
        assert(all.take(i + 1).drop_last() =~= all.take(i as int));
        assert(all.take(i + 1).last() == ts@[i as int]@);
        if let Token::Word(w) = &ts[i] {
            return Some(w.clone());
        }
    }
    None
}

/// A number inside an option, over naturals.
pub open spec fn number_view(o: Option<u64>) -> Option<nat> {
    match o {
        Some(n) => Some(n as nat),
        None => None,
    }
}

/// The number that an option was given last.
pub open spec fn last_number(ts: Seq<Item>, name: Seq<char>, max: nat) -> Option<nat> {
    match last_value(ts, name) {
        Some(v) => digits::unsigned(v, max),
        None => None,
    }
}

/// The number that an option was given last.
pub fn number_of(ts: &Vec<Token>, name: &str, max: u64) -> (r: Option<u64>)
    ensures
        number_view(r) == last_number(items(ts@), name@, max as nat),
{
    match value_of(ts, name) {
        Some(v) => digits::parse_unsigned(v.as_str(), max),
        None => None,
    }
}

// ---------------------------------------------------------------------------
// What command lines mean
// ---------------------------------------------------------------------------

/// The argument names the option in place `i`, and none before it.
pub open spec fn names_option(opts: Seq<OptRule>, name: Seq<char>, i: int) -> bool {
    &&& 0 <= i < opts.len()
    &&& name == opts[i].short || name == opts[i].long
    &&& forall|j: int| 0 <= j < i ==> (#[trigger] opts[j]).short != name && opts[j].long != name
}

/// An option is found by its short name and by its long name.
pub proof fn law_option_is_found_by_its_names(opts: Seq<OptRule>, name: Seq<char>, i: int)
    requires
        names_option(opts, name, i),
    ensures
        find_opt(opts, name) == Some(opts[i]),
    decreases i,
{
    if i > 0 {
        assert(opts[0].short != name);
        let rest = opts.skip(1);
        assert(rest[i - 1] == opts[i]);
        assert forall|j: int| 0 <= j < i - 1 implies (#[trigger] rest[j]).short != name
            && rest[j].long != name by {
            assert(rest[j] == opts[j + 1]);
        }
        law_option_is_found_by_its_names(rest, name, i - 1);
    }
}

/// A name that no option has is no option's.
pub proof fn law_other_names_are_no_option(opts: Seq<OptRule>, name: Seq<char>)
    requires
        forall|j: int|
            0 <= j < opts.len() ==> (#[trigger] opts[j]).short != name && opts[j].long != name,
    ensures
        find_opt(opts, name) is None,
    decreases opts.len(),
{
    if opts.len() > 0 {
        assert(opts[0].short != name);
        let rest = opts.skip(1);
        assert forall|j: int| 0 <= j < rest.len() implies (#[trigger] rest[j]).short != name
            && rest[j].long != name by {
            assert(rest[j] == opts[j + 1]);
        }
        law_other_names_are_no_option(rest, name);
    }
}

/// Under either of its names a flag takes nothing with it: what follows is read
/// as if it stood alone, and the flag is known by its long name.
pub proof fn law_flag_takes_nothing(
    name: Seq<char>,
    rest: Seq<Seq<char>>,
    g: Rules,
    ts: Seq<Item>,
    i: int,
)
    requires
        names_option(g.opts, name, i),
        g.opts[i].kind == Kind::Flag,
    ensures
        scanned(seq![name] + rest, g, ts) == scanned(rest, g, ts.push(Item::Flag(g.opts[i].long))),
{
    law_option_is_found_by_its_names(g.opts, name, i);
    assert((seq![name] + rest).skip(1) =~= rest);
}

/// After an option that stops, nothing is read, whatever it is.
pub proof fn law_nothing_is_read_after_a_stop(
    name: Seq<char>,
    rest: Seq<Seq<char>>,
    g: Rules,
    ts: Seq<Item>,
    i: int,
)
    requires
        names_option(g.opts, name, i),
        g.opts[i].kind == Kind::Stop,
    ensures
        scanned(seq![name] + rest, g, ts) == Ok::<Seq<Item>, Seq<char>>(
            ts.push(Item::Flag(g.opts[i].long)),
        ),
{
    law_option_is_found_by_its_names(g.opts, name, i);
}

/// An option with a value takes the next argument, even one that starts with
/// `-`, and it is an error that there is none.
pub proof fn law_value_is_the_next_argument(
    name: Seq<char>,
    value: Seq<char>,
    rest: Seq<Seq<char>>,
    g: Rules,
    ts: Seq<Item>,
    i: int,
)
    requires
        names_option(g.opts, name, i),
        g.opts[i].kind == Kind::Text,
    ensures
        scanned(seq![name, value] + rest, g, ts) == scanned(
            rest,
            g,
            ts.push(Item::Value(g.opts[i].long, value)),
        ),
        scanned(seq![name], g, ts) == Err::<Seq<Item>, Seq<char>>(
            g.missing.0 + name + g.missing.1,
        ),
{
    law_option_is_found_by_its_names(g.opts, name, i);
    assert((seq![name, value] + rest).skip(2) =~= rest);
}

/// A number is taken where it is one up to the maximum, and refused with the
/// option's own words where it is not.
pub proof fn law_numbers_are_checked(
    name: Seq<char>,
    value: Seq<char>,
    rest: Seq<Seq<char>>,
    g: Rules,
    ts: Seq<Item>,
    i: int,
    n: nat,
)
    requires
        names_option(g.opts, name, i),
        g.opts[i].kind is Number,
    ensures
        n <= g.opts[i].kind->Number_0 ==> scanned(seq![name, digits::dec(n)] + rest, g, ts)
            == scanned(rest, g, ts.push(Item::Value(g.opts[i].long, digits::dec(n)))),
        value.len() == 0 || (exists|k: int|
            0 < k < value.len() && !digits::is_digit(#[trigger] value[k])) ==> scanned(
            seq![name, value] + rest,
            g,
            ts,
        ) == Err::<Seq<Item>, Seq<char>>(g.opts[i].bad),
{
    law_option_is_found_by_its_names(g.opts, name, i);
    assert((seq![name, value] + rest).skip(2) =~= rest);
    let d = digits::dec(n);
    assert((seq![name, d] + rest).skip(2) =~= rest);
    let max = g.opts[i].kind->Number_0 as nat;
    if n <= max {
        digits::law_decimal_round_trip(n, max);
    }
    if exists|k: int| 0 < k < value.len() && !digits::is_digit(#[trigger] value[k]) {
        let k = choose|k: int| 0 < k < value.len() && !digits::is_digit(#[trigger] value[k]);
        let u = digits::unsigned_part(value);
        if u == value {
            assert(!digits::is_digit(u[k]));
        } else {
            assert(!digits::is_digit(u[k - 1]));
        }
    }
}

/// An option whose value may be left out takes the next argument where that
/// does not start with `-`.
pub proof fn law_optional_value_is_no_option(
    name: Seq<char>,
    value: Seq<char>,
    rest: Seq<Seq<char>>,
    g: Rules,
    ts: Seq<Item>,
    i: int,
)
    requires
        names_option(g.opts, name, i),
        g.opts[i].kind == Kind::Optional,
    ensures
        value.len() == 0 || value[0] != '-' ==> scanned(seq![name, value] + rest, g, ts) == scanned(
            rest,
            g,
            ts.push(Item::Optional(g.opts[i].long, Some(value))),
        ),
        value.len() > 0 && value[0] == '-' ==> scanned(seq![name, value] + rest, g, ts) == scanned(
            seq![value] + rest,
            g,
            ts.push(Item::Optional(g.opts[i].long, None)),
        ),
        scanned(seq![name], g, ts) == Ok::<Seq<Item>, Seq<char>>(
            ts.push(Item::Optional(g.opts[i].long, None)),
        ),
{
    law_option_is_found_by_its_names(g.opts, name, i);
    assert((seq![name, value] + rest).skip(2) =~= rest);
    assert((seq![name, value] + rest).skip(1) =~= seq![value] + rest);
    let none = seq![name].skip(1);
    assert(none.len() == 0);
    assert(scanned(none, g, ts.push(Item::Optional(g.opts[i].long, None))) is Ok);
}

/// An option with many values takes every argument up to the next that starts
/// with `-`, and no more.
pub proof fn law_many_values_end_at_an_option(
    name: Seq<char>,
    values: Seq<Seq<char>>,
    rest: Seq<Seq<char>>,
    g: Rules,
    ts: Seq<Item>,
    i: int,
)
    requires
        names_option(g.opts, name, i),
        g.opts[i].kind == Kind::Many,
        forall|k: int|
            0 <= k < values.len() ==> (#[trigger] values[k]).len() == 0 || values[k][0] != '-',
        rest.len() == 0 || (rest[0].len() > 0 && rest[0][0] == '-'),
    ensures
        scanned(seq![name] + values + rest, g, ts) == scanned(
            rest,
            g,
            ts.push(Item::Many(g.opts[i].long, values)),
        ),
{
    law_option_is_found_by_its_names(g.opts, name, i);
    let args = seq![name] + values + rest;
    assert(args.skip(1) =~= values + rest);
    lemma_run_ends(values, rest);
    let n = values.len() as int;
    assert(args.skip(1 + n) =~= rest);
    assert(args.skip(1).take(n) =~= values);
}

proof fn lemma_run_ends(values: Seq<Seq<char>>, rest: Seq<Seq<char>>)
    requires
        forall|k: int|
            0 <= k < values.len() ==> (#[trigger] values[k]).len() == 0 || values[k][0] != '-',
        rest.len() == 0 || (rest[0].len() > 0 && rest[0][0] == '-'),
    ensures
        run_length(values + rest) == values.len(),
    decreases values.len(),
{
    if values.len() == 0 {
        assert(values + rest =~= rest);
    } else {
        let tail = values.skip(1);
        assert((values + rest)[0] == values[0]);
        assert((values + rest).skip(1) =~= tail + rest);
        assert forall|k: int| 0 <= k < tail.len() implies (#[trigger] tail[k]).len() == 0
            || tail[k][0] != '-' by {
            assert(tail[k] == values[k + 1]);
        }
        lemma_run_ends(tail, rest);
    }
}

/// An argument that starts with `-` and names no option is an error; another is
/// the program's one word, and a second word is an error.
pub proof fn law_other_arguments_are_words(
    word: Seq<char>,
    rest: Seq<Seq<char>>,
    g: Rules,
    ts: Seq<Item>,
)
    requires
        forall|j: int|
            0 <= j < g.opts.len() ==> (#[trigger] g.opts[j]).short != word && g.opts[j].long
                != word,
    ensures
        word.len() > 0 && word[0] == '-' ==> scanned(seq![word] + rest, g, ts) == Err::<
            Seq<Item>,
            Seq<char>,
        >(g.unknown + word),
        g.extra is None ==> scanned(seq![word] + rest, g, ts) == Err::<Seq<Item>, Seq<char>>(
            g.unknown + word,
        ),
        g.extra is Some && (word.len() == 0 || word[0] != '-') && (forall|k: int|
            0 <= k < ts.len() ==> !((#[trigger] ts[k]) is Word)) ==> scanned(
            seq![word] + rest,
            g,
            ts,
        ) == scanned(rest, g, ts.push(Item::Word(word))),
        forall|k: int|
            g.extra is Some && (word.len() == 0 || word[0] != '-') && 0 <= k < ts.len() && (
            #[trigger] ts[k]) is Word ==> scanned(seq![word] + rest, g, ts) == Err::<
                Seq<Item>,
                Seq<char>,
            >(g.extra->0 + word),
{
    law_other_names_are_no_option(g.opts, word);
    assert((seq![word] + rest).skip(1) =~= rest);
}

/// What was read stays read, in its order: the arguments that follow only add.
pub proof fn law_tokens_are_kept(args: Seq<Seq<char>>, g: Rules, ts: Seq<Item>)
    ensures
        scanned(args, g, ts) matches Ok(all) ==> ts.is_prefix_of(all),
    decreases args.len(),
{
    if args.len() > 0 {
        lemma_run_length(args.skip(1));
        match find_opt(g.opts, args[0]) {
            Some(o) => {
                let n = run_length(args.skip(1)) as int;
                law_tokens_are_kept(args.skip(1), g, ts.push(Item::Flag(o.long)));
                law_tokens_are_kept(args.skip(1), g, ts.push(Item::Optional(o.long, None)));
                law_tokens_are_kept(
                    args.skip(1 + n),
                    g,
                    ts.push(Item::Many(o.long, args.skip(1).take(n))),
                );
                if args.len() > 1 {
                    law_tokens_are_kept(
                        args.skip(2),
                        g,
                        ts.push(Item::Optional(o.long, Some(args[1]))),
                    );
                    law_tokens_are_kept(args.skip(2), g, ts.push(Item::Value(o.long, args[1])));
                }
            },
            None => {
                law_tokens_are_kept(args.skip(1), g, ts.push(Item::Word(args[0])));
            },
        }
    }
}

/// A flag counts once more each time that it is given, and no other does.
pub proof fn law_flags_are_counted(ts: Seq<Item>, name: Seq<char>, t: Item)
    ensures
        count(Seq::<Item>::empty(), name) == 0,
        count(ts.push(Item::Flag(name)), name) == count(ts, name) + 1,
        t != Item::Flag(name) ==> count(ts.push(t), name) == count(ts, name),
{
    assert(ts.push(Item::Flag(name)).drop_last() =~= ts);
    assert(ts.push(t).drop_last() =~= ts);
}

/// The value that is given last holds, all values are kept in their order, and
/// what is given to other options changes nothing.
pub proof fn law_last_value_holds(
    ts: Seq<Item>,
    name: Seq<char>,
    value: Seq<char>,
    optional: Option<Seq<char>>,
    many: Seq<Seq<char>>,
    t: Item,
)
    ensures
        last_value(ts.push(Item::Value(name, value)), name) == Some(value),
        all_values(ts.push(Item::Value(name, value)), name) == all_values(ts, name).push(value),
        last_optional(ts.push(Item::Optional(name, optional)), name) == Some(optional),
        last_many(ts.push(Item::Many(name, many)), name) == Some(many),
        last_word(ts.push(Item::Word(value))) == Some(value),
        !(t is Value && t->Value_0 == name) ==> last_value(ts.push(t), name) == last_value(ts, name)
            && all_values(ts.push(t), name) == all_values(ts, name),
        !(t is Optional && t->Optional_0 == name) ==> last_optional(ts.push(t), name)
            == last_optional(ts, name),
        !(t is Many && t->Many_0 == name) ==> last_many(ts.push(t), name) == last_many(ts, name),
        !(t is Word) ==> last_word(ts.push(t)) == last_word(ts),
        last_value(Seq::<Item>::empty(), name) is None,
        all_values(Seq::<Item>::empty(), name).len() == 0,
        last_optional(Seq::<Item>::empty(), name) is None,
        last_many(Seq::<Item>::empty(), name) is None,
        last_word(Seq::<Item>::empty()) is None,
{
    assert(ts.push(Item::Value(name, value)).drop_last() =~= ts);
    assert(ts.push(t).drop_last() =~= ts);
}

} // verus!
