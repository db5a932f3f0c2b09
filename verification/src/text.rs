//! Text as sequences of characters: searching, splitting, trimming, joining.
//!
//! The specification functions speak of `Seq<char>`; each executable function
//! states its result by one of them.

use vstd::prelude::*;

verus! {

/// `String::push` appends the character to the end of the string.
pub assume_specification[ String::push ](s: &mut String, c: char)
    ensures
        final(s)@ == old(s)@.push(c),
;

// ---------------------------------------------------------------------------
// Specification
// ---------------------------------------------------------------------------

/// The characters with the Unicode property `White_Space`.
pub open spec fn white(c: char) -> bool {
    ||| '\u{9}' <= c <= '\u{d}'
    ||| c == '\u{20}'
    ||| c == '\u{85}'
    ||| c == '\u{a0}'
    ||| c == '\u{1680}'
    ||| '\u{2000}' <= c <= '\u{200a}'
    ||| c == '\u{2028}'
    ||| c == '\u{2029}'
    ||| c == '\u{202f}'
    ||| c == '\u{205f}'
    ||| c == '\u{3000}'
}

/// `s` without its leading white space.
pub open spec fn trimmed_start(s: Seq<char>) -> Seq<char>
    decreases s.len(),
{
    if s.len() > 0 && white(s[0]) {
        trimmed_start(s.skip(1))
    } else {
        s
    }
}

/// `s` without its trailing white space.
pub open spec fn trimmed_end(s: Seq<char>) -> Seq<char>
    decreases s.len(),
{
    if s.len() > 0 && white(s.last()) {
        trimmed_end(s.drop_last())
    } else {
        s
    }
}

/// `s` without white space at either end.
pub open spec fn trimmed(s: Seq<char>) -> Seq<char> {
    trimmed_end(trimmed_start(s))
}

/// The position of the first `c` in `s`.
pub open spec fn first_of(s: Seq<char>, c: char) -> Option<int>
    decreases s.len(),
{
    if s.len() == 0 {
        None
    } else if s[0] == c {
        Some(0)
    } else {
        match first_of(s.skip(1), c) {
            Some(i) => Some(i + 1),
            None => None,
        }
    }
}

/// The position of the last `c` in `s`.
pub open spec fn last_of(s: Seq<char>, c: char) -> Option<int>
    decreases s.len(),
{
    if s.len() == 0 {
        None
    } else if s.last() == c {
        Some(s.len() - 1)
    } else {
        last_of(s.drop_last(), c)
    }
}

/// What stands before and after the first `c`.
pub open spec fn halves(s: Seq<char>, c: char) -> Option<(Seq<char>, Seq<char>)> {
    match first_of(s, c) {
        Some(i) => Some((s.take(i), s.skip(i + 1))),
        None => None,
    }
}

/// The pieces of `s` between the occurrences of `c`; there is at least one.
pub open spec fn pieces(s: Seq<char>, c: char) -> Seq<Seq<char>>
    decreases s.len(),
    via pieces_decreases
{
    match first_of(s, c) {
        Some(i) => seq![s.take(i)] + pieces(s.skip(i + 1), c),
        None => seq![s],
    }
}

/// A line without the carriage return before its line feed.
pub open spec fn without_return(s: Seq<char>) -> Seq<char> {
    if s.len() > 0 && s.last() == '\r' {
        s.drop_last()
    } else {
        s
    }
}

/// The lines of `s`. A line ends in a line feed or in a carriage return and a
/// line feed; the end of the last line is optional.
pub open spec fn rows(s: Seq<char>) -> Seq<Seq<char>>
    decreases s.len(),
    via rows_decreases
{
    if s.len() == 0 {
        Seq::empty()
    } else {
        match first_of(s, '\n') {
            Some(i) => seq![without_return(s.take(i))] + rows(s.skip(i + 1)),
            None => seq![s],
        }
    }
}

/// `p` stands at the start of `s`.
pub open spec fn begins(s: Seq<char>, p: Seq<char>) -> bool {
    p.len() <= s.len() && s.take(p.len() as int) == p
}

/// `p` stands at the end of `s`.
pub open spec fn ends(s: Seq<char>, p: Seq<char>) -> bool {
    p.len() <= s.len() && s.skip(s.len() - p.len()) == p
}

/// What follows the prefix `p`, where `s` has it.
pub open spec fn after(s: Seq<char>, p: Seq<char>) -> Option<Seq<char>> {
    if begins(s, p) {
        Some(s.skip(p.len() as int))
    } else {
        None
    }
}

/// `p` stands somewhere in `s`.
pub open spec fn holds(s: Seq<char>, p: Seq<char>) -> bool {
    exists|i: int| 0 <= i <= s.len() && #[trigger] begins(s.skip(i), p)
}

/// The views of a sequence of strings.
pub open spec fn views(v: Seq<String>) -> Seq<Seq<char>> {
    Seq::new(v.len(), |i: int| v[i]@)
}

/// The views of a pair of strings.
pub open spec fn pair_view(p: (String, String)) -> (Seq<char>, Seq<char>) {
    (p.0@, p.1@)
}

/// The views of a sequence of pairs of strings.
pub open spec fn pair_views(v: Seq<(String, String)>) -> Seq<(Seq<char>, Seq<char>)> {
    Seq::new(v.len(), |i: int| pair_view(v[i]))
}

// ---------------------------------------------------------------------------
// Lemmas
// ---------------------------------------------------------------------------

#[via_fn]
proof fn pieces_decreases(s: Seq<char>, c: char) {
    lemma_first_of(s, c);
}

#[via_fn]
proof fn rows_decreases(s: Seq<char>) {
    lemma_first_of(s, '\n');
}

/// `first_of` is the first position that holds the character.
pub proof fn lemma_first_of(s: Seq<char>, c: char)
    ensures
        match first_of(s, c) {
            Some(i) => 0 <= i < s.len() && s[i] == c && (forall|j: int| 0 <= j < i ==> s[j] != c),
            None => forall|j: int| 0 <= j < s.len() ==> s[j] != c,
        },
    decreases s.len(),
{
    if s.len() > 0 && s[0] != c {
        let t = s.skip(1);
        lemma_first_of(t, c);
        assert forall|j: int| 0 < j < s.len() implies s[j] == t[j - 1] by {}
    }
}

/// A position that holds the character, with none before it, is the first.
pub proof fn lemma_first_is(s: Seq<char>, c: char, i: int)
    requires
        0 <= i < s.len(),
        s[i] == c,
        forall|j: int| 0 <= j < i ==> s[j] != c,
    ensures
        first_of(s, c) == Some(i),
{
    lemma_first_of(s, c);
}

/// `last_of` is the last position that holds the character.
pub proof fn lemma_last_of(s: Seq<char>, c: char)
    ensures
        match last_of(s, c) {
            Some(i) => 0 <= i < s.len() && s[i] == c && (forall|j: int|
                i < j < s.len() ==> s[j] != c),
            None => forall|j: int| 0 <= j < s.len() ==> s[j] != c,
        },
    decreases s.len(),
{
    if s.len() > 0 && s.last() != c {
        let t = s.drop_last();
        lemma_last_of(t, c);
        assert forall|j: int| 0 <= j < t.len() implies s[j] == t[j] by {}
    }
}

/// Trimming takes a part out of the text.
pub proof fn lemma_trimmed(s: Seq<char>)
    ensures
        exists|a: int, b: int| 0 <= a <= b <= s.len() && trimmed(s) == #[trigger] s.subrange(a, b),
        trimmed(s).len() > 0 ==> !white(trimmed(s)[0]) && !white(trimmed(s).last()),
{
    lemma_trimmed_start(s);
    let t = trimmed_start(s);
    let a = choose|a: int| 0 <= a <= s.len() && t == #[trigger] s.skip(a);
    lemma_trimmed_end(t);
    let b = choose|b: int| 0 <= b <= t.len() && trimmed_end(t) == #[trigger] t.take(b);
    assert(t.take(b) =~= s.subrange(a, a + b));
}

proof fn lemma_trimmed_start(s: Seq<char>)
    ensures
        exists|a: int| 0 <= a <= s.len() && trimmed_start(s) == #[trigger] s.skip(a),
        trimmed_start(s).len() > 0 ==> !white(trimmed_start(s)[0]),
    decreases s.len(),
{
    if s.len() > 0 && white(s[0]) {
        let t = s.skip(1);
        lemma_trimmed_start(t);
        let a = choose|a: int| 0 <= a <= t.len() && trimmed_start(t) == #[trigger] t.skip(a);
        assert(t.skip(a) =~= s.skip(a + 1));
    } else {
        assert(s.skip(0) =~= s);
    }
}

proof fn lemma_trimmed_end(s: Seq<char>)
    ensures
        exists|b: int| 0 <= b <= s.len() && trimmed_end(s) == #[trigger] s.take(b),
        trimmed_end(s).len() > 0 ==> !white(trimmed_end(s).last()),
    decreases s.len(),
{
    if s.len() > 0 && white(s.last()) {
        let t = s.drop_last();
        lemma_trimmed_end(t);
        let b = choose|b: int| 0 <= b <= t.len() && trimmed_end(t) == #[trigger] t.take(b);
        assert(t.take(b) =~= s.take(b));
    } else {
        assert(s.take(s.len() as int) =~= s);
    }
}

/// A text without white space at its ends is left alone.
pub proof fn lemma_trimmed_already(s: Seq<char>)
    requires
        s.len() > 0 ==> !white(s[0]) && !white(s.last()),
    ensures
        trimmed(s) == s,
{
}

/// White space at the end does not outlast trimming.
pub proof fn lemma_trimmed_tail(s: Seq<char>)
    requires
        s.len() > 0,
        white(s.last()),
    ensures
        trimmed(s) == trimmed(s.drop_last()),
    decreases s.len(),
{
    let t = s.drop_last();
    if white(s[0]) {
        if s.len() == 1 {
            assert(s.skip(1) =~= t);
        } else {
            lemma_trimmed_tail(s.skip(1));
            assert(s.skip(1).drop_last() =~= t.skip(1));
            assert(t[0] == s[0]);
        }
    }
}

/// The first of several lines.
pub proof fn lemma_first_row(line: Seq<char>, rest: Seq<char>)
    requires
        !line.contains('\n'),
        line.len() > 0 ==> line.last() != '\r',
    ensures
        rows(line + seq!['\n'] + rest) == seq![line] + rows(rest),
{
    let s = line + seq!['\n'] + rest;
    let n = line.len() as int;
    assert(s[n] == '\n');
    assert forall|j: int| 0 <= j < n implies s[j] != '\n' by {
        assert(s[j] == line[j]);
    }
    lemma_first_is(s, '\n', n);
    assert(s.take(n) =~= line);
    assert(s.skip(n + 1) =~= rest);
}

/// No line holds a line feed.
pub proof fn lemma_rows_are_lines(s: Seq<char>)
    ensures
        forall|i: int| 0 <= i < rows(s).len() ==> !(#[trigger] rows(s)[i]).contains('\n'),
    decreases s.len(),
{
    if s.len() > 0 {
        lemma_first_of(s, '\n');
        match first_of(s, '\n') {
            Some(i) => {
                let rest = s.skip(i + 1);
                lemma_rows_are_lines(rest);
                let first = without_return(s.take(i));
                assert forall|k: int| 0 <= k < rows(s).len() implies !(
                #[trigger] rows(s)[k]).contains('\n') by {
                    if k == 0 {
                        assert(rows(s)[0] == first);
                        assert forall|j: int| 0 <= j < first.len() implies first[j] != '\n' by {
                            assert(first[j] == s[j]);
                        }
                    } else {
                        assert(rows(s)[k] == rows(rest)[k - 1]);
                    }
                }
            },
            None => {},
        }
    }
}

// ---------------------------------------------------------------------------
// Executable functions
// ---------------------------------------------------------------------------

/// The characters of a string.
pub fn chars(s: &str) -> (r: Vec<char>)
    ensures
        r@ == s@,
{
    let mut r: Vec<char> = Vec::new();
    for c in it: s.chars()
        invariant
            r@ == it.seq().take(it.index() as int),
            it.seq() == s@,
    {
        r.push(c);
        assert(it.seq().take(it.index() as int).push(it.seq()[it.index() as int]) =~= it.seq().take(
            it.index() + 1,
        ));
    }
    assert(s@.take(s@.len() as int) =~= s@);
    r
}

/// The string of the characters from `from` up to `to`.
pub fn string(v: &[char], from: usize, to: usize) -> (r: String)
    requires
        from <= to <= v@.len(),
    ensures
        r@ == v@.subrange(from as int, to as int),
{
    let mut r = String::new();
    let mut i: usize = from;
    while i < to
        invariant
            from <= i <= to <= v@.len(),
            r@ == v@.subrange(from as int, i as int),
        decreases to - i,
    {
        r.push(v[i]);
        i = i + 1;
        assert(v@.subrange(from as int, i as int) =~= v@.subrange(from as int, i - 1).push(
            v@[i - 1],
        ));
    }
    r
}

/// The two strings hold the same characters.
pub fn same(a: &str, b: &str) -> (r: bool)
    ensures
        r == (a@ == b@),
{
    let x = chars(a);
    let y = chars(b);
    same_chars(x.as_slice(), y.as_slice())
}

/// The two slices hold the same characters.
pub fn same_chars(x: &[char], y: &[char]) -> (r: bool)
    ensures
        r == (x@ == y@),
{
    if x.len() != y.len() {
        return false;
    }
    let mut i: usize = 0;
    while i < x.len()
        invariant
            i <= x@.len() == y@.len(),
            forall|j: int| 0 <= j < i ==> x@[j] == y@[j],
        decreases x@.len() - i,
    {
        if x[i] != y[i] {
            return false;
        }
        i = i + 1;
    }
    assert(x@ =~= y@);
    true
}

/// Appends `b` to `a`.
pub fn cat(a: &str, b: &str) -> (r: String)
    ensures
        r@ == a@ + b@,
{
    let mut r = a.to_owned();
    r.append(b);
    r
}

/// The three texts in a row.
pub fn cat3(a: &str, b: &str, c: &str) -> (r: String)
    ensures
        r@ == a@ + b@ + c@,
{
    let mut r = a.to_owned();
    r.append(b);
    r.append(c);
    r
}

/// Whether a character is white space.
fn is_white(c: char) -> (r: bool)
    ensures
        r == white(c),
{
    ('\u{9}' <= c && c <= '\u{d}') || c == '\u{20}' || c == '\u{85}' || c == '\u{a0}' || c
        == '\u{1680}' || ('\u{2000}' <= c && c <= '\u{200a}') || c == '\u{2028}' || c == '\u{2029}'
        || c == '\u{202f}' || c == '\u{205f}' || c == '\u{3000}'
}

/// Removes the white space at both ends.
pub fn trim(s: &str) -> (r: String)
    ensures
        r@ == trimmed(s@),
{
    let v = chars(s);
    let mut from: usize = 0;
    let n: usize = v.len();
    assert(v@.skip(0) =~= v@);
    while from < n && is_white(v[from])
        invariant
            from <= n == v@.len(),
            trimmed_start(v@.skip(from as int)) == trimmed_start(v@),
        decreases n - from,
    {
        assert(v@.skip(from as int).skip(1) =~= v@.skip(from + 1));
        from = from + 1;
    }
    let ghost t = v@.skip(from as int);
    assert(trimmed_start(v@) == t);
    let mut to: usize = n;
    assert(v@.subrange(from as int, n as int) =~= t);
    while from < to && is_white(v[to - 1])
        invariant
            from <= to <= n == v@.len(),
            trimmed_end(v@.subrange(from as int, to as int)) == trimmed_end(t),
        decreases to,
    {
        assert(v@.subrange(from as int, to as int).drop_last() =~= v@.subrange(
            from as int,
            to - 1,
        ));
        to = to - 1;
    }
    string(v.as_slice(), from, to)
}

/// The position of the first `c` at or after `from`.
pub fn find_from(v: &[char], from: usize, c: char) -> (r: Option<usize>)
    requires
        from <= v@.len(),
    ensures
        match r {
            Some(i) => from <= i < v@.len() && first_of(v@.skip(from as int), c) == Some(i - from),
            None => first_of(v@.skip(from as int), c) is None,
        },
{
    let mut i: usize = from;
    let ghost t = v@.skip(from as int);
    while i < v.len()
        invariant
            from <= i <= v@.len(),
            t == v@.skip(from as int),
            forall|j: int| 0 <= j < i - from ==> t[j] != c,
        decreases v@.len() - i,
    {
        if v[i] == c {
            proof {
                lemma_first_is(t, c, i - from);
            }
            return Some(i);
        }
        i = i + 1;
    }
    proof {
        lemma_first_of(t, c);
    }
    None
}

/// Splits at the first `c`.
pub fn split_once(s: &str, c: char) -> (r: Option<(String, String)>)
    ensures
        match r {
            Some(p) => halves(s@, c) == Some(pair_view(p)),
            None => halves(s@, c) is None,
        },
{
    let v = chars(s);
    let n: usize = v.len();
    assert(v@.skip(0) =~= v@);
    match find_from(v.as_slice(), 0, c) {
        Some(i) => {
            let a = string(v.as_slice(), 0, i);
            let b = string(v.as_slice(), i + 1, n);
            assert(a@ =~= s@.take(i as int));
            assert(b@ =~= s@.skip(i + 1));
            Some((a, b))
        },
        None => None,
    }
}

/// Splits at the last `c`.
pub fn rsplit_once(s: &str, c: char) -> (r: Option<(String, String)>)
    ensures
        match r {
            Some((a, b)) => match last_of(s@, c) {
                Some(i) => a@ == s@.take(i) && b@ == s@.skip(i + 1),
                None => false,
            },
            None => last_of(s@, c) is None,
        },
{
    let v = chars(s);
    let mut i: usize = v.len();
    proof {
        lemma_last_of(s@, c);
    }
    while i > 0
        invariant
            i <= v@.len(),
            v@ == s@,
            forall|j: int| i <= j < v@.len() ==> v@[j] != c,
            match last_of(s@, c) {
                Some(k) => 0 <= k < s@.len() && s@[k] == c && (forall|j: int|
                    k < j < s@.len() ==> s@[j] != c),
                None => forall|j: int| 0 <= j < s@.len() ==> s@[j] != c,
            },
        decreases i,
    {
        i = i - 1;
        if v[i] == c {
            let a = string(v.as_slice(), 0, i);
            let b = string(v.as_slice(), i + 1, v.len());
            assert(last_of(s@, c) == Some(i as int));
            assert(a@ =~= s@.take(i as int));
            assert(b@ =~= s@.skip(i + 1));
            return Some((a, b));
        }
    }
    None
}

/// Splits at every `c`.
pub fn split(s: &str, c: char) -> (r: Vec<String>)
    ensures
        views(r@) == pieces(s@, c),
{
    let v = chars(s);
    let mut r: Vec<String> = Vec::new();
    let mut from: usize = 0;
    let n: usize = v.len();
    assert(v@.skip(0) =~= v@);
    assert(views(r@) + pieces(v@.skip(0), c) =~= pieces(v@, c));
    loop
        invariant_except_break
            from <= n == v@.len(),
            views(r@) + pieces(v@.skip(from as int), c) == pieces(v@, c),
        ensures
            views(r@) == pieces(v@, c),
        decreases n - from,
    {
        let ghost rest = v@.skip(from as int);
        let ghost before = r@;
        match find_from(v.as_slice(), from, c) {
            Some(i) => {
                let piece = string(v.as_slice(), from, i);
                assert(piece@ =~= rest.take(i - from));
                r.push(piece);
                assert(v@.skip(i + 1) =~= rest.skip(i - from + 1));
                assert(views(r@) =~= views(before).push(rest.take(i - from)));
                assert(views(r@) + pieces(v@.skip(i + 1), c) =~= views(before) + (seq![
                    rest.take(i - from),
                ] + pieces(v@.skip(i + 1), c)));
                from = i + 1;
            },
            None => {
                let piece = string(v.as_slice(), from, n);
                assert(piece@ =~= rest);
                r.push(piece);
                assert(views(r@) =~= views(before) + seq![rest]);
                break;
            },
        }
    }
    r
}

/// The lines of a text, without their ends.
pub fn lines(s: &str) -> (r: Vec<String>)
    ensures
        views(r@) == rows(s@),
{
    let v = chars(s);
    let mut r: Vec<String> = Vec::new();
    let mut from: usize = 0;
    let n: usize = v.len();
    assert(v@.skip(0) =~= v@);
    assert(views(r@) + rows(v@.skip(0)) =~= rows(v@));
    while from < n
        invariant
            from <= n == v@.len(),
            views(r@) + rows(v@.skip(from as int)) == rows(v@),
        decreases n - from,
    {
        let ghost rest = v@.skip(from as int);
        let ghost before = r@;
        match find_from(v.as_slice(), from, '\n') {
            Some(i) => {
                let mut to: usize = i;
                if from < to && v[to - 1] == '\r' {
                    to = to - 1;
                }
                let piece = string(v.as_slice(), from, to);
                assert(piece@ =~= without_return(rest.take(i - from)));
                r.push(piece);
                assert(v@.skip(i + 1) =~= rest.skip(i - from + 1));
                assert(views(r@) =~= views(before).push(without_return(rest.take(i - from))));
                assert(views(r@) + rows(v@.skip(i + 1)) =~= views(before) + (seq![
                    without_return(rest.take(i - from)),
                ] + rows(v@.skip(i + 1))));
                from = i + 1;
            },
            None => {
                let piece = string(v.as_slice(), from, n);
                assert(piece@ =~= rest);
                r.push(piece);
                assert(v@.skip(n as int) =~= Seq::<char>::empty());
                assert(views(r@) + rows(v@.skip(n as int)) =~= views(before) + seq![rest]);
                from = n;
            },
        }
    }
    assert(v@.skip(n as int) =~= Seq::<char>::empty());
    assert(views(r@) + rows(v@.skip(n as int)) =~= views(r@));
    r
}

/// Whether `p` stands at position `at` of `v`.
fn matches_at(v: &[char], at: usize, p: &[char]) -> (r: bool)
    requires
        at <= v@.len(),
    ensures
        r == begins(v@.skip(at as int), p@),
{
    let n: usize = v.len();
    if n - at < p.len() {
        return false;
    }
    let mut i: usize = 0;
    let ghost t = v@.skip(at as int);
    while i < p.len()
        invariant
            i <= p@.len() <= n - at,
            at <= n == v@.len(),
            t == v@.skip(at as int),
            forall|j: int| 0 <= j < i ==> t[j] == p@[j],
        decreases p@.len() - i,
    {
        if v[at + i] != p[i] {
            assert(t.take(p@.len() as int)[i as int] != p@[i as int]);
            return false;
        }
        i = i + 1;
    }
    assert(t.take(p@.len() as int) =~= p@);
    true
}

/// Whether `s` starts with `p`.
pub fn starts_with(s: &str, p: &str) -> (r: bool)
    ensures
        r == begins(s@, p@),
{
    let v = chars(s);
    let q = chars(p);
    assert(v@.skip(0) =~= v@);
    matches_at(v.as_slice(), 0, q.as_slice())
}

/// Whether `s` ends with `p`.
pub fn ends_with(s: &str, p: &str) -> (r: bool)
    ensures
        r == ends(s@, p@),
{
    let v = chars(s);
    let q = chars(p);
    if q.len() > v.len() {
        return false;
    }
    let at: usize = v.len() - q.len();
    assert(s@.skip(at as int).take(p@.len() as int) =~= s@.skip(at as int));
    matches_at(v.as_slice(), at, q.as_slice())
}

/// What follows the prefix `p`.
pub fn strip_prefix(s: &str, p: &str) -> (r: Option<String>)
    ensures
        match r {
            Some(t) => after(s@, p@) == Some(t@),
            None => after(s@, p@) is None,
        },
{
    if starts_with(s, p) {
        let v = chars(s);
        let q = chars(p);
        let t = string(v.as_slice(), q.len(), v.len());
        assert(t@ =~= s@.skip(p@.len() as int));
        Some(t)
    } else {
        None
    }
}

/// Whether `p` occurs in `s`.
pub fn contains(s: &str, p: &str) -> (r: bool)
    ensures
        r == holds(s@, p@),
{
    let v = chars(s);
    let q = chars(p);
    let mut i: usize = 0;
    loop
        invariant
            i <= v@.len(),
            v@ == s@,
            q@ == p@,
            forall|j: int| 0 <= j < i ==> !(#[trigger] begins(s@.skip(j), p@)),
        decreases v@.len() - i,
    {
        if matches_at(v.as_slice(), i, q.as_slice()) {
            return true;
        }
        if i == v.len() {
            return false;
        }
        i = i + 1;
    }
}

/// Whether the character occurs in `s`.
pub fn contains_char(s: &str, c: char) -> (r: bool)
    ensures
        r == s@.contains(c),
{
    let v = chars(s);
    let mut i: usize = 0;
    while i < v.len()
        invariant
            i <= v@.len(),
            v@ == s@,
            forall|j: int| 0 <= j < i ==> s@[j] != c,
        decreases v@.len() - i,
    {
        if v[i] == c {
            assert(s@[i as int] == c);
            return true;
        }
        i = i + 1;
    }
    false
}

/// The lower case letter of an upper case ASCII letter; any other character is
/// itself.
pub open spec fn ascii_lower(c: char) -> char {
    if 'A' <= c <= 'Z' {
        (c as u32 + 32) as char
    } else {
        c
    }
}

/// The result of `str::to_lowercase`.
pub uninterp spec fn lowercase(s: Seq<char>) -> Seq<char>;

/// `str::to_lowercase`, which goes by the Unicode property `Lowercase`. On ASCII
/// text it maps the letters `A` to `Z` and nothing else.
#[verifier::external_body]
pub(crate) fn to_lowercase(s: &str) -> (r: String)
    ensures
        r@ == lowercase(s@),
        vstd::utf8::is_ascii_chars(s@) ==> r@ == s@.map_values(|c: char| ascii_lower(c)),
{
    s.to_lowercase()
}

/// The result of `String::from_utf8_lossy`.
pub uninterp spec fn lossy(b: Seq<u8>) -> Seq<char>;

/// `String::from_utf8_lossy`: the text of valid UTF-8, with replacement
/// characters for what is not valid. A line feed is a character of its own wherever
/// it stands: what is not valid ends before it, and reading goes on behind it.
#[verifier::external_body]
pub(crate) fn from_utf8_lossy(b: &[u8]) -> (r: String)
    ensures
        r@ == lossy(b@),
        vstd::utf8::valid_utf8(b@) ==> r@ == vstd::utf8::decode_utf8(b@),
        forall|before: Seq<u8>, behind: Seq<u8>|
            b@ == before + seq![10u8] + behind ==> r@ == #[trigger] lossy(before) + seq!['\n']
                + #[trigger] lossy(behind),
{
    String::from_utf8_lossy(b).into_owned()
}

/// `std::str::from_utf8`: the text of the bytes, where they are valid UTF-8.
#[verifier::external_body]
pub(crate) fn from_utf8(b: &[u8]) -> (r: Option<String>)
    ensures
        match r {
            Some(s) => vstd::utf8::valid_utf8(b@) && s@ == vstd::utf8::decode_utf8(b@),
            None => !vstd::utf8::valid_utf8(b@),
        },
{
    std::str::from_utf8(b).ok().map(str::to_owned)
}

/// The encoding of two texts one after the other.
pub proof fn lemma_utf8_joined(a: Seq<char>, b: Seq<char>)
    ensures
        vstd::utf8::encode_utf8(a + b) == vstd::utf8::encode_utf8(a) + vstd::utf8::encode_utf8(b),
    decreases a.len(),
{
    if a.len() == 0 {
        assert(a + b =~= b);
        assert(vstd::utf8::encode_utf8(a) + vstd::utf8::encode_utf8(b) =~= vstd::utf8::encode_utf8(
            b,
        ));
    } else {
        lemma_utf8_joined(a.drop_first(), b);
        assert((a + b).drop_first() =~= a.drop_first() + b);
        assert((a + b)[0] == a[0]);
        assert(vstd::utf8::encode_utf8(a + b) =~= vstd::utf8::encode_utf8(a)
            + vstd::utf8::encode_utf8(b));
    }
}

/// A character takes at most four bytes.
pub proof fn lemma_utf8_length(s: Seq<char>)
    ensures
        vstd::utf8::encode_utf8(s).len() <= 4 * s.len(),
    decreases s.len(),
{
    if s.len() > 0 {
        lemma_utf8_length(s.drop_first());
    }
}

/// The UTF-8 bytes of a text.
pub fn utf8(s: &str) -> (r: Vec<u8>)
    ensures
        r@ == vstd::utf8::encode_utf8(s@),
{
    s.as_bytes_vec()
}

/// A relative path below a directory: a slash stands between them, unless the
/// directory is empty or ends in one.
pub open spec fn below(dir: Seq<char>, rel: Seq<char>) -> Seq<char> {
    if dir.len() == 0 || dir.last() == '/' {
        dir + rel
    } else {
        dir + "/"@ + rel
    }
}

/// The path of `rel` below `dir`.
pub fn join_path(dir: &str, rel: &str) -> (r: String)
    ensures
        r@ == below(dir@, rel@),
{
    let v = chars(dir);
    let n: usize = v.len();
    if n == 0 || v[n - 1] == '/' {
        cat(dir, rel)
    } else {
        cat3(dir, "/", rel)
    }
}

/// The two texts are the same but for the case of ASCII letters.
pub open spec fn alike(a: Seq<char>, b: Seq<char>) -> bool {
    a.len() == b.len() && forall|i: int|
        0 <= i < a.len() ==> ascii_lower(#[trigger] a[i]) == ascii_lower(b[i])
}

fn lower(c: char) -> (r: char)
    ensures
        r == ascii_lower(c),
{
    if 'A' <= c && c <= 'Z' {
        ((c as u8) + 32) as char
    } else {
        c
    }
}

/// Compares two texts without regard to the case of ASCII letters.
pub fn same_ignoring_case(a: &str, b: &str) -> (r: bool)
    ensures
        r == alike(a@, b@),
{
    let x = chars(a);
    let y = chars(b);
    if x.len() != y.len() {
        return false;
    }
    let mut i: usize = 0;
    while i < x.len()
        invariant
            i <= x@.len() == y@.len(),
            x@ == a@,
            y@ == b@,
            forall|j: int| 0 <= j < i ==> ascii_lower(#[trigger] a@[j]) == ascii_lower(b@[j]),
        decreases x@.len() - i,
    {
        if lower(x[i]) != lower(y[i]) {
            assert(ascii_lower(a@[i as int]) != ascii_lower(b@[i as int]));
            return false;
        }
        i = i + 1;
    }
    true
}


// ---------------------------------------------------------------------------
// Patterns
// ---------------------------------------------------------------------------

/// `s` with `t` in place of each `p`, from the left.
pub open spec fn replaced(s: Seq<char>, p: Seq<char>, t: Seq<char>) -> Seq<char>
    decreases s.len(),
{
    if p.len() > 0 && begins(s, p) {
        t + replaced(s.skip(p.len() as int), p, t)
    } else if s.len() > 0 {
        seq![s[0]] + replaced(s.skip(1), p, t)
    } else {
        s
    }
}

/// The position of the first `p` in `s`.
pub open spec fn first_at(s: Seq<char>, p: Seq<char>) -> Option<int>
    decreases s.len(),
{
    if begins(s, p) {
        Some(0)
    } else if s.len() == 0 {
        None
    } else {
        match first_at(s.skip(1), p) {
            Some(i) => Some(i + 1),
            None => None,
        }
    }
}

/// `s` without each `p` at its start.
pub open spec fn front_stripped(s: Seq<char>, p: Seq<char>) -> Seq<char>
    decreases s.len(),
{
    if p.len() > 0 && begins(s, p) {
        front_stripped(s.skip(p.len() as int), p)
    } else {
        s
    }
}

/// `s` without each `p` at its end.
pub open spec fn back_stripped(s: Seq<char>, p: Seq<char>) -> Seq<char>
    decreases s.len(),
{
    if p.len() > 0 && ends(s, p) {
        back_stripped(s.take(s.len() - p.len()), p)
    } else {
        s
    }
}

/// The characters before the first white space.
pub open spec fn unbroken(s: Seq<char>) -> Seq<char>
    decreases s.len(),
{
    if s.len() == 0 || white(s[0]) {
        Seq::empty()
    } else {
        seq![s[0]] + unbroken(s.skip(1))
    }
}

/// The first word of a text, empty where it has none.
pub open spec fn first_word(s: Seq<char>) -> Seq<char> {
    unbroken(trimmed_start(s))
}

/// A position that was found holds the pattern, and lies within the text.
pub proof fn lemma_first_at(s: Seq<char>, p: Seq<char>)
    ensures
        match first_at(s, p) {
            Some(i) => 0 <= i <= s.len() && begins(s.skip(i), p) && holds(s, p),
            None => !holds(s, p),
        },
    decreases s.len(),
{
    assert(s.skip(0) =~= s);
    if begins(s, p) {
        assert(begins(s.skip(0), p));
    } else if s.len() == 0 {
        assert forall|i: int| 0 <= i <= s.len() implies !(#[trigger] begins(s.skip(i), p)) by {
            assert(s.skip(i) =~= s);
        }
    } else {
        let t = s.skip(1);
        lemma_first_at(t, p);
        match first_at(t, p) {
            Some(i) => {
                assert(t.skip(i) =~= s.skip(i + 1));
                assert(begins(s.skip(i + 1), p));
            },
            None => {
                assert forall|i: int| 0 <= i <= s.len() implies !(#[trigger] begins(
                    s.skip(i),
                    p,
                )) by {
                    if i > 0 {
                        assert(t.skip(i - 1) =~= s.skip(i));
                        assert(!begins(t.skip(i - 1), p));
                    }
                }
            },
        }
    }
}

/// Puts `t` in place of each `p`.
pub fn replace(s: &str, p: &str, t: &str) -> (r: String)
    requires
        p@.len() > 0,
    ensures
        r@ == replaced(s@, p@, t@),
{
    let v = chars(s);
    let q = chars(p);
    let n: usize = v.len();
    let k: usize = q.len();
    let mut out = String::new();
    let mut i: usize = 0;
    assert(v@.skip(0) =~= v@);
    assert(out@ =~= Seq::empty());
    assert(out@ + replaced(v@.skip(0), p@, t@) =~= replaced(s@, p@, t@));
    while i < n
        invariant
            i <= n == v@.len(),
            k == q@.len() > 0,
            q@ == p@,
            v@ == s@,
            out@ + replaced(v@.skip(i as int), p@, t@) == replaced(s@, p@, t@),
        decreases n - i,
    {
        let ghost rest = v@.skip(i as int);
        let ghost before = out@;
        if matches_at(v.as_slice(), i, q.as_slice()) {
            out.append(t);
            assert(rest.skip(k as int) =~= v@.skip(i + k));
            assert(before + (t@ + replaced(v@.skip(i + k), p@, t@)) =~= out@ + replaced(
                v@.skip(i + k),
                p@,
                t@,
            ));
            i = i + k;
        } else {
            out.push(v[i]);
            assert(rest.skip(1) =~= v@.skip(i + 1));
            assert(rest[0] == v@[i as int]);
            assert(before + (seq![rest[0]] + replaced(v@.skip(i + 1), p@, t@)) =~= out@ + replaced(
                v@.skip(i + 1),
                p@,
                t@,
            ));
            i = i + 1;
        }
    }
    assert(v@.skip(n as int) =~= Seq::empty());
    assert(replaced(v@.skip(n as int), p@, t@) =~= Seq::empty());
    assert(out@ =~= replaced(s@, p@, t@));
    out
}

/// The position of the first `p`.
pub fn find(s: &str, p: &str) -> (r: Option<usize>)
    ensures
        match r {
            Some(i) => first_at(s@, p@) == Some(i as int),
            None => first_at(s@, p@) is None,
        },
{
    let v = chars(s);
    let q = chars(p);
    let n: usize = v.len();
    let mut i: usize = 0;
    assert(v@.skip(0) =~= v@);
    loop
        invariant
            i <= n == v@.len(),
            v@ == s@,
            q@ == p@,
            first_at(s@, p@) == match first_at(s@.skip(i as int), p@) {
                Some(j) => Some(j + i),
                None => None,
            },
        decreases n - i,
    {
        if matches_at(v.as_slice(), i, q.as_slice()) {
            return Some(i);
        }
        if i == n {
            return None;
        }
        assert(s@.skip(i as int).skip(1) =~= s@.skip(i + 1));
        i = i + 1;
    }
}

/// Removes each `p` at the start.
pub fn trim_start_matches(s: &str, p: &str) -> (r: String)
    requires
        p@.len() > 0,
    ensures
        r@ == front_stripped(s@, p@),
{
    let v = chars(s);
    let q = chars(p);
    let n: usize = v.len();
    let k: usize = q.len();
    let mut i: usize = 0;
    assert(v@.skip(0) =~= v@);
    while matches_at(v.as_slice(), i, q.as_slice())
        invariant
            i <= n == v@.len(),
            k == q@.len() > 0,
            q@ == p@,
            v@ == s@,
            front_stripped(v@.skip(i as int), p@) == front_stripped(s@, p@),
        decreases n - i,
    {
        assert(v@.skip(i as int).skip(k as int) =~= v@.skip(i + k));
        i = i + k;
    }
    let r = string(v.as_slice(), i, n);
    assert(r@ =~= v@.skip(i as int));
    r
}

/// Removes each `p` at the end.
pub fn trim_end_matches(s: &str, p: &str) -> (r: String)
    requires
        p@.len() > 0,
    ensures
        r@ == back_stripped(s@, p@),
{
    let mut r = s.to_owned();
    while ends_with(r.as_str(), p)
        invariant
            p@.len() > 0,
            back_stripped(r@, p@) == back_stripped(s@, p@),
        decreases r@.len(),
    {
        let v = chars(r.as_str());
        let k: usize = chars(p).len();
        let n: usize = v.len();
        let shorter = string(v.as_slice(), 0, n - k);
        assert(shorter@ =~= r@.take(r@.len() - p@.len()));
        r = shorter;
    }
    r
}

/// The first word, empty where there is none.
pub fn word(s: &str) -> (r: String)
    ensures
        r@ == first_word(s@),
{
    let v = chars(s);
    let n: usize = v.len();
    let mut from: usize = 0;
    assert(v@.skip(0) =~= v@);
    while from < n && is_white(v[from])
        invariant
            from <= n == v@.len(),
            trimmed_start(v@.skip(from as int)) == trimmed_start(v@),
        decreases n - from,
    {
        assert(v@.skip(from as int).skip(1) =~= v@.skip(from + 1));
        from = from + 1;
    }
    let ghost t = v@.skip(from as int);
    assert(trimmed_start(v@) == t);
    let mut to: usize = from;
    assert(v@.subrange(from as int, to as int) + unbroken(v@.skip(to as int)) =~= unbroken(t));
    while to < n && !is_white(v[to])
        invariant
            from <= to <= n == v@.len(),
            v@.subrange(from as int, to as int) + unbroken(v@.skip(to as int)) == unbroken(t),
        decreases n - to,
    {
        let ghost rest = v@.skip(to as int);
        assert(rest.skip(1) =~= v@.skip(to + 1));
        assert(v@.subrange(from as int, to as int) + (seq![rest[0]] + unbroken(v@.skip(to + 1)))
            =~= v@.subrange(from as int, to + 1) + unbroken(v@.skip(to + 1)));
        to = to + 1;
    }
    let r = string(v.as_slice(), from, to);
    assert(unbroken(v@.skip(to as int)) =~= Seq::empty());
    assert(r@ =~= unbroken(t));
    r
}

/// A text that does not start with white space keeps its start when its end is trimmed.
pub proof fn lemma_trimmed_end_keeps_the_front(s: Seq<char>)
    requires
        s.len() > 0,
        !white(s[0]),
    ensures
        trimmed_end(s).len() > 0,
        trimmed_end(s)[0] == s[0],
    decreases s.len(),
{
    if white(s.last()) {
        assert(s.len() > 1);
        assert(s.drop_last()[0] == s[0]);
        lemma_trimmed_end_keeps_the_front(s.drop_last());
    }
}

} // verus!
