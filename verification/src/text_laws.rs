//! What the notations of numbers and bytes, and the ways to take texts apart, promise.

use vstd::prelude::*;

use crate::address;
use crate::codec;
use crate::digits;
use crate::hash;
use crate::text;

verus! {

// ---------------------------------------------------------------------------
// Numbers
// ---------------------------------------------------------------------------

/// A digit behind the notation of a number is worth one and makes the rest worth ten
/// times as much.
pub proof fn law_digits_have_their_place(n: nat, d: nat)
    requires
        d < 10,
        n > 0,
    ensures
        digits::dec(10 * n + d) == digits::dec(n) + digits::dec(d),
        digits::dec(0) == "0"@,
        digits::dec(1) == "1"@,
        digits::dec(9) == "9"@,
        digits::dec(d).len() == 1,
        digits::number(digits::dec(d)) == d,
{
    reveal_strlit("0");
    reveal_strlit("1");
    reveal_strlit("9");
    assert((10 * n + d) / 10 == n);
    assert((10 * n + d) % 10 == d);
    assert(digits::dec(n).push(digits::digit(d)) =~= digits::dec(n) + digits::dec(d));
    assert(digits::dec(0) =~= "0"@);
    assert(digits::dec(1) =~= "1"@);
    assert(digits::dec(9) =~= "9"@);
    let s = digits::dec(d);
    assert(s.drop_last().len() == 0);
    assert(digits::number(s.drop_last()) == 0);
}

/// A number below zero has a minus sign before it.
pub proof fn law_negative_numbers_have_a_sign(n: nat)
    ensures
        digits::signed_dec(n as int) == digits::dec(n),
        n > 0 ==> digits::signed_dec(-(n as int)) == seq!['-'] + digits::dec(n),
{
}

/// A number is read with a plus sign or without one, and refused where it is too large
/// or holds anything but digits.
pub proof fn law_numbers_are_read(n: nat, max: nat, s: Seq<char>)
    ensures
        n <= max ==> digits::unsigned(digits::dec(n), max) == Some(n),
        n > max ==> digits::unsigned(digits::dec(n), max) is None,
        digits::unsigned(Seq::<char>::empty(), max) is None,
        s.len() > 1 && !digits::is_digit(s.last()) ==> digits::unsigned(s, max) is None,
        s.len() > 0 && s[0] == '-' ==> digits::unsigned(s, max) is None,
{
    if n <= max {
        digits::law_decimal_round_trip(n, max);
    } else {
        digits::law_decimal_round_trip(n, n);
    }
    let d = digits::unsigned_part(s);
    if s.len() > 1 && !digits::is_digit(s.last()) {
        assert(!digits::is_digit(d[d.len() - 1]));
    }
    if s.len() > 0 && s[0] == '-' {
        assert(!digits::is_digit(d[0]));
    }
}

// ---------------------------------------------------------------------------
// Bytes
// ---------------------------------------------------------------------------

/// A byte is written in two hexadecimal digits, the higher first, in lower case.
pub proof fn law_bytes_have_two_digits(b: Seq<u8>, x: u8)
    ensures
        digits::hex_text(b.push(x)) == digits::hex_text(b) + digits::hex_text(seq![x]),
        digits::hex_text(seq![x]).len() == 2,
        digits::hex_value(digits::hex_text(seq![x])[0]) == Some((x / 16) as nat),
        digits::hex_value(digits::hex_text(seq![x])[1]) == Some((x % 16) as nat),
        !('A' <= digits::hex_text(seq![x])[0] <= 'Z'),
        !('A' <= digits::hex_text(seq![x])[1] <= 'Z'),
        digits::hex_text(Seq::<u8>::empty()).len() == 0,
{
    let whole = digits::hex_text(b.push(x));
    let parts = digits::hex_text(b) + digits::hex_text(seq![x]);
    assert(whole.len() == parts.len());
    assert forall|i: int| 0 <= i < whole.len() implies whole[i] == parts[i] by {
        if i < 2 * b.len() {
            assert(b.push(x)[i / 2] == b[i / 2]);
        } else {
            assert(i / 2 == b.len());
            assert(b.push(x)[i / 2] == x);
            assert(i % 2 == (i - 2 * b.len()) % 2);
            assert((i - 2 * b.len()) / 2 == 0);
        }
    }
    assert(whole =~= parts);
    assert(x / 16 < 16 && x % 16 < 16);
}

/// Digits are read in either case, and anything else is refused.
pub proof fn law_hexadecimal_is_read_in_either_case()
    ensures
        digits::hex_value('0') == Some(0nat),
        digits::hex_value('9') == Some(9nat),
        digits::hex_value('a') == Some(10nat),
        digits::hex_value('A') == Some(10nat),
        digits::hex_value('f') == Some(15nat),
        digits::hex_value('F') == Some(15nat),
        digits::hex_value('g') is None,
        digits::hex_value('G') is None,
        digits::hex_value('/') is None,
        digits::hex_value(':') is None,
        digits::hex_value('-') is None,
{
}

/// An odd number of digits denotes no bytes, and neither does a text with another
/// character.
pub proof fn law_other_texts_are_no_bytes(s: Seq<char>, i: int)
    requires
        0 <= i < s.len(),
    ensures
        s.len() % 2 != 0 ==> digits::hex_bytes(s) is None,
        digits::hex_value(s[i]) is None ==> digits::hex_bytes(s) is None,
{
    if digits::hex_value(s[i]) is None {
        assert(!digits::is_hex(s[i]));
    }
}

/// An address is read from the digits that it is shown with, whatever follows them; fewer
/// are refused.
pub proof fn law_addresses_are_read_back(b: Seq<u8>, rest: Seq<char>)
    requires
        b.len() == 16,
    ensures
        address::address_in(digits::hex_text(b) + rest) == Some(b),
        address::address_in(digits::hex_text(b).drop_last()) is None,
        address::destination_in(digits::hex_text(b)) == Ok::<Seq<u8>, Seq<char>>(b),
{
    let t = digits::hex_text(b);
    digits::law_hex_round_trip(b);
    assert((t + rest).take(32) =~= t);
    assert(t.take(32) =~= t);
    assert(t.len() % 2 == 0);
    assert forall|i: int| 0 <= i < 32 implies digits::is_hex(#[trigger] (t + rest)[i]) by {
        assert(digits::is_hex(t[i]));
    }
    crate::rpc::lemma_hex_text(b);
    vstd::utf8::is_ascii_chars_encode_utf8(t);
}

/// The address of a destination depends on its name and its identity: it is half of the
/// digest of the ten bytes for the name and the hash of the identity.
pub proof fn law_destinations_are_digests(app: Seq<char>, aspects: Seq<char>, identity: Seq<u8>)
    ensures
        address::destination_address(address::name_digest(app, aspects), identity) == hash::sha256(
            address::name_digest(app, aspects) + identity,
        ).take(16),
        aspects.len() > 0 ==> address::name_digest(app, aspects) == hash::sha256(
            vstd::utf8::encode_utf8(app) + vstd::utf8::encode_utf8("."@) + vstd::utf8::encode_utf8(
                aspects,
            ),
        ).take(10),
        aspects.len() == 0 ==> address::name_digest(app, aspects) == hash::sha256(
            vstd::utf8::encode_utf8(app),
        ).take(10),
{
}

/// The letters of base 32 are those from `A` to `Z` and the digits from `2` to `7`, read
/// in either case.
pub proof fn law_base32_letters(n: nat)
    requires
        n < 32,
    ensures
        codec::letter(0) == 'A',
        codec::letter(25) == 'Z',
        codec::letter(26) == '2',
        codec::letter(31) == '7',
        codec::letter_value(codec::letter(n)) == Some(n),
        codec::letter_value('a') == Some(0nat),
        codec::letter_value('z') == Some(25nat),
        codec::letter_value('0') is None,
        codec::letter_value('1') is None,
        codec::letter_value('8') is None,
        codec::letter_value('=') is None,
{
}

/// Base 256 has a character for each byte, in their order.
pub proof fn law_base256_is_written_byte_by_byte(b: Seq<u8>, x: u8)
    ensures
        codec::base256(b.push(x)) == codec::base256(b).push(codec::B256@[x as int]),
        codec::base256(b).len() == b.len(),
{
    assert(codec::base256(b.push(x)) =~= codec::base256(b).push(codec::B256@[x as int]));
}

// ---------------------------------------------------------------------------
// Texts
// ---------------------------------------------------------------------------

/// White space around a text goes, and the text stays as it is.
pub proof fn law_white_space_is_trimmed(before: char, s: Seq<char>, behind: char)
    requires
        text::white(before),
        text::white(behind),
        s.len() > 0,
        !text::white(s[0]),
        !text::white(s.last()),
    ensures
        text::trimmed(s) == s,
        text::trimmed(seq![before] + s) == s,
        text::trimmed(s.push(behind)) == s,
        text::trimmed((seq![before] + s).push(behind)) == s,
{
    assert((seq![before] + s).skip(1) =~= s);
    assert(s.push(behind).drop_last() =~= s);
    assert(s.push(behind)[0] == s[0]);
    let both = (seq![before] + s).push(behind);
    assert(both.skip(1) =~= s.push(behind));
    assert(both[0] == before);
    assert(text::trimmed_start(s) == s);
    assert(text::trimmed_end(s) == s);
    assert(text::trimmed_start(s.push(behind)) == s.push(behind));
    assert(text::trimmed_end(s.push(behind)) == s);
}

/// A text is split at the first mark: what stands before holds none, and both halves with
/// the mark between them are the text.
pub proof fn law_texts_are_split_at_the_first_mark(a: Seq<char>, c: char, b: Seq<char>)
    requires
        !a.contains(c),
    ensures
        text::halves(a.push(c) + b, c) == Some((a, b)),
        text::halves(a, c) is None,
{
    let s = a.push(c) + b;
    text::lemma_first_is(s, c, a.len() as int);
    assert(s.take(a.len() as int) =~= a);
    assert(s.skip(a.len() as int + 1) =~= b);
    text::lemma_first_of(a, c);
}

/// The pieces of a text stand between its marks, in their order.
pub proof fn law_pieces_stand_between_marks(a: Seq<char>, c: char, b: Seq<char>)
    requires
        !a.contains(c),
    ensures
        text::pieces(a.push(c) + b, c) == seq![a] + text::pieces(b, c),
        text::pieces(a, c) == seq![a],
{
    let s = a.push(c) + b;
    text::lemma_first_is(s, c, a.len() as int);
    assert(s.take(a.len() as int) =~= a);
    assert(s.skip(a.len() as int + 1) =~= b);
    text::lemma_first_of(a, c);
}

/// The lines of a text end in a line feed, with or without a carriage return, and the
/// last need not.
pub proof fn law_lines_end_in_a_line_feed(a: Seq<char>, b: Seq<char>)
    requires
        a.len() > 0,
        !a.contains('\n'),
        a.last() != '\r',
    ensures
        text::rows(a.push('\n') + b) == seq![a] + text::rows(b),
        text::rows(a.push('\r').push('\n') + b) == seq![a] + text::rows(b),
        text::rows(a) == seq![a],
        text::rows(Seq::<char>::empty()).len() == 0,
{
    let s = a.push('\n') + b;
    text::lemma_first_is(s, '\n', a.len() as int);
    assert(s.take(a.len() as int) =~= a);
    assert(s.skip(a.len() as int + 1) =~= b);
    let r = a.push('\r').push('\n') + b;
    assert(a.push('\r').contains('\n') ==> a.contains('\n')) by {
        if a.push('\r').contains('\n') {
            let i = choose|i: int| 0 <= i < a.len() + 1 && a.push('\r')[i] == '\n';
            assert(a[i] == '\n');
        }
    }
    text::lemma_first_is(r, '\n', a.len() as int + 1);
    assert(r.take(a.len() as int + 1) =~= a.push('\r'));
    assert(a.push('\r').drop_last() =~= a);
    assert(r.skip(a.len() as int + 2) =~= b);
    text::lemma_first_of(a, '\n');
}

/// A prefix is found at the start, and what follows it is the rest; an ending is found at
/// the end.
pub proof fn law_prefixes_and_endings(p: Seq<char>, rest: Seq<char>, s: Seq<char>)
    ensures
        text::after(p + rest, p) == Some(rest),
        text::ends(rest + p, p),
        text::holds(rest + p + s, p),
        s.len() < p.len() ==> text::after(s, p) is None && !text::ends(s, p),
        text::after(s, p) matches Some(r) ==> s == p + r,
{
    assert((p + rest).take(p.len() as int) =~= p);
    assert((p + rest).skip(p.len() as int) =~= rest);
    let e = rest + p;
    assert(e.skip(e.len() - p.len()) =~= p);
    let h = rest + p + s;
    assert(h.skip(rest.len() as int).take(p.len() as int) =~= p);
    assert(text::begins(h.skip(rest.len() as int), p));
    if text::begins(s, p) {
        assert(s =~= p + s.skip(p.len() as int));
    }
}

/// A path below a directory has one slash between them.
pub proof fn law_paths_are_joined(dir: Seq<char>, rel: Seq<char>)
    ensures
        dir.len() > 0 && dir.last() != '/' ==> text::below(dir, rel) == dir + "/"@ + rel,
        dir.len() > 0 && dir.last() == '/' ==> text::below(dir, rel) == dir + rel,
        text::below(Seq::<char>::empty(), rel) == rel,
{
    assert(Seq::<char>::empty() + rel =~= rel);
}

/// Replacing goes from left to right, and leaves what does not match.
pub proof fn law_matches_are_replaced(s: Seq<char>, p: Seq<char>, t: Seq<char>, c: char)
    requires
        p.len() == 1,
        c != p[0],
    ensures
        text::replaced(p + s, p, t) == t + text::replaced(s, p, t),
        text::replaced(seq![c] + s, p, t) == seq![c] + text::replaced(s, p, t),
        text::replaced(Seq::<char>::empty(), p, t).len() == 0,
{
    assert((p + s).take(1) =~= p);
    assert((p + s).skip(1) =~= s);
    let x = seq![c] + s;
    assert(x.take(1)[0] == c);
    assert(x.skip(1) =~= s);
}

/// Two texts are alike just where they differ in the case of ASCII letters alone.
pub proof fn law_case_does_not_matter(a: Seq<char>, b: Seq<char>, c: char, d: char)
    requires
        text::alike(a, b),
    ensures
        text::alike(a.push(c), b.push(c)),
        text::alike(a.push('A'), b.push('a')),
        text::alike(a.push('Z'), b.push('z')),
        text::ascii_lower(c) != text::ascii_lower(d) ==> !text::alike(a.push(c), b.push(d)),
        !text::alike(a.push(c), b),
{
    let n = a.len() as int;
    assert(a.push(c)[n] == c && b.push(d)[n] == d);
    assert forall|i: int| 0 <= i < n + 1 implies text::ascii_lower(#[trigger] a.push(c)[i])
        == text::ascii_lower(b.push(c)[i]) by {
        if i < n {
            assert(text::ascii_lower(a[i]) == text::ascii_lower(b[i]));
        }
    }
    assert forall|i: int| 0 <= i < n + 1 implies text::ascii_lower(#[trigger] a.push('A')[i])
        == text::ascii_lower(b.push('a')[i]) by {
        if i < n {
            assert(text::ascii_lower(a[i]) == text::ascii_lower(b[i]));
        }
    }
    assert forall|i: int| 0 <= i < n + 1 implies text::ascii_lower(#[trigger] a.push('Z')[i])
        == text::ascii_lower(b.push('z')[i]) by {
        if i < n {
            assert(text::ascii_lower(a[i]) == text::ascii_lower(b[i]));
        }
    }
}

} // verus!
