//! Texts for bytes: base 32, base 64 and base 256.

use vstd::prelude::*;

use crate::gitutil;
use crate::text;

verus! {

// ---------------------------------------------------------------------------
// Bits
// ---------------------------------------------------------------------------

/// The bits of a number, the most significant first.
pub open spec fn bits(n: nat, width: nat) -> Seq<bool>
    decreases width,
{
    if width == 0 {
        Seq::empty()
    } else {
        bits(n / 2, (width - 1) as nat).push(n % 2 == 1)
    }
}

/// The number that bits denote, the most significant first.
pub open spec fn number(b: Seq<bool>) -> nat
    decreases b.len(),
{
    if b.len() == 0 {
        0
    } else {
        number(b.drop_last()) * 2 + (if b.last() {
            1nat
        } else {
            0nat
        })
    }
}

/// Two to a power.
pub open spec fn power(n: nat) -> nat
    decreases n,
{
    if n == 0 {
        1
    } else {
        2 * power((n - 1) as nat)
    }
}

proof fn lemma_bits(n: nat, width: nat)
    requires
        n < power(width),
    ensures
        bits(n, width).len() == width,
        number(bits(n, width)) == n,
    decreases width,
{
    if width > 0 {
        lemma_bits(n / 2, (width - 1) as nat);
        assert(bits(n, width).drop_last() =~= bits(n / 2, (width - 1) as nat));
    }
}

proof fn lemma_bits_len(n: nat, width: nat)
    ensures
        bits(n, width).len() == width,
    decreases width,
{
    if width > 0 {
        lemma_bits_len(n / 2, (width - 1) as nat);
    }
}

proof fn lemma_number(b: Seq<bool>)
    ensures
        number(b) < power(b.len()),
        bits(number(b), b.len()) == b,
    decreases b.len(),
{
    if b.len() > 0 {
        lemma_number(b.drop_last());
        assert(number(b) / 2 == number(b.drop_last()));
        assert(bits(number(b), b.len()) =~= b);
    } else {
        assert(b =~= Seq::empty());
    }
}

/// The bits of numbers of one width, one after the other.
pub open spec fn stream(v: Seq<nat>, width: nat) -> Seq<bool>
    decreases v.len(),
{
    if v.len() == 0 {
        Seq::empty()
    } else {
        stream(v.drop_last(), width) + bits(v.last(), width)
    }
}

proof fn lemma_stream_len(v: Seq<nat>, width: nat)
    ensures
        stream(v, width).len() == v.len() * width,
    decreases v.len(),
{
    if v.len() > 0 {
        lemma_stream_len(v.drop_last(), width);
        lemma_bits_len(v.last(), width);
        assert(v.len() * width == (v.len() - 1) * width + width) by (nonlinear_arith);
    }
}

/// Bits that are not set.
pub open spec fn zeros(n: nat) -> Seq<bool> {
    Seq::new(n, |i: int| false)
}

/// The numbers that bits denote in groups of one width; what is left at the end
/// is filled up with bits that are not set.
pub open spec fn filled_groups(b: Seq<bool>, width: nat) -> Seq<nat>
    decreases b.len(),
{
    if b.len() == 0 || width == 0 {
        Seq::empty()
    } else if b.len() <= width {
        seq![number(b + zeros((width - b.len()) as nat))]
    } else {
        seq![number(b.take(width as int))] + filled_groups(b.skip(width as int), width)
    }
}

/// The numbers that bits denote in groups of one width; what is left at the end is
/// dropped.
pub open spec fn whole_groups(b: Seq<bool>, width: nat) -> Seq<nat>
    decreases b.len(),
{
    if b.len() < width || width == 0 {
        Seq::empty()
    } else {
        seq![number(b.take(width as int))] + whole_groups(b.skip(width as int), width)
    }
}

proof fn lemma_stream_front(n: nat, v: Seq<nat>, width: nat)
    ensures
        stream(seq![n] + v, width) == bits(n, width) + stream(v, width),
    decreases v.len(),
{
    let w = seq![n] + v;
    if v.len() == 0 {
        assert(w =~= seq![n]);
        assert(w.drop_last() =~= Seq::empty());
        reveal_with_fuel(stream, 2);
        assert(stream(w, width) =~= bits(n, width) + stream(v, width));
    } else {
        lemma_stream_front(n, v.drop_last(), width);
        assert(w.drop_last() =~= seq![n] + v.drop_last());
        assert(stream(w, width) =~= bits(n, width) + stream(v, width));
    }
}

/// The bits of the groups of bits are the bits, filled up at the end.
proof fn lemma_filled_groups(b: Seq<bool>, width: nat)
    requires
        width > 0,
    ensures
        exists|k: nat|
            k < width && stream(filled_groups(b, width), width) == b + #[trigger] zeros(k),
        forall|i: int|
            0 <= i < filled_groups(b, width).len() ==> #[trigger] filled_groups(b, width)[i]
                < power(width),
    decreases b.len(),
{
    let g = filled_groups(b, width);
    if b.len() == 0 {
        assert(b + zeros(0) =~= Seq::empty());
        assert(stream(g, width) == b + zeros(0));
    } else if b.len() <= width {
        let k = (width - b.len()) as nat;
        let f = b + zeros(k);
        lemma_number(f);
        assert(g.drop_last() =~= Seq::empty());
        reveal_with_fuel(stream, 2);
        assert(stream(g, width) =~= f);
    } else {
        let head = b.take(width as int);
        let tail = b.skip(width as int);
        lemma_number(head);
        lemma_filled_groups(tail, width);
        let rest = filled_groups(tail, width);
        let k = choose|k: nat| k < width && stream(rest, width) == tail + #[trigger] zeros(k);
        lemma_stream_front(number(head), rest, width);
        assert(stream(g, width) =~= b + zeros(k));
    }
}

/// Whole groups of the bits of numbers, with fewer bits behind them than a group
/// has, are the numbers.
proof fn lemma_whole_groups(v: Seq<nat>, width: nat, k: nat)
    requires
        0 < width,
        k < width,
        forall|i: int| 0 <= i < v.len() ==> #[trigger] v[i] < power(width),
    ensures
        whole_groups(stream(v, width) + zeros(k), width) == v,
    decreases v.len(),
{
    let b = stream(v, width) + zeros(k);
    if v.len() == 0 {
        assert(b.len() == k);
        assert(v =~= Seq::empty());
    } else {
        let rest = v.skip(1);
        assert(v =~= seq![v[0]] + rest);
        lemma_stream_front(v[0], rest, width);
        lemma_bits(v[0], width);
        assert forall|i: int| 0 <= i < rest.len() implies #[trigger] rest[i] < power(width) by {
            assert(rest[i] == v[i + 1]);
        }
        lemma_whole_groups(rest, width, k);
        assert(b.take(width as int) =~= bits(v[0], width));
        assert(b.skip(width as int) =~= stream(rest, width) + zeros(k));
        assert(whole_groups(b, width) =~= v);
    }
}

fn push_bits(out: &mut Vec<bool>, n: u8, width: usize)
    ensures
        final(out)@ == old(out)@ + bits(n as nat, width as nat),
    decreases width,
{
    let ghost o = out@;
    if width > 0 {
        push_bits(out, n / 2, width - 1);
        out.push(n % 2 == 1);
    }
    assert(out@ =~= o + bits(n as nat, width as nat));
}

fn read_bits(b: &Vec<bool>, from: usize, width: usize) -> (r: u8)
    requires
        from + width <= b@.len(),
        width <= 8,
    ensures
        r == number(b@.subrange(from as int, from + width)),
        (r as nat) < power(width as nat),
    decreases width,
{
    let n: usize = b.len();
    assert(from + width <= n);
    if width == 0 {
        0
    } else {
        let hi: u8 = read_bits(b, from, width - 1);
        proof {
            let s = b@.subrange(from as int, from + width);
            assert(s.drop_last() =~= b@.subrange(from as int, from + width - 1));
            reveal_with_fuel(power, 9);
        }
        hi * 2 + (if b[from + (width - 1)] {
            1
        } else {
            0
        })
    }
}

// ---------------------------------------------------------------------------
// Base 32
// ---------------------------------------------------------------------------

/// The character for a number under 32.
pub open spec fn letter(n: nat) -> char {
    if n < 26 {
        ('A' as nat + n) as char
    } else {
        ('2' as nat + (n - 26)) as char
    }
}

/// The number that a character stands for; the case of letters does not matter.
pub open spec fn letter_value(c: char) -> Option<nat> {
    if 'A' <= c <= 'Z' {
        Some((c as nat - 'A' as nat) as nat)
    } else if 'a' <= c <= 'z' {
        Some((c as nat - 'a' as nat) as nat)
    } else if '2' <= c <= '7' {
        Some((c as nat - '2' as nat + 26) as nat)
    } else {
        None
    }
}

/// Bytes as numbers.
pub open spec fn naturals(b: Seq<u8>) -> Seq<nat> {
    Seq::new(b.len(), |i: int| b[i] as nat)
}

/// The characters for numbers under 32.
pub open spec fn to_letters(g: Seq<nat>) -> Seq<char> {
    Seq::new(g.len(), |i: int| letter(g[i]))
}

/// The numbers that characters stand for.
pub open spec fn letter_values(s: Seq<char>) -> Seq<nat> {
    Seq::new(s.len(), |i: int| letter_value(s[i])->0)
}

/// Numbers as bytes.
pub open spec fn to_bytes(g: Seq<nat>) -> Seq<u8> {
    Seq::new(g.len(), |i: int| g[i] as u8)
}

/// The characters of bytes in base 32: their bits in groups of five.
pub open spec fn letters(b: Seq<u8>) -> Seq<char> {
    to_letters(filled_groups(stream(naturals(b), 8), 5))
}

/// A text that is filled up with equals signs to a multiple of eight characters.
pub open spec fn padded(s: Seq<char>) -> Seq<char> {
    s + Seq::new(((8 - s.len() % 8) % 8) as nat, |i: int| '=')
}

/// Bytes in base 32.
pub open spec fn base32(b: Seq<u8>) -> Seq<char> {
    padded(letters(b))
}

/// A text without the equals signs at its end.
pub open spec fn without_padding(s: Seq<char>) -> Seq<char>
    decreases s.len(),
{
    if s.len() > 0 && s.last() == '=' {
        without_padding(s.drop_last())
    } else {
        s
    }
}

/// Every character stands for a number.
pub open spec fn all_letters(s: Seq<char>) -> bool {
    forall|i: int| 0 <= i < s.len() ==> letter_value(#[trigger] s[i]) is Some
}

/// The bytes that characters stand for in base 32: their bits in groups of eight.
pub open spec fn letter_bytes(s: Seq<char>) -> Seq<u8> {
    to_bytes(whole_groups(stream(letter_values(s), 5), 8))
}

/// The bytes that a text denotes in base 32; equals signs at its end do not
/// matter.
pub open spec fn base32_bytes(s: Seq<char>) -> Option<Seq<u8>> {
    let t = without_padding(s);
    if all_letters(t) {
        Some(letter_bytes(t))
    } else {
        None
    }
}

proof fn lemma_without_padding(s: Seq<char>, n: nat)
    requires
        s.len() > 0 ==> s.last() != '=',
    ensures
        without_padding(s + Seq::new(n, |i: int| '=')) == s,
    decreases n,
{
    let t = s + Seq::new(n, |i: int| '=');
    if n == 0 {
        assert(t =~= s);
    } else {
        lemma_without_padding(s, (n - 1) as nat);
        assert(t.drop_last() =~= s + Seq::new((n - 1) as nat, |i: int| '='));
    }
}

/// Bytes are read from base 32 as they were.
pub proof fn law_base32_round_trip(b: Seq<u8>)
    ensures
        base32_bytes(base32(b)) == Some(b),
{
    let v = naturals(b);
    let g = filled_groups(stream(v, 8), 5);
    let s = letters(b);
    lemma_filled_groups(stream(v, 8), 5);
    let k = choose|k: nat| k < 5 && stream(g, 5) == stream(v, 8) + #[trigger] zeros(k);
    reveal_with_fuel(power, 9);
    assert(power(5) == 32);
    assert(power(8) == 256);
    assert forall|i: int| 0 <= i < s.len() implies letter_value(#[trigger] s[i]) == Some(g[i]) && s[i]
        != '=' by {
        assert(s[i] == letter(g[i]));
        assert(g[i] < 32);
    }
    lemma_without_padding(s, ((8 - s.len() % 8) % 8) as nat);
    assert(without_padding(base32(b)) == s);
    assert(letter_values(s) =~= g);
    assert forall|i: int| 0 <= i < v.len() implies #[trigger] v[i] < power(8) by {}
    lemma_whole_groups(v, 8, k);
    assert(letter_bytes(s) =~= b);
}

proof fn lemma_filled_groups_len(b: Seq<bool>, width: nat)
    requires
        width > 0,
    ensures
        filled_groups(b, width).len() * width >= b.len(),
        filled_groups(b, width).len() * width < b.len() + width,
    decreases b.len(),
{
    let n = filled_groups(b, width).len();
    if b.len() == 0 {
        assert(n == 0);
    } else if b.len() <= width {
        assert(n == 1);
    } else {
        lemma_filled_groups_len(b.skip(width as int), width);
        let m = filled_groups(b.skip(width as int), width).len();
        assert(n == m + 1);
        assert(n * width == m * width + width) by (nonlinear_arith)
            requires
                n == m + 1,
        ;
    }
}

/// The length of bytes in base 32: eight characters for every five bytes or part
/// of them. All are ASCII.
pub proof fn lemma_base32_len(b: Seq<u8>)
    ensures
        base32(b).len() == (b.len() + 4) / 5 * 8,
        vstd::utf8::is_ascii_chars(base32(b)),
{
    let v = naturals(b);
    let g = filled_groups(stream(v, 8), 5);
    lemma_stream_len(v, 8);
    lemma_filled_groups_len(stream(v, 8), 5);
    lemma_filled_groups(stream(v, 8), 5);
    reveal_with_fuel(power, 6);
    let s = letters(b);
    assert forall|i: int| 0 <= i < s.len() implies (#[trigger] s[i] as nat) < 128 by {
        assert(s[i] == letter(g[i]));
    }
}

fn letter_char(n: u8) -> (r: char)
    requires
        n < 32,
    ensures
        r == letter(n as nat),
{
    if n < 26 {
        (0x41u8 + n) as char
    } else {
        (0x32u8 + (n - 26)) as char
    }
}

fn letter_number(c: char) -> (r: Option<u8>)
    ensures
        match r {
            Some(n) => letter_value(c) == Some(n as nat) && n < 32,
            None => letter_value(c) is None,
        },
{
    let n: u32 = c as u32;
    if 'A' <= c && c <= 'Z' {
        Some((n - 65) as u8)
    } else if 'a' <= c && c <= 'z' {
        Some((n - 97) as u8)
    } else if '2' <= c && c <= '7' {
        Some((n - 50 + 26) as u8)
    } else {
        None
    }
}

fn byte_bits(b: &[u8]) -> (r: Vec<bool>)
    ensures
        r@ == stream(naturals(b@), 8),
{
    let ghost all = naturals(b@);
    let mut out: Vec<bool> = Vec::new();
    let mut i: usize = 0;
    assert(all.take(0) =~= Seq::empty());
    assert(out@ =~= Seq::empty());
    while i < b.len()
        invariant
            i <= b@.len(),
            all == naturals(b@),
            out@ == stream(all.take(i as int), 8),
        decreases b@.len() - i,
    {
        assert(all.take(i + 1).drop_last() =~= all.take(i as int));
        assert(all.take(i + 1).last() == b@[i as int] as nat);
        push_bits(&mut out, b[i], 8);
        i = i + 1;
    }
    assert(all.take(all.len() as int) =~= all);
    out
}

/// Writes bytes in base 32.
pub fn base32_encode(b: &[u8]) -> (r: String)
    ensures
        r@ == base32(b@),
{
    let v = byte_bits(b);
    let ghost all = v@;
    let mut out: Vec<char> = Vec::new();
    let n: usize = v.len();
    let mut from: usize = 0;
    assert(all.skip(0) =~= all);
    assert(out@ + to_letters(filled_groups(all, 5)) =~= to_letters(filled_groups(all, 5)));
    while n - from > 5
        invariant
            from <= n == v@.len(),
            v@ == all,
            out@ + to_letters(filled_groups(all.skip(from as int), 5)) == to_letters(filled_groups(
                all,
                5,
            )),
        decreases n - from,
    {
        let k: u8 = read_bits(&v, from, 5);
        proof {
            reveal_with_fuel(power, 6);
            let rest = all.skip(from as int);
            assert(rest.take(5) =~= all.subrange(from as int, from + 5));
            assert(rest.skip(5) =~= all.skip(from + 5));
            assert(to_letters(filled_groups(rest, 5)) =~= seq![letter(k as nat)]
                + to_letters(filled_groups(all.skip(from + 5), 5)));
        }
        let ghost before = out@;
        out.push(letter_char(k));
        assert(out@ + to_letters(filled_groups(all.skip(from + 5), 5)) =~= before + (seq![
            letter(k as nat),
        ] + to_letters(filled_groups(all.skip(from + 5), 5))));
        from = from + 5;
    }
    let ghost rest = all.skip(from as int);
    if from < n {
        let ghost missing = (5 - (n - from)) as nat;
        let mut last: Vec<bool> = Vec::new();
        let mut i: usize = from;
        while i < n
            invariant
                from <= i <= n == v@.len(),
                v@ == all,
                last@ =~= all.subrange(from as int, i as int),
            decreases n - i,
        {
            last.push(v[i]);
            i = i + 1;
        }
        assert(last@ =~= rest);
        while last.len() < 5
            invariant
                rest.len() <= last@.len() <= 5,
                last@ =~= rest + zeros((last@.len() - rest.len()) as nat),
            decreases 5 - last@.len(),
        {
            last.push(false);
        }
        assert(last@ =~= rest + zeros(missing));
        let k: u8 = read_bits(&last, 0, 5);
        proof {
            reveal_with_fuel(power, 6);
            assert(last@.subrange(0, 5) =~= last@);
            assert(to_letters(filled_groups(rest, 5)) =~= seq![letter(k as nat)]);
        }
        let ghost before = out@;
        out.push(letter_char(k));
        assert(out@ =~= before + seq![letter(k as nat)]);
    } else {
        assert(to_letters(filled_groups(rest, 5)) =~= Seq::empty());
        assert(out@ + Seq::<char>::empty() =~= out@);
    }
    assert(out@ == letters(b@));
    let ghost s = out@;
    while out.len() % 8 != 0
        invariant
            s.len() <= out@.len() <= s.len() + (8 - s.len() % 8) % 8,
            out@ =~= s + Seq::new((out@.len() - s.len()) as nat, |i: int| '='),
        decreases s.len() + (8 - s.len() % 8) % 8 - out@.len(),
    {
        out.push('=');
    }
    assert(out@ =~= padded(s));
    text::string(out.as_slice(), 0, out.len())
}

/// Reads bytes from base 32.
pub fn base32_decode(input: &str) -> (r: Option<Vec<u8>>)
    ensures
        gitutil::bytes_view(r) == base32_bytes(input@),
{
    let v = text::chars(input);
    let mut n: usize = v.len();
    assert(v@.take(n as int) =~= v@);
    while n > 0 && v[n - 1] == '='
        invariant
            n <= v@.len(),
            without_padding(v@.take(n as int)) == without_padding(v@),
        decreases n,
    {
        assert(v@.take(n as int).drop_last() =~= v@.take(n - 1));
        n = n - 1;
    }
    let ghost t = v@.take(n as int);
    let ghost values = letter_values(t);
    let mut b: Vec<bool> = Vec::new();
    let mut i: usize = 0;
    assert(values.take(0) =~= Seq::empty());
    assert(b@ =~= Seq::empty());
    while i < n
        invariant
            i <= n <= v@.len(),
            t == v@.take(n as int),
            without_padding(v@) == t,
            v@ == input@,
            values == letter_values(t),
            forall|j: int| 0 <= j < i ==> letter_value(#[trigger] t[j]) is Some,
            b@ == stream(values.take(i as int), 5),
        decreases n - i,
    {
        assert(t[i as int] == v@[i as int]);
        match letter_number(v[i]) {
            Some(k) => {
                assert(values.take(i + 1).drop_last() =~= values.take(i as int));
                assert(values.take(i + 1).last() == k as nat);
                push_bits(&mut b, k, 5);
            },
            None => {
                return None;
            },
        }
        i = i + 1;
    }
    assert(values.take(n as int) =~= values);
    let ghost all = b@;
    let mut out: Vec<u8> = Vec::new();
    let m: usize = b.len();
    let mut from: usize = 0;
    assert(all.skip(0) =~= all);
    assert(out@ + to_bytes(whole_groups(all, 8)) =~= to_bytes(whole_groups(all, 8)));
    while m - from >= 8
        invariant
            from <= m == b@.len(),
            b@ == all,
            out@ + to_bytes(whole_groups(all.skip(from as int), 8)) == to_bytes(whole_groups(
                all,
                8,
            )),
        decreases m - from,
    {
        let k: u8 = read_bits(&b, from, 8);
        proof {
            let rest = all.skip(from as int);
            assert(rest.take(8) =~= all.subrange(from as int, from + 8));
            assert(rest.skip(8) =~= all.skip(from + 8));
            assert(to_bytes(whole_groups(rest, 8)) =~= seq![k] + to_bytes(whole_groups(
                all.skip(from + 8),
                8,
            )));
        }
        let ghost before = out@;
        out.push(k);
        assert(out@ + to_bytes(whole_groups(all.skip(from + 8), 8)) =~= before + (seq![k]
            + to_bytes(whole_groups(all.skip(from + 8), 8))));
        from = from + 8;
    }
    assert(to_bytes(whole_groups(all.skip(from as int), 8)) =~= Seq::empty());
    assert(out@ =~= letter_bytes(t));
    Some(out)
}

// ---------------------------------------------------------------------------
// Base 64
// ---------------------------------------------------------------------------

/// What `base64::engine::general_purpose::URL_SAFE` makes of bytes.
pub uninterp spec fn base64(b: Seq<u8>) -> Seq<char>;

/// The bytes that `base64::engine::general_purpose::URL_SAFE` finds in a text.
pub uninterp spec fn base64_bytes(s: Seq<char>) -> Option<Seq<u8>>;

/// `base64::engine::general_purpose::URL_SAFE.encode`. The text depends on the
/// bytes alone.
#[verifier::external_body]
pub(crate) fn base64_encode(b: &[u8]) -> (r: String)
    ensures
        r@ == base64(b@),
{
    base64::Engine::encode(&base64::engine::general_purpose::URL_SAFE, b)
}

/// `base64::engine::general_purpose::URL_SAFE.decode`. The bytes depend on the
/// text alone, and are those that were encoded where it came from `encode`.
#[verifier::external_body]
pub(crate) fn base64_decode(s: &str) -> (r: Option<Vec<u8>>)
    ensures
        gitutil::bytes_view(r) == base64_bytes(s@),
        forall|b: Seq<u8>| s@ == #[trigger] base64(b) ==> r is Some && r->0@ == b,
{
    base64::Engine::decode(&base64::engine::general_purpose::URL_SAFE, s).ok()
}

// ---------------------------------------------------------------------------
// Base 256
// ---------------------------------------------------------------------------

/// The characters of base 256, in order of the bytes that they stand for.
pub const B256: &'static str = "abcdefghijklmnopqrstuvxyzæø01234ABCDEFGHIJKLMNOPQRSTUWXYZÆØ56789αβγδεζηθικλμνξπρστφχψωΓΔΘΛΞΠΣΦΨΩБДЖЗИЛПЦЧШЩЪЫЭЮЯбджзилпцчшщъыэюяԱԲԳԴԵԶԷԸԹԺԻԽԾԿՀՁՂՃՄՅՆՇՈՉՊՋՎՐՑՒՔՖᚠᚢᚦᚱᚹᚺᚾᛈᛇᛉᛊᛏᛒᛖᛗᛟｲｳｵｶｷｹｻｼｽｾﾀﾁﾃﾄﾅﾇﾈﾋﾌﾍﾎﾏﾐﾑﾒﾓﾔﾗﾘﾙﾚﾜ𐑐𐑑𐑒𐑔𐑕𐑗𐑙𐑳𐑶𐑸𐑹𐑺𐑻𐑽𐑾𐑿᱑᱕᱘᱙ᱚᱝᱟᱣᱦᱨᱬᱭᱰᱳᱶᱷ𐌳𐌸𐌾𐐀𐐁𐐂𐐆𐐇𐐈𐐉𐐊𐐋𐐌𐐍𐐎𐐏";

spec fn below_sixteen(n: int) -> bool {
    n == 0 || n == 1 || n == 2 || n == 3
        || n == 4 || n == 5 || n == 6 || n == 7
        || n == 8 || n == 9 || n == 10 || n == 11
        || n == 12 || n == 13 || n == 14 || n == 15
}

proof fn lemma_b256_len()
    ensures
        B256@.len() == 256,
{
    reveal_strlit("abcdefghijklmnopqrstuvxyzæø01234ABCDEFGHIJKLMNOPQRSTUWXYZÆØ56789αβγδεζηθικλμνξπρστφχψωΓΔΘΛΞΠΣΦΨΩБДЖЗИЛПЦЧШЩЪЫЭЮЯбджзилпцчшщъыэюяԱԲԳԴԵԶԷԸԹԺԻԽԾԿՀՁՂՃՄՅՆՇՈՉՊՋՎՐՑՒՔՖᚠᚢᚦᚱᚹᚺᚾᛈᛇᛉᛊᛏᛒᛖᛗᛟｲｳｵｶｷｹｻｼｽｾﾀﾁﾃﾄﾅﾇﾈﾋﾌﾍﾎﾏﾐﾑﾒﾓﾔﾗﾘﾙﾚﾜ𐑐𐑑𐑒𐑔𐑕𐑗𐑙𐑳𐑶𐑸𐑹𐑺𐑻𐑽𐑾𐑿᱑᱕᱘᱙ᱚᱝᱟᱣᱦᱨᱬᱭᱰᱳᱶᱷ𐌳𐌸𐌾𐐀𐐁𐐂𐐆𐐇𐐈𐐉𐐊𐐋𐐌𐐍𐐎𐐏");
}

/// No character stands for two bytes.
proof fn lemma_b256_distinct(i: int, j: int)
    requires
        0 <= i < j < 256,
    ensures
        B256@[i] != B256@[j],
{
    reveal_strlit("abcdefghijklmnopqrstuvxyzæø01234ABCDEFGHIJKLMNOPQRSTUWXYZÆØ56789αβγδεζηθικλμνξπρστφχψωΓΔΘΛΞΠΣΦΨΩБДЖЗИЛПЦЧШЩЪЫЭЮЯбджзилпцчшщъыэюяԱԲԳԴԵԶԷԸԹԺԻԽԾԿՀՁՂՃՄՅՆՇՈՉՊՋՎՐՑՒՔՖᚠᚢᚦᚱᚹᚺᚾᛈᛇᛉᛊᛏᛒᛖᛗᛟｲｳｵｶｷｹｻｼｽｾﾀﾁﾃﾄﾅﾇﾈﾋﾌﾍﾎﾏﾐﾑﾒﾓﾔﾗﾘﾙﾚﾜ𐑐𐑑𐑒𐑔𐑕𐑗𐑙𐑳𐑶𐑸𐑹𐑺𐑻𐑽𐑾𐑿᱑᱕᱘᱙ᱚᱝᱟᱣᱦᱨᱬᱭᱰᱳᱶᱷ𐌳𐌸𐌾𐐀𐐁𐐂𐐆𐐇𐐈𐐉𐐊𐐋𐐌𐐍𐐎𐐏");
    assert(below_sixteen(i / 16) && below_sixteen(i % 16));
    assert(below_sixteen(j / 16) && below_sixteen(j % 16));
}

/// Bytes in base 256: a character each.
pub open spec fn base256(b: Seq<u8>) -> Seq<char> {
    Seq::new(b.len(), |i: int| B256@[b[i] as int])
}

/// The bytes that a text denotes in base 256.
pub open spec fn base256_bytes(s: Seq<char>) -> Option<Seq<u8>> {
    if forall|i: int| 0 <= i < s.len() ==> text::first_of(B256@, #[trigger] s[i]) is Some {
        Some(Seq::new(s.len(), |i: int| text::first_of(B256@, s[i])->0 as u8))
    } else {
        None
    }
}

/// Bytes are read from base 256 as they were.
pub proof fn law_base256_round_trip(b: Seq<u8>)
    ensures
        base256_bytes(base256(b)) == Some(b),
{
    let s = base256(b);
    lemma_b256_len();
    assert forall|i: int| 0 <= i < s.len() implies text::first_of(B256@, #[trigger] s[i]) == Some(
        b[i] as int,
    ) by {
        let k = b[i] as int;
        assert(s[i] == B256@[k]);
        assert forall|j: int| 0 <= j < k implies B256@[j] != s[i] by {
            lemma_b256_distinct(j, k);
        }
        text::lemma_first_is(B256@, s[i], k);
    }
    assert(base256_bytes(s)->0 =~= b);
}

/// Writes bytes in base 256.
pub fn base256_encode(b: &[u8]) -> (r: String)
    ensures
        r@ == base256(b@),
{
    proof {
        lemma_b256_len();
    }
    let table = text::chars(B256);
    let mut out: Vec<char> = Vec::new();
    let mut i: usize = 0;
    while i < b.len()
        invariant
            i <= b@.len(),
            table@ == B256@,
            table@.len() == 256,
            out@ =~= base256(b@.take(i as int)),
        decreases b@.len() - i,
    {
        out.push(table[b[i] as usize]);
        i = i + 1;
    }
    assert(b@.take(b@.len() as int) =~= b@);
    text::string(out.as_slice(), 0, out.len())
}

/// Reads bytes from base 256.
pub fn base256_decode(input: &str) -> (r: Option<Vec<u8>>)
    ensures
        gitutil::bytes_view(r) == base256_bytes(input@),
{
    proof {
        lemma_b256_len();
    }
    let table = text::chars(B256);
    let v = text::chars(input);
    let mut out: Vec<u8> = Vec::new();
    let mut i: usize = 0;
    while i < v.len()
        invariant
            i <= v@.len(),
            v@ == input@,
            table@ == B256@,
            table@.len() == 256,
            out@.len() == i,
            forall|j: int|
                0 <= j < i ==> text::first_of(B256@, #[trigger] v@[j]) == Some(out@[j] as int),
        decreases v@.len() - i,
    {
        assert(table@.skip(0) =~= table@);
        match text::find_from(table.as_slice(), 0, v[i]) {
            Some(k) => {
                out.push(k as u8);
            },
            None => {
                return None;
            },
        }
        i = i + 1;
    }
    assert(base256_bytes(input@)->0 =~= out@);
    Some(out)
}

} // verus!
