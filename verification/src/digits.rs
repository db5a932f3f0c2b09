//! Numbers as text: decimal and hexadecimal.

use vstd::prelude::*;

use crate::text;

verus! {

// ---------------------------------------------------------------------------
// Specification
// ---------------------------------------------------------------------------

/// The decimal digit of a number under ten.
pub open spec fn digit(n: nat) -> char {
    ('0' as nat + n) as char
}

/// The decimal notation of a number.
pub open spec fn dec(n: nat) -> Seq<char>
    decreases n,
{
    if n < 10 {
        seq![digit(n)]
    } else {
        dec(n / 10).push(digit(n % 10))
    }
}

/// The decimal notation of an integer, with `-` before a negative one.
pub open spec fn signed_dec(n: int) -> Seq<char> {
    if n < 0 {
        seq!['-'] + dec((-n) as nat)
    } else {
        dec(n as nat)
    }
}

/// `c` is a decimal digit.
pub open spec fn is_digit(c: char) -> bool {
    '0' <= c <= '9'
}

/// All of `s` are decimal digits.
pub open spec fn all_digits(s: Seq<char>) -> bool {
    forall|i: int| 0 <= i < s.len() ==> is_digit(#[trigger] s[i])
}

/// The number that a row of decimal digits denotes.
pub open spec fn number(s: Seq<char>) -> nat
    decreases s.len(),
{
    if s.len() == 0 {
        0
    } else {
        number(s.drop_last()) * 10 + (s.last() as nat - '0' as nat) as nat
    }
}

/// `s` without one leading plus sign.
pub open spec fn unsigned_part(s: Seq<char>) -> Seq<char> {
    if s.len() > 0 && s[0] == '+' {
        s.skip(1)
    } else {
        s
    }
}

/// The number up to `max` that `s` denotes: at least one decimal digit, after an
/// optional plus sign.
pub open spec fn unsigned(s: Seq<char>, max: nat) -> Option<nat> {
    let d = unsigned_part(s);
    if d.len() > 0 && all_digits(d) && number(d) <= max {
        Some(number(d))
    } else {
        None
    }
}

/// The value of a hexadecimal digit of either case.
pub open spec fn hex_value(c: char) -> Option<nat> {
    if '0' <= c <= '9' {
        Some((c as nat - '0' as nat) as nat)
    } else if 'a' <= c <= 'f' {
        Some((c as nat - 'a' as nat + 10) as nat)
    } else if 'A' <= c <= 'F' {
        Some((c as nat - 'A' as nat + 10) as nat)
    } else {
        None
    }
}

/// `c` is a hexadecimal digit of either case.
pub open spec fn is_hex(c: char) -> bool {
    hex_value(c) is Some
}

/// The lower case hexadecimal digit of a number under sixteen.
pub open spec fn hex_digit(n: nat) -> char {
    if n < 10 {
        ('0' as nat + n) as char
    } else {
        ('a' as nat + (n - 10)) as char
    }
}

/// Two lower case hexadecimal digits for each byte.
pub open spec fn hex_text(b: Seq<u8>) -> Seq<char> {
    Seq::new(
        2 * b.len(),
        |i: int|
            if i % 2 == 0 {
                hex_digit((b[i / 2] / 16) as nat)
            } else {
                hex_digit((b[i / 2] % 16) as nat)
            },
    )
}

/// The bytes that a text of hexadecimal digits denotes, two digits each. An odd
/// number of characters or any other character gives none.
pub open spec fn hex_bytes(s: Seq<char>) -> Option<Seq<u8>> {
    if s.len() % 2 == 0 && (forall|i: int| 0 <= i < s.len() ==> is_hex(#[trigger] s[i])) {
        Some(hex_pairs(s))
    } else {
        None
    }
}

/// The bytes of a text that is known to hold pairs of hexadecimal digits.
pub open spec fn hex_pairs(s: Seq<char>) -> Seq<u8> {
    Seq::new(
        s.len() / 2,
        |i: int| (hex_value(s[2 * i])->0 * 16 + hex_value(s[2 * i + 1])->0) as u8,
    )
}

/// The number that two bytes of text denote in hexadecimal: two digits, or a plus
/// sign and a digit.
pub open spec fn hex_byte(a: u8, b: u8) -> Option<u8> {
    match hex_value(b as char) {
        Some(y) => match hex_value(a as char) {
            Some(x) => Some((x * 16 + y) as u8),
            None => if a == 0x2b {
                Some(y as u8)
            } else {
                None
            },
        },
        None => None,
    }
}

/// The bytes that a text denotes in hexadecimal, two bytes of it each. Any that do
/// not denote a number, or an odd number of them, give none.
pub open spec fn hex_input(b: Seq<u8>) -> Option<Seq<u8>> {
    if b.len() % 2 == 0 && (forall|i: int|
        0 <= i < b.len() / 2 ==> (#[trigger] hex_byte(b[2 * i], b[2 * i + 1])) is Some) {
        Some(Seq::new(b.len() / 2, |i: int| hex_byte(b[2 * i], b[2 * i + 1])->0))
    } else {
        None
    }
}

// ---------------------------------------------------------------------------
// Laws
// ---------------------------------------------------------------------------

/// Reading the decimal notation of a number gives the number back.
pub proof fn law_decimal_round_trip(n: nat, max: nat)
    requires
        n <= max,
    ensures
        unsigned(dec(n), max) == Some(n),
{
    lemma_dec(n);
    assert(unsigned_part(dec(n)) == dec(n)) by {
        assert(is_digit(dec(n)[0]));
    }
}

/// The decimal notation holds digits only, at least one, and denotes the number.
pub proof fn lemma_dec(n: nat)
    ensures
        dec(n).len() > 0,
        all_digits(dec(n)),
        number(dec(n)) == n,
    decreases n,
{
    if n < 10 {
        assert(dec(n).drop_last() =~= Seq::<char>::empty());
        assert(number(Seq::<char>::empty()) == 0);
    } else {
        lemma_dec(n / 10);
        assert(dec(n).drop_last() =~= dec(n / 10));
    }
}

/// Reading the hexadecimal notation of bytes gives the bytes back.
pub proof fn law_hex_round_trip(b: Seq<u8>)
    ensures
        hex_bytes(hex_text(b)) == Some(b),
{
    let t = hex_text(b);
    assert forall|i: int| 0 <= i < t.len() implies is_hex(#[trigger] t[i]) by {}
    assert(hex_pairs(t) =~= b) by {
        assert forall|i: int| 0 <= i < b.len() implies hex_pairs(t)[i] == b[i] by {
            assert((2 * i) / 2 == i && (2 * i + 1) / 2 == i);
            assert(t[2 * i] == hex_digit((b[i] / 16) as nat));
            assert(t[2 * i + 1] == hex_digit((b[i] % 16) as nat));
        }
    }
}

// ---------------------------------------------------------------------------
// Executable functions
// ---------------------------------------------------------------------------

fn digit_char(n: u8) -> (r: char)
    requires
        n < 10,
    ensures
        r == digit(n as nat),
{
    (0x30u8 + n) as char
}

/// Writes a number in decimal.
pub fn decimal(n: u64) -> (r: String)
    ensures
        r@ == dec(n as nat),
    decreases n,
{
    let mut r = if n < 10 {
        String::new()
    } else {
        decimal(n / 10)
    };
    r.push(digit_char((n % 10) as u8));
    assert(r@ =~= dec(n as nat));
    r
}

/// Writes a wide number in decimal.
pub fn decimal_wide(n: u128) -> (r: String)
    ensures
        r@ == dec(n as nat),
    decreases n,
{
    let mut r = if n < 10 {
        String::new()
    } else {
        decimal_wide(n / 10)
    };
    r.push(digit_char((n % 10) as u8));
    assert(r@ =~= dec(n as nat));
    r
}

/// Writes an integer in decimal.
pub fn signed_decimal(n: i64) -> (r: String)
    ensures
        r@ == signed_dec(n as int),
{
    if n < 0 {
        let m: u64 = if n == i64::MIN {
            9223372036854775808
        } else {
            (-n) as u64
        };
        let d = decimal(m);
        let mut r = String::new();
        r.push('-');
        r.append(d.as_str());
        assert(r@ =~= signed_dec(n as int));
        r
    } else {
        decimal(n as u64)
    }
}

/// Reads a number up to `max`.
pub fn parse_unsigned(s: &str, max: u64) -> (r: Option<u64>)
    ensures
        match r {
            Some(n) => unsigned(s@, max as nat) == Some(n as nat),
            None => unsigned(s@, max as nat) is None,
        },
{
    let v = text::chars(s);
    let n: usize = v.len();
    let from: usize = if n > 0 && v[0] == '+' {
        1
    } else {
        0
    };
    let ghost d = unsigned_part(s@);
    assert(d =~= s@.skip(from as int));
    if from == n {
        return None;
    }
    let mut value: u64 = 0;
    let mut i: usize = from;
    assert(d.take(0) =~= Seq::<char>::empty());
    while i < n
        invariant
            from <= i <= n == v@.len(),
            v@ == s@,
            d == s@.skip(from as int),
            d == unsigned_part(s@),
            all_digits(d.take(i - from)),
            value == number(d.take(i - from)),
            value <= max,
        decreases n - i,
    {
        let c = v[i];
        let ghost k = i - from;
        assert(d[k] == c);
        assert(d.take(k + 1).drop_last() =~= d.take(k));
        if c < '0' || '9' < c {
            assert(!is_digit(d[k]));
            return None;
        }
        let x: u64 = (c as u64) - ('0' as u64);
        let y: u128 = (value as u128) * 10 + (x as u128);
        assert(y == number(d.take(k + 1)));
        if y > max as u128 {
            proof {
                lemma_number_grows(d, k + 1);
            }
            return None;
        }
        value = y as u64;
        assert(all_digits(d.take(k + 1))) by {
            assert forall|j: int| 0 <= j < k + 1 implies is_digit(#[trigger] d.take(k + 1)[j]) by {
                if j < k {
                    assert(d.take(k)[j] == d[j]);
                }
            }
        }
        i = i + 1;
    }
    assert(d.take(n - from) =~= d);
    Some(value)
}

/// A row of digits denotes no less than its first `k`.
proof fn lemma_number_grows(d: Seq<char>, k: int)
    requires
        0 <= k <= d.len(),
    ensures
        all_digits(d) ==> number(d.take(k)) <= number(d),
    decreases d.len(),
{
    if all_digits(d) {
        if k == d.len() {
            assert(d.take(k) =~= d);
        } else {
            let e = d.drop_last();
            assert(all_digits(e));
            lemma_number_grows(e, k);
            assert(e.take(k) =~= d.take(k));
            assert(is_digit(d.last()));
            assert(number(e) * 10 >= number(e)) by (nonlinear_arith);
        }
    }
}

/// The value of a hexadecimal digit.
pub fn hex_digit_value(c: char) -> (r: Option<u8>)
    ensures
        match r {
            Some(n) => hex_value(c) == Some(n as nat) && n < 16,
            None => hex_value(c) is None,
        },
{
    if '0' <= c && c <= '9' {
        Some(((c as u32) - ('0' as u32)) as u8)
    } else if 'a' <= c && c <= 'f' {
        Some(((c as u32) - ('a' as u32) + 10) as u8)
    } else if 'A' <= c && c <= 'F' {
        Some(((c as u32) - ('A' as u32) + 10) as u8)
    } else {
        None
    }
}

fn hex_byte_value(a: u8, b: u8) -> (r: Option<u8>)
    ensures
        r == hex_byte(a, b),
{
    match hex_digit_value(b as char) {
        Some(y) => match hex_digit_value(a as char) {
            Some(x) => Some(x * 16 + y),
            None => if a == 0x2b {
                Some(y)
            } else {
                None
            },
        },
        None => None,
    }
}

/// Reads bytes of text as hexadecimal numbers, two bytes each.
pub fn parse_hex(b: &[u8]) -> (r: Option<Vec<u8>>)
    ensures
        match r {
            Some(v) => hex_input(b@) == Some(v@),
            None => hex_input(b@) is None,
        },
{
    let n: usize = b.len();
    if n % 2 != 0 {
        return None;
    }
    let mut out: Vec<u8> = Vec::new();
    let mut i: usize = 0;
    while i < n
        invariant
            i <= n == b@.len(),
            n % 2 == 0,
            i % 2 == 0,
            out@.len() == i / 2,
            forall|j: int|
                0 <= j < i / 2 ==> (#[trigger] hex_byte(b@[2 * j], b@[2 * j + 1])) == Some(out@[j]),
        decreases n - i,
    {
        assert(2 * ((i / 2) as int) == i);
        match hex_byte_value(b[i], b[i + 1]) {
            Some(v) => out.push(v),
            None => {
                assert(hex_byte(b@[2 * (i / 2) as int], b@[2 * (i / 2) as int + 1]) is None);
                return None;
            },
        }
        i = i + 2;
    }
    proof {
        assert forall|j: int| 0 <= j < b@.len() / 2 implies (#[trigger] hex_byte(
            b@[2 * j],
            b@[2 * j + 1],
        )) is Some by {}
        assert(hex_input(b@)->0 =~= out@);
    }
    Some(out)
}

/// Whether all of `s` are hexadecimal digits.
pub fn all_hex(s: &str) -> (r: bool)
    ensures
        r == (forall|i: int| 0 <= i < s@.len() ==> is_hex(#[trigger] s@[i])),
{
    let v = text::chars(s);
    let mut i: usize = 0;
    while i < v.len()
        invariant
            i <= v@.len(),
            v@ == s@,
            forall|j: int| 0 <= j < i ==> is_hex(#[trigger] s@[j]),
        decreases v@.len() - i,
    {
        if hex_digit_value(v[i]).is_none() {
            assert(!is_hex(s@[i as int]));
            return false;
        }
        i = i + 1;
    }
    true
}

fn hex_char(n: u8) -> (r: char)
    requires
        n < 16,
    ensures
        r == hex_digit(n as nat),
{
    if n < 10 {
        (0x30u8 + n) as char
    } else {
        (0x57u8 + n) as char
    }
}

/// Writes bytes as lower case hexadecimal digits.
pub fn hex_encode(b: &[u8]) -> (r: String)
    ensures
        r@ == hex_text(b@),
{
    let mut r = String::new();
    let mut i: usize = 0;
    assert(r@ =~= hex_text(b@.take(0)));
    while i < b.len()
        invariant
            i <= b@.len(),
            r@ == hex_text(b@.take(i as int)),
        decreases b@.len() - i,
    {
        let ghost before = r@;
        r.push(hex_char(b[i] / 16));
        r.push(hex_char(b[i] % 16));
        assert(r@ =~= hex_text(b@.take(i + 1))) by {
            assert(r@.len() == 2 * (i + 1));
            assert forall|j: int| 0 <= j < 2 * (i + 1) implies r@[j] == hex_text(
                b@.take(i + 1),
            )[j] by {
                if j < 2 * i {
                    assert(r@[j] == before[j]);
                    assert(0 <= j / 2 < i);
                }
            }
        }
        i = i + 1;
    }
    assert(b@.take(b@.len() as int) =~= b@);
    r
}

/// Reads bytes from hexadecimal digits of either case.
pub fn hex_decode(s: &str) -> (r: Option<Vec<u8>>)
    ensures
        match r {
            Some(b) => hex_bytes(s@) == Some(b@),
            None => hex_bytes(s@) is None,
        },
{
    let v = text::chars(s);
    let n: usize = v.len();
    if n % 2 != 0 {
        return None;
    }
    let mut out: Vec<u8> = Vec::new();
    let mut i: usize = 0;
    while i < n
        invariant
            i <= n == v@.len(),
            v@ == s@,
            n % 2 == 0,
            i % 2 == 0,
            out@.len() == i / 2,
            forall|j: int| 0 <= j < i ==> is_hex(#[trigger] s@[j]),
            forall|j: int|
                0 <= j < i / 2 ==> #[trigger] out@[j] == (hex_value(s@[2 * j])->0 * 16
                    + hex_value(s@[2 * j + 1])->0) as u8,
        decreases n - i,
    {
        assert(2 * ((i / 2) as int) == i);
        match (hex_digit_value(v[i]), hex_digit_value(v[i + 1])) {
            (Some(x), Some(y)) => {
                out.push(x * 16 + y);
            },
            _ => {
                assert(!is_hex(s@[i as int]) || !is_hex(s@[i + 1]));
                return None;
            },
        }
        i = i + 2;
    }
    assert(out@ =~= hex_pairs(s@));
    Some(out)
}

// ---------------------------------------------------------------------------
// Decimal fractions
// ---------------------------------------------------------------------------

/// `s` without one leading sign.
pub open spec fn without_sign(s: Seq<char>) -> Seq<char> {
    if s.len() > 0 && (s[0] == '+' || s[0] == '-') {
        s.skip(1)
    } else {
        s
    }
}

/// Digits, perhaps with a point before, among or after them.
pub open spec fn fraction_text(s: Seq<char>) -> bool {
    match text::halves(s, '.') {
        Some((a, b)) => all_digits(a) && all_digits(b) && a.len() + b.len() > 0,
        None => all_digits(s) && s.len() > 0,
    }
}

/// The position of the first `e` of either case.
pub open spec fn exponent_at(s: Seq<char>) -> Option<int>
    decreases s.len(),
{
    if s.len() == 0 {
        None
    } else if s[0] == 'e' || s[0] == 'E' {
        Some(0)
    } else {
        match exponent_at(s.skip(1)) {
            Some(i) => Some(i + 1),
            None => None,
        }
    }
}

/// Digits with an optional point and an optional exponent.
pub open spec fn scientific_text(s: Seq<char>) -> bool {
    match exponent_at(s) {
        Some(i) => {
            let e = without_sign(s.skip(i + 1));
            fraction_text(s.take(i)) && all_digits(e) && e.len() > 0
        },
        None => fraction_text(s),
    }
}

/// A text that denotes a floating point number: a sign, and then a number with
/// an optional point and exponent, or a word for infinity or for no number.
pub open spec fn decimal_text(s: Seq<char>) -> bool {
    let t = without_sign(s);
    ||| text::alike(t, "inf"@)
    ||| text::alike(t, "infinity"@)
    ||| text::alike(t, "nan"@)
    ||| scientific_text(t)
}

fn only_digits(s: &str) -> (r: bool)
    ensures
        r == all_digits(s@),
{
    let v = text::chars(s);
    let mut i: usize = 0;
    while i < v.len()
        invariant
            i <= v@.len(),
            v@ == s@,
            forall|j: int| 0 <= j < i ==> is_digit(#[trigger] s@[j]),
        decreases v@.len() - i,
    {
        if v[i] < '0' || '9' < v[i] {
            assert(!is_digit(s@[i as int]));
            return false;
        }
        i = i + 1;
    }
    true
}

fn strip_sign(s: &str) -> (r: String)
    ensures
        r@ == without_sign(s@),
{
    let v = text::chars(s);
    let n: usize = v.len();
    if n > 0 && (v[0] == '+' || v[0] == '-') {
        let r = text::string(v.as_slice(), 1, n);
        assert(r@ =~= s@.skip(1));
        r
    } else {
        s.to_owned()
    }
}

fn is_fraction(s: &str) -> (r: bool)
    ensures
        r == fraction_text(s@),
{
    match text::split_once(s, '.') {
        Some((a, b)) => only_digits(a.as_str()) && only_digits(b.as_str()) && !(
        a.as_str().is_empty() && b.as_str().is_empty()),
        None => only_digits(s) && !s.is_empty(),
    }
}

/// Whether the text denotes a floating point number.
pub fn is_decimal(s: &str) -> (r: bool)
    ensures
        r == decimal_text(s@),
{
    let t = strip_sign(s);
    if text::same_ignoring_case(t.as_str(), "inf") || text::same_ignoring_case(
        t.as_str(),
        "infinity",
    ) || text::same_ignoring_case(t.as_str(), "nan") {
        return true;
    }
    let v = text::chars(t.as_str());
    let n: usize = v.len();
    let mut i: usize = 0;
    assert(t@.skip(0) =~= t@);
    while i < n
        invariant
            i <= n == v@.len(),
            v@ == t@,
            t@ == without_sign(s@),
            !text::alike(t@, "inf"@),
            !text::alike(t@, "infinity"@),
            !text::alike(t@, "nan"@),
            exponent_at(t@) == match exponent_at(t@.skip(i as int)) {
                Some(k) => Some(k + i),
                None => None,
            },
        decreases n - i,
    {
        assert(t@.skip(i as int).skip(1) =~= t@.skip(i + 1));
        if v[i] == 'e' || v[i] == 'E' {
            let a = text::string(v.as_slice(), 0, i);
            let b = text::string(v.as_slice(), i + 1, n);
            assert(a@ =~= t@.take(i as int));
            assert(b@ =~= t@.skip(i + 1));
            let e = strip_sign(b.as_str());
            return is_fraction(a.as_str()) && only_digits(e.as_str()) && !e.as_str().is_empty();
        }
        i = i + 1;
    }
    assert(t@.skip(n as int) =~= Seq::empty());
    is_fraction(t.as_str())
}

} // verus!
