//! What the path utility promises of its tables, its requests and the connection that
//! they go over.

use vstd::prelude::*;

use crate::digits;
use crate::fields::{self, Shape};
use crate::hash;
use crate::json::JsonModel;
use crate::msgpack::{self, Msg};
use crate::path_tool::{self, Args};
use crate::pieces::{self, Figure, Part};
use crate::rpc;
use crate::text;

verus! {

// ---------------------------------------------------------------------------
// Fields
// ---------------------------------------------------------------------------

/// A field is found under its key wherever it stands: the first entry with the key whose
/// value is of use.
pub proof fn law_field_is_found(
    before: Seq<(Msg, Msg)>,
    key: Seq<char>,
    value: Msg,
    rest: Seq<(Msg, Msg)>,
    shape: Shape,
)
    requires
        forall|i: int|
            0 <= i < before.len() ==> (#[trigger] before[i]).0 != Msg::Text(key) || !fields::fits(
                before[i].1,
                shape,
            ),
        fields::fits(value, shape),
    ensures
        fields::sought(before + seq![(Msg::Text(key), value)] + rest, key, shape) == Some(value),
    decreases before.len(),
{
    let p = before + seq![(Msg::Text(key), value)] + rest;
    if before.len() > 0 {
        let tail = before.skip(1);
        assert(p[0] == before[0]);
        assert(p.skip(1) =~= tail + seq![(Msg::Text(key), value)] + rest);
        assert forall|i: int| 0 <= i < tail.len() implies (#[trigger] tail[i]).0 != Msg::Text(key)
            || !fields::fits(tail[i].1, shape) by {
            assert(tail[i] == before[i + 1]);
        }
        law_field_is_found(tail, key, value, rest, shape);
    } else {
        assert(p[0] == (Msg::Text(key), value));
    }
}

/// Where no entry has the key, there is no such field.
pub proof fn law_missing_field_is_not_found(p: Seq<(Msg, Msg)>, key: Seq<char>, shape: Shape)
    requires
        forall|i: int| 0 <= i < p.len() ==> (#[trigger] p[i]).0 != Msg::Text(key),
    ensures
        fields::sought(p, key, shape) is None,
        msgpack::lookup(p, key) is None,
    decreases p.len(),
{
    if p.len() > 0 {
        assert(p[0].0 != Msg::Text(key));
        let tail = p.skip(1);
        assert forall|i: int| 0 <= i < tail.len() implies (#[trigger] tail[i]).0 != Msg::Text(
            key,
        ) by {
            assert(tail[i] == p[i + 1]);
        }
        law_missing_field_is_not_found(tail, key, shape);
    }
}

/// An entry is looked up by its key, and the first of two with the same key counts.
pub proof fn law_first_entry_counts(
    before: Seq<(Msg, Msg)>,
    key: Seq<char>,
    value: Msg,
    rest: Seq<(Msg, Msg)>,
)
    requires
        forall|i: int| 0 <= i < before.len() ==> (#[trigger] before[i]).0 != Msg::Text(key),
    ensures
        msgpack::lookup(before + seq![(Msg::Text(key), value)] + rest, key) == Some(value),
    decreases before.len(),
{
    let p = before + seq![(Msg::Text(key), value)] + rest;
    if before.len() > 0 {
        let tail = before.skip(1);
        assert(p[0] == before[0]);
        assert(p.skip(1) =~= tail + seq![(Msg::Text(key), value)] + rest);
        assert forall|i: int| 0 <= i < tail.len() implies (#[trigger] tail[i]).0 != Msg::Text(
            key,
        ) by {
            assert(tail[i] == before[i + 1]);
        }
        law_first_entry_counts(tail, key, value, rest);
    } else {
        assert(p[0] == (Msg::Text(key), value));
    }
}

/// A value is read as what it is: bytes from binary values and texts, whole numbers in
/// their range, and truth values as they are.
pub proof fn law_values_are_read_as_they_are(b: Seq<u8>, s: Seq<char>, n: int, t: bool)
    ensures
        msgpack::bytes_of(Msg::Binary(b)) == Some(b),
        msgpack::bytes_of(Msg::Text(s)) == Some(vstd::utf8::encode_utf8(s)),
        msgpack::text_of(Msg::Text(s)) == Some(s),
        msgpack::text_of(Msg::Binary(b)) is None,
        0 <= n <= u64::MAX ==> (msgpack::u64_of(Msg::Integer(n)) matches Some(k) && k == n),
        n < 0 || n > u64::MAX ==> msgpack::u64_of(Msg::Integer(n)) is None,
        i64::MIN <= n <= i64::MAX ==> (msgpack::i64_of(Msg::Integer(n)) matches Some(k) && k == n),
        n < i64::MIN || n > i64::MAX ==> msgpack::i64_of(Msg::Integer(n)) is None,
        msgpack::bool_of(Msg::Boolean(t)) == Some(t),
        msgpack::bool_of(Msg::Integer(n)) is None,
        msgpack::is_number(Msg::Integer(n)),
        !msgpack::is_number(Msg::Text(s)),
{
}

// ---------------------------------------------------------------------------
// Texts with numbers
// ---------------------------------------------------------------------------

/// A duration is shown by its days, hours, minutes and seconds, from the largest that is
/// not zero.
pub proof fn law_duration_has_its_units(d: u64, h: u64, m: u64, s: u64, total: u64)
    requires
        h < 24,
        m < 60,
        s < 60,
        total == d * 86400 + h * 3600 + m * 60 + s,
    ensures
        d > 0 ==> pieces::duration_text(total) == digits::dec(d as nat) + "d "@ + (digits::dec(
            h as nat,
        ) + "h "@ + (digits::dec(m as nat) + "m "@ + (digits::dec(s as nat) + "s"@))),
        d == 0 && h > 0 ==> pieces::duration_text(total) == digits::dec(h as nat) + "h "@ + (
        digits::dec(m as nat) + "m "@ + (digits::dec(s as nat) + "s"@)),
        d == 0 && h == 0 && m > 0 ==> pieces::duration_text(total) == digits::dec(m as nat) + "m "@
            + (digits::dec(s as nat) + "s"@),
        d == 0 && h == 0 && m == 0 ==> pieces::duration_text(total) == digits::dec(s as nat)
            + "s"@,
{
    let low = h * 3600 + m * 60 + s;
    assert(0 <= low < 86400);
    assert(total / 86400 == d && total % 86400 == low) by (nonlinear_arith)
        requires
            total == d * 86400 + low,
            0 <= low < 86400,
    ;
    assert(low / 3600 == h);
    let lower = m * 60 + s;
    assert(0 <= lower < 3600);
    let hours = d * 24 + h;
    assert(total == hours * 3600 + lower);
    assert(total % 3600 == lower) by (nonlinear_arith)
        requires
            total == hours * 3600 + lower,
            0 <= lower < 3600,
    ;
    assert(lower / 60 == m);
    let minutes = hours * 60 + m;
    assert(total == minutes * 60 + s);
    assert(total % 60 == s) by (nonlinear_arith)
        requires
            total == minutes * 60 + s,
            s < 60,
    ;
}

/// A text with numbers is its pieces one after the other; each number is worded by what
/// was read of it, the first by the first reading, and so on.
pub proof fn law_pieces_follow_each_other(
    p: Seq<Part>,
    f: Seq<Figure>,
    t: Seq<char>,
    m: Msg,
    before: Seq<char>,
    otherwise: Seq<char>,
)
    ensures
        pieces::rendered(Seq::<Part>::empty(), f).len() == 0,
        pieces::rendered(p.push(Part::Text(t)), f) == pieces::rendered(p, f) + t,
        pieces::numbers(p.push(Part::Text(t))) == pieces::numbers(p),
        pieces::numbers(p.push(Part::Duration(m))) == pieces::numbers(p).push(m),
        pieces::numbers(p.push(Part::Decimal(m))) == pieces::numbers(p).push(m),
        pieces::numbers(p.push(Part::Positive(m, before, otherwise))) == pieces::numbers(p).push(m),
        pieces::rendered(p.push(Part::Decimal(m)), f) == pieces::rendered(p, f)
            + f[pieces::numbers(p).len() as int].decimal,
        f[pieces::numbers(p).len() as int].now ==> pieces::rendered(p.push(Part::Duration(m)), f)
            == pieces::rendered(p, f) + "now"@,
        !f[pieces::numbers(p).len() as int].now ==> pieces::rendered(p.push(Part::Duration(m)), f)
            == pieces::rendered(p, f) + pieces::duration_text(
            f[pieces::numbers(p).len() as int].seconds,
        ),
        !f[pieces::numbers(p).len() as int].positive ==> pieces::rendered(
            p.push(Part::Positive(m, before, otherwise)),
            f,
        ) == pieces::rendered(p, f) + otherwise,
        f[pieces::numbers(p).len() as int].positive && !f[pieces::numbers(p).len() as int].now
            ==> pieces::rendered(p.push(Part::Positive(m, before, otherwise)), f)
            == pieces::rendered(p, f) + (before + pieces::duration_text(
            f[pieces::numbers(p).len() as int].seconds,
        )),
{
    assert(p.push(Part::Text(t)).drop_last() =~= p);
    assert(p.push(Part::Duration(m)).drop_last() =~= p);
    assert(p.push(Part::Decimal(m)).drop_last() =~= p);
    assert(p.push(Part::Positive(m, before, otherwise)).drop_last() =~= p);
}

// ---------------------------------------------------------------------------
// Tables
// ---------------------------------------------------------------------------

/// A path is shown with its destination, how far it is, by whom and on which interface it
/// goes, and when it expires, wherever it is near enough and the one that is asked for.
pub proof fn law_path_is_shown(
    p: Seq<(Msg, Msg)>,
    max: Option<nat>,
    names: Map<Seq<u8>, Seq<char>>,
    hash: Seq<u8>,
    via: Seq<u8>,
    iface: Seq<u8>,
    hops: u64,
    expires: Msg,
)
    requires
        fields::bytes_field(p, "hash"@) == Some(hash),
        fields::bytes_field(p, "via"@) == Some(via),
        fields::bytes_field(p, "interface"@) == Some(iface),
        fields::u64_field(p, "hops"@) == Some(hops),
        fields::number_field(p, "expires"@) == Some(expires),
        max matches Some(m) ==> hops <= m,
    ensures
        ({
            let on = if names.dom().contains(iface) {
                names[iface]
            } else {
                "/"@ + digits::hex_text(iface) + "/"@
            };
            let row = seq![
                Part::Text(
                    "/"@ + digits::hex_text(hash) + "/"@ + " is "@ + digits::dec(hops as nat) + " "@
                        + (if hops == 1 {
                        "hop"@
                    } else {
                        "hops"@
                    }) + " away via "@ + ("/"@ + digits::hex_text(via) + "/"@) + " on "@ + on
                        + " expires "@,
                ),
                Part::Duration(expires),
            ];
            &&& path_tool::path_row(Msg::Pairs(p), max, None, names) == Some(row)
            &&& path_tool::path_row(Msg::Pairs(p), max, Some(digits::hex_text(hash)), names)
                == Some(row)
        }),
{
    rpc::law_hex_is_read_back(hash);
}

/// Where one destination is asked for, paths, rates and blackholes of others are passed
/// over.
pub proof fn law_other_destinations_are_passed_over(
    p: Seq<(Msg, Msg)>,
    max: Option<nat>,
    names: Map<Seq<u8>, Seq<char>>,
    hash: Seq<u8>,
    asked: Seq<u8>,
)
    requires
        fields::bytes_field(p, "hash"@) == Some(hash),
        hash != asked,
    ensures
        path_tool::path_row(Msg::Pairs(p), max, Some(digits::hex_text(asked)), names) is None,
        path_tool::rate_row(Msg::Pairs(p), Some(digits::hex_text(asked))) is None,
        path_tool::rate_row(Msg::Pairs(p), Some(digits::hex_text(hash))) is Some,
        path_tool::rate_row(Msg::Pairs(p), None) is Some,
{
    rpc::law_hex_is_read_back(asked);
    rpc::law_hex_is_read_back(hash);
}

/// Each entry adds its row behind the rows of those before it, and an entry that is
/// passed over adds none.
pub proof fn law_rows_are_in_order(
    list: Seq<Msg>,
    m: Msg,
    max: Option<nat>,
    filter: Option<Seq<char>>,
    names: Map<Seq<u8>, Seq<char>>,
)
    ensures
        path_tool::path_row(m, max, filter, names) matches Some(r) ==> path_tool::path_rows(
            list.push(m),
            max,
            filter,
            names,
        ) == path_tool::path_rows(list, max, filter, names).push(r),
        path_tool::path_row(m, max, filter, names) is None ==> path_tool::path_rows(
            list.push(m),
            max,
            filter,
            names,
        ) == path_tool::path_rows(list, max, filter, names),
        path_tool::rate_row(m, filter) matches Some(r) ==> path_tool::rate_rows(
            list.push(m),
            filter,
        ) == path_tool::rate_rows(list, filter).push(r),
        path_tool::rate_row(m, filter) is None ==> path_tool::rate_rows(list.push(m), filter)
            == path_tool::rate_rows(list, filter),
        path_tool::path_rows(Seq::<Msg>::empty(), max, filter, names).len() == 0,
        path_tool::rate_rows(Seq::<Msg>::empty(), filter).len() == 0,
{
    assert(list.push(m).drop_last() =~= list);
}

/// The announce rate of a destination is shown with when it was last heard, its
/// violations where there are any, and how long it is blocked.
pub proof fn law_rate_is_shown(
    p: Seq<(Msg, Msg)>,
    hash: Seq<u8>,
    last: Msg,
    violations: u64,
    blocked: Msg,
)
    requires
        fields::bytes_field(p, "hash"@) == Some(hash),
        fields::number_field(p, "last"@) == Some(last),
        fields::u64_field(p, "rate_violations"@) == Some(violations),
        fields::number_field(p, "blocked_until"@) == Some(blocked),
    ensures
        path_tool::rate_row(Msg::Pairs(p), None) matches Some(r) ==> r.len() == 4 && r[0]
            == Part::Text("/"@ + digits::hex_text(hash) + "/"@ + " last heard "@) && r[1]
            == Part::Duration(last) && r[3] == Part::Positive(blocked, ", blocked for "@, ""@) && (
        violations == 0 ==> r[2] == Part::Text(" ago"@)) && (violations == 1 ==> r[2] == Part::Text(
            " ago, "@ + digits::dec(1) + " active rate violation"@ + ""@,
        )) && (violations > 1 ==> r[2] == Part::Text(
            " ago, "@ + digits::dec(violations as nat) + " active rate violation"@ + "s"@,
        )),
        path_tool::rate_row(Msg::Pairs(p), None) is Some,
{
}

/// A blackholed identity is shown with how long it is, why, and by whom; all are shown
/// in their order where none is asked for.
pub proof fn law_blackhole_is_shown(
    list: Seq<(Msg, Msg)>,
    id: Seq<u8>,
    p: Seq<(Msg, Msg)>,
    until: Msg,
    reason: Seq<char>,
    source: Seq<u8>,
)
    requires
        fields::number_field(p, "until"@) == Some(until),
        fields::text_field(p, "reason"@) == Some(reason),
        fields::bytes_field(p, "source"@) == Some(source),
    ensures
        path_tool::blackhole_rows(list.push((Msg::Binary(id), Msg::Pairs(p))), None)
            == path_tool::blackhole_rows(list, None).push(
            seq![
                Part::Text("/"@ + digits::hex_text(id) + "/"@ + " blackholed "@),
                Part::Positive(until, "for "@, "indefinitely"@),
                Part::Text(
                    " ("@ + reason + ")"@ + (" by "@ + ("/"@ + digits::hex_text(source) + "/"@)),
                ),
            ],
        ),
        path_tool::blackhole_rows(Seq::<(Msg, Msg)>::empty(), None).len() == 0,
{
    let e = (Msg::Binary(id), Msg::Pairs(p));
    assert(list.push(e).drop_last() =~= list);
}

/// What is said below a table: a note where nothing is known, which is no error, and an
/// error only where one destination was asked for and is not in the table.
pub proof fn law_tables_end(
    entries: nat,
    rows: nat,
    filtered: bool,
    empty: Seq<char>,
    nothing: Seq<char>,
)
    ensures
        path_tool::table_end(0, rows, filtered, empty, nothing) == (Some(empty), 0i32),
        entries > 0 && rows == 0 ==> path_tool::table_end(entries, rows, true, empty, nothing) == (
            Some(nothing),
            1i32,
        ),
        entries > 0 && rows > 0 ==> path_tool::table_end(entries, rows, filtered, empty, nothing)
            == (None::<Seq<char>>, 0i32),
        entries > 0 ==> path_tool::table_end(entries, rows, false, empty, nothing) == (
            None::<Seq<char>>,
            0i32,
        ),
{
}

/// The entry about a destination is found wherever it stands in the table, the first of
/// them, and no other is taken for it.
pub proof fn law_path_is_found(
    before: Seq<Msg>,
    p: Seq<(Msg, Msg)>,
    rest: Seq<Msg>,
    dest: Seq<u8>,
)
    requires
        forall|i: int|
            0 <= i < before.len() ==> (#[trigger] before[i]) is Pairs && fields::bytes_field(
                before[i]->Pairs_0,
                "hash"@,
            ) != Some(dest),
        fields::bytes_field(p, "hash"@) == Some(dest),
    ensures
        path_tool::known_path_in(
            Some(Msg::Array(before + seq![Msg::Pairs(p)] + rest)),
            dest,
        ) == Some(p),
        path_tool::known_path_in(Some(Msg::Array(before)), dest) is None,
        path_tool::known_path_in(None, dest) is None,
{
    lemma_path_is_found(before, p, rest, dest);
}

proof fn lemma_path_is_found(
    before: Seq<Msg>,
    p: Seq<(Msg, Msg)>,
    rest: Seq<Msg>,
    dest: Seq<u8>,
)
    requires
        forall|i: int|
            0 <= i < before.len() ==> (#[trigger] before[i]) is Pairs && fields::bytes_field(
                before[i]->Pairs_0,
                "hash"@,
            ) != Some(dest),
        fields::bytes_field(p, "hash"@) == Some(dest),
    ensures
        path_tool::known_path(before + seq![Msg::Pairs(p)] + rest, dest) == Some(p),
        path_tool::known_path(before, dest) is None,
    decreases before.len(),
{
    let list = before + seq![Msg::Pairs(p)] + rest;
    if before.len() > 0 {
        let tail = before.skip(1);
        assert(before[0] is Pairs);
        assert(list[0] == before[0]);
        assert(list.skip(1) =~= tail + seq![Msg::Pairs(p)] + rest);
        assert forall|i: int| 0 <= i < tail.len() implies (#[trigger] tail[i]) is Pairs
            && fields::bytes_field(tail[i]->Pairs_0, "hash"@) != Some(dest) by {
            assert(tail[i] == before[i + 1]);
        }
        lemma_path_is_found(tail, p, rest, dest);
    } else {
        assert(list[0] == Msg::Pairs(p));
    }
}

/// What is found of the path to a destination tells how far it is and by whom it goes:
/// the next hop where that is told.
pub proof fn law_found_path_is_told(
    p: Seq<(Msg, Msg)>,
    dest: Seq<u8>,
    names: Map<Seq<u8>, Seq<char>>,
    hops: u64,
    next: Seq<u8>,
    iface: Seq<u8>,
    expires: Msg,
)
    requires
        fields::bool_field(p, "found"@) == Some(true),
        fields::u64_field(p, "hops"@) == Some(hops),
        fields::bytes_field(p, "next_hop"@) == Some(next),
        fields::bytes_field(p, "interface"@) == Some(iface),
        fields::number_field(p, "expires"@) == Some(expires),
        names.dom().contains(iface),
    ensures
        path_tool::path_info(p, dest, names) == Some(
            seq![
                Part::Text(
                    "Path found, destination "@ + ("/"@ + digits::hex_text(dest) + "/"@) + " is "@
                        + digits::dec(hops as nat) + " "@ + (if hops == 1 {
                        "hop"@
                    } else {
                        "hops"@
                    }) + " away"@ + " via "@ + ("/"@ + digits::hex_text(next) + "/"@) + " on "@
                        + names[iface],
                ),
                Part::Positive(expires, " expires "@, ""@),
            ],
        ),
{
}

/// Where nothing tells of a path, there is none.
pub proof fn law_no_path_is_made_up(
    p: Seq<(Msg, Msg)>,
    dest: Seq<u8>,
    names: Map<Seq<u8>, Seq<char>>,
)
    requires
        fields::bool_field(p, "found"@) != Some(true),
        fields::bytes_field(p, "hash"@) is None,
    ensures
        path_tool::path_info(p, dest, names) is None,
{
}

/// An interface is known by the last name that is told for its address.
pub proof fn law_interfaces_have_their_names(
    list: Seq<Msg>,
    p: Seq<(Msg, Msg)>,
    a: Seq<u8>,
    n: Seq<char>,
    other: Seq<u8>,
)
    requires
        fields::bytes_field(p, "identity"@) == Some(a),
        fields::text_field(p, "name"@) == Some(n),
        other != a,
    ensures
        ({
            let before = path_tool::names_in(Msg::Array(list));
            let names = path_tool::names_in(Msg::Array(list.push(Msg::Pairs(p))));
            &&& path_tool::interface_text(Some(a), names) == n
            &&& path_tool::interface_text(Some(other), names) == path_tool::interface_text(
                Some(other),
                before,
            )
        }),
        path_tool::interface_text(None, Map::empty()) == "?"@,
        path_tool::interface_text(Some(a), Map::empty()) == "/"@ + digits::hex_text(a) + "/"@,
{
    assert(list.push(Msg::Pairs(p)).drop_last() =~= list);
}

/// The signal at the first hop is told as far as it is known.
pub proof fn law_signal_is_told(snr: Msg, rssi: i64)
    ensures
        path_tool::signal(Some(snr), Some(rssi)) == seq![
            Part::Text(" (via radio: SNR: "@),
            Part::Decimal(snr),
            Part::Text(" dB "@ + ("RSSI: "@ + digits::signed_dec(rssi as int) + " dBm)"@)),
        ],
        path_tool::signal(None, Some(rssi)) == seq![
            Part::Text(
                " (via radio: "@ + ("RSSI: "@ + digits::signed_dec(rssi as int) + " dBm)"@),
            ),
        ],
        path_tool::signal(None, None).len() == 0,
        path_tool::number_answer(Some(Msg::Nil)) is None,
        path_tool::number_answer(Some(Msg::Integer(rssi as int))) == Some(
            Msg::Integer(rssi as int),
        ),
        path_tool::i64_answer(Some(Msg::Integer(rssi as int))) == Some(rssi),
{
}

/// An entry of a table is put out as JSON with all its fields, and none without its
/// addresses.
pub proof fn law_entries_are_put_out(
    p: Seq<(Msg, Msg)>,
    hash: Seq<u8>,
    via: Seq<u8>,
    iface: Seq<u8>,
    hops: u64,
    expires: Msg,
)
    requires
        fields::u64_field(p, "hops"@) == Some(hops),
        fields::number_field(p, "expires"@) == Some(expires),
        fields::bytes_field(p, "via"@) == Some(via),
        fields::bytes_field(p, "interface"@) == Some(iface),
    ensures
        fields::bytes_field(p, "hash"@) == Some(hash) ==> path_tool::path_json(Msg::Pairs(p))
            == Some(
            JsonModel::Object(
                seq![
                    ("hash"@, JsonModel::Text(digits::hex_text(hash))),
                    ("hops"@, JsonModel::UInt(hops)),
                    ("via"@, JsonModel::Text(digits::hex_text(via))),
                    ("interface"@, JsonModel::Text(digits::hex_text(iface))),
                    ("expires"@, JsonModel::Float(expires)),
                ],
            ),
        ),
        fields::bytes_field(p, "hash"@) is None ==> path_tool::path_json(Msg::Pairs(p)) is None
            && path_tool::rate_json(Msg::Pairs(p)) is None,
{
}

/// The rate of a destination is put out as JSON with all its fields.
pub proof fn law_rates_are_put_out(
    p: Seq<(Msg, Msg)>,
    hash: Seq<u8>,
    last: Msg,
    violations: u64,
    blocked: Msg,
)
    requires
        fields::bytes_field(p, "hash"@) == Some(hash),
        fields::number_field(p, "last"@) == Some(last),
        fields::u64_field(p, "rate_violations"@) == Some(violations),
        fields::number_field(p, "blocked_until"@) == Some(blocked),
    ensures
        path_tool::rate_json(Msg::Pairs(p)) == Some(
            JsonModel::Object(
                seq![
                    ("hash"@, JsonModel::Text(digits::hex_text(hash))),
                    ("last"@, JsonModel::Float(last)),
                    ("rate_violations"@, JsonModel::UInt(violations)),
                    ("blocked_until"@, JsonModel::Float(blocked)),
                ],
            ),
        ),
{
}

// ---------------------------------------------------------------------------
// Requests
// ---------------------------------------------------------------------------

/// Two operations do not go together, and one on a destination needs the destination.
pub proof fn law_one_operation_with_its_destination(a: Args)
    ensures
        a.table && (a.rates || a.drop || a.drop_announces || a.drop_via || a.blackholed
            || a.blackhole || a.unblackhole) ==> path_tool::complaint(a) is Some,
        a.rates && (a.drop || a.drop_announces || a.drop_via || a.blackholed || a.blackhole
            || a.unblackhole) ==> path_tool::complaint(a) is Some,
        a.drop && (a.drop_announces || a.drop_via || a.blackholed || a.blackhole || a.unblackhole)
            ==> path_tool::complaint(a) is Some,
        a.drop_announces && (a.drop_via || a.blackholed || a.blackhole || a.unblackhole)
            ==> path_tool::complaint(a) is Some,
        a.drop_via && (a.blackholed || a.blackhole || a.unblackhole) ==> path_tool::complaint(
            a,
        ) is Some,
        a.blackholed && (a.blackhole || a.unblackhole) ==> path_tool::complaint(a) is Some,
        a.blackhole && a.unblackhole ==> path_tool::complaint(a) is Some,
        (a.blackhole || a.unblackhole || a.drop || a.drop_via) && a.destination is None
            ==> path_tool::complaint(a) is Some,
        a.table && a.max_hops is Some && a.destination is Some ==> path_tool::complaint(a) is Some,
        a.destination is Some && a.max_hops is None && !a.table && !a.rates && !a.drop_announces
            && !a.drop_via && !a.blackholed && !a.blackhole && !a.unblackhole
            ==> path_tool::complaint(a) is None,
        a.destination is None && !a.rates && !a.drop && !a.drop_announces && !a.drop_via
            && !a.blackholed && !a.blackhole && !a.unblackhole ==> path_tool::complaint(a) is None,
        a.destination is None && !a.table && !a.drop && !a.drop_announces && !a.drop_via
            && !a.blackholed && !a.blackhole && !a.unblackhole ==> path_tool::complaint(a) is None,
        a.destination is None && !a.table && !a.rates && !a.drop && !a.drop_announces && !a.drop_via
            && !a.blackhole && !a.unblackhole ==> path_tool::complaint(a) is None,
{
}

/// A key that is given in hexadecimal is used as it is, or as the file holds it that it
/// names; without a key there is an error.
pub proof fn law_key_is_used(key: Seq<u8>, name: Seq<char>, file: Option<Seq<char>>)
    requires
        key.len() > 0,
    ensures
        path_tool::key_in(Some(digits::hex_text(key)), None) == Ok::<Seq<u8>, Seq<char>>(key),
        path_tool::key_in(Some(name), Some(digits::hex_text(key))) == Ok::<Seq<u8>, Seq<char>>(key),
        path_tool::key_in(None, file) is Err,
{
    rpc::law_hex_is_read_back(key);
    let t = digits::hex_text(key);
    rpc::lemma_hex_text(key);
    assert(text::trimmed(t) == t) by {
        assert(!text::white(t[0]));
        assert(!text::white(t[t.len() - 1]));
    }
}

/// An address has sixteen bytes; other lengths are refused.
pub proof fn law_addresses_have_their_length(b: Seq<u8>, wrong: Seq<char>)
    ensures
        b.len() == 16 ==> path_tool::address_given(digits::hex_text(b), wrong) == Ok::<
            Seq<u8>,
            Seq<char>,
        >(b),
        b.len() != 16 ==> path_tool::address_given(digits::hex_text(b), wrong) == Err::<
            Seq<u8>,
            Seq<char>,
        >(wrong),
{
    rpc::law_hex_is_read_back(b);
}

/// A request names what is asked for, and the destination that it is about.
pub proof fn law_requests_name_what_they_ask(
    key: Seq<char>,
    what: Seq<char>,
    dest: Seq<u8>,
    seconds: u64,
    reason: Seq<char>,
)
    ensures
        rpc::ask_msg(key, what) == Msg::Pairs(seq![(Msg::Text(key), Msg::Text(what))]),
        rpc::ask_about_msg(key, what, dest) == Msg::Pairs(
            seq![
                (Msg::Text(key), Msg::Text(what)),
                (Msg::Text("destination_hash"@), Msg::Binary(dest)),
            ],
        ),
        rpc::blackhole_msg(dest, None, None) == Msg::Pairs(
            seq![(Msg::Text("blackhole_identity"@), Msg::Binary(dest))],
        ),
        rpc::blackhole_msg(dest, Some(seconds), Some(reason)) == Msg::Pairs(
            seq![
                (Msg::Text("blackhole_identity"@), Msg::Binary(dest)),
                (Msg::Text("duration"@), Msg::Double(seconds)),
                (Msg::Text("reason"@), Msg::Text(reason)),
            ],
        ),
        rpc::unblackhole_msg(dest) == Msg::Pairs(
            seq![(Msg::Text("unblackhole_identity"@), Msg::Binary(dest))],
        ),
{
    assert(rpc::blackhole_msg(dest, Some(seconds), Some(reason))->Pairs_0 =~= seq![
        (Msg::Text("blackhole_identity"@), Msg::Binary(dest)),
        (Msg::Text("duration"@), Msg::Double(seconds)),
        (Msg::Text("reason"@), Msg::Text(reason)),
    ]);
}

/// A request was granted just where the answer is true; nothing else counts as a yes.
pub proof fn law_only_true_grants(response: Msg, yes: Seq<char>, no: Seq<char>)
    ensures
        path_tool::outcome(Msg::Boolean(true), yes, no) == (yes, 0i32),
        path_tool::outcome(Msg::Boolean(false), yes, no) == (no, 1i32),
        response !is Boolean ==> path_tool::outcome(response, yes, no) == (no, 1i32),
{
}

// ---------------------------------------------------------------------------
// The connection
// ---------------------------------------------------------------------------

/// An answer proves the key only if it is the digest of the challenge with that key,
/// behind `{sha256}` or alone.
pub proof fn law_only_the_key_is_accepted(
    random: Seq<u8>,
    response: Seq<u8>,
    key: Seq<u8>,
    other: Seq<u8>,
)
    ensures
        ({
            let name = seq![0x7bu8, 0x73, 0x68, 0x61, 0x32, 0x35, 0x36, 0x7d];
            let digest = hash::hmac_sha256(key, name + random);
            rpc::proves(rpc::challenge_of(random), response, key) == (response == digest || response
                == name + digest)
        }),
        hash::hmac_sha256(other, rpc::challenge_of(random).skip(11)).len() == 32
            && hash::hmac_sha256(key, rpc::challenge_of(random).skip(11)).len() == 32
            && hash::hmac_sha256(other, rpc::challenge_of(random).skip(11)) != hash::hmac_sha256(
            key,
            rpc::challenge_of(random).skip(11),
        ) ==> !rpc::proves(
            rpc::challenge_of(random),
            rpc::answer(other, rpc::challenge_of(random).skip(11)),
            key,
        ),
{
    let c = rpc::challenge_of(random);
    let name = seq![0x7bu8, 0x73, 0x68, 0x61, 0x32, 0x35, 0x36, 0x7d];
    assert(c.skip(11) =~= name + random);
    let a = rpc::answer(other, c.skip(11));
    let b = rpc::answer(key, c.skip(11));
    assert(a.skip(8) =~= hash::hmac_sha256(other, c.skip(11)));
    assert(b.skip(8) =~= hash::hmac_sha256(key, c.skip(11)));
}

/// A frame starts with its length in four bytes, the highest first, and holds just the
/// data then; only data of two gigabytes and more have their length in eight.
pub proof fn law_short_frames_have_four_bytes(data: Seq<u8>)
    requires
        data.len() < 0x8000_0000,
    ensures
        rpc::frame(data).len() == data.len() + 4,
        rpc::frame(data).skip(4) == data,
        rpc::frame(data)[0] as int * 0x100_0000 + rpc::frame(data)[1] as int * 0x1_0000
            + rpc::frame(data)[2] as int * 0x100 + rpc::frame(data)[3] as int == data.len(),
{
    reveal_with_fuel(rpc::big_endian, 5);
    reveal_with_fuel(rpc::power, 5);
    rpc::law_big_endian_round_trip(data.len(), 4);
    let h = rpc::big_endian(data.len(), 4);
    assert(h.len() == 4);
    assert(rpc::frame(data).skip(4) =~= data);
    reveal_with_fuel(rpc::from_big_endian, 5);
    assert(h.drop_last().drop_last().drop_last().drop_last().len() == 0);
}

/// The four bytes of a frame are its length, a mark that the length follows, or an error.
pub proof fn law_frame_lengths_are_read(b: Seq<u8>)
    requires
        b.len() == 4,
    ensures
        b[0] < 0x80 ==> rpc::frame_length_in(b) is Short,
        b == seq![0xffu8, 0xff, 0xff, 0xff] ==> rpc::frame_length_in(b) == rpc::FrameLength::Long,
        b[0] >= 0x80 && b != seq![0xffu8, 0xff, 0xff, 0xff] ==> rpc::frame_length_in(b)
            == rpc::FrameLength::Negative,
{
    reveal_with_fuel(rpc::from_big_endian, 5);
    assert(b.take(4) =~= b);
    let n = rpc::from_big_endian(b);
    assert(b.drop_last().drop_last().drop_last().drop_last().len() == 0);
    assert(n == b[0] as int * 0x100_0000 + b[1] as int * 0x1_0000 + b[2] as int * 0x100
        + b[3] as int);
    if n == 0xffff_ffff {
        assert(b =~= seq![0xffu8, 0xff, 0xff, 0xff]);
    }
}

} // verus!
