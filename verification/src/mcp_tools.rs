//! The tools of the tool server: what each asks the running instance, step by
//! step, and the text that it answers.

use vstd::prelude::*;

use crate::args;
use crate::digits;
use crate::fields;
use crate::gitutil;
use crate::json;
use crate::json::{Json, JsonModel};
use crate::mcp;
use crate::msgpack;
use crate::msgpack::{Msg, MsgValue};
use crate::path_tool;
use crate::pieces;
use crate::pieces::{Part, Piece};
use crate::rpc;
use crate::text;

verus! {

/// What a tool does next: ask the instance, or answer.
#[derive(Debug)]
pub enum ToolStep {
    Ask(MsgValue),
    Done(Result<Vec<Piece>, String>),
}

/// What a tool does next, over sequences.
pub enum ToolNext {
    Ask(Msg),
    Done(Result<Seq<Part>, Seq<char>>),
}

impl View for ToolStep {
    type V = ToolNext;

    open spec fn view(&self) -> ToolNext {
        match self {
            ToolStep::Ask(m) => ToolNext::Ask(m@),
            ToolStep::Done(Ok(p)) => ToolNext::Done(Ok(pieces::parts(p@))),
            ToolStep::Done(Err(e)) => ToolNext::Done(Err(e@)),
        }
    }
}

/// What the instance replied, over sequences.
pub open spec fn reply_view(r: Result<MsgValue, String>) -> Result<Msg, Seq<char>> {
    match r {
        Ok(v) => Ok(v@),
        Err(e) => Err(e@),
    }
}

/// What the instance replied to what was asked so far.
pub open spec fn replies(v: Seq<Result<MsgValue, String>>) -> Seq<Result<Msg, Seq<char>>> {
    Seq::new(v.len(), |i: int| reply_view(v[i]))
}

fn fail(e: &str) -> (r: ToolStep)
    ensures
        r@ == ToolNext::Done(Err(e@)),
{
    ToolStep::Done(Err(e.to_owned()))
}

fn say(t: String) -> (r: ToolStep)
    ensures
        r@ == ToolNext::Done(Ok(seq![Part::Text(t@)])),
{
    let mut p = pieces::none();
    pieces::push_text(&mut p, t);
    assert(pieces::parts(p@) =~= seq![Part::Text(t@)]);
    ToolStep::Done(Ok(p))
}

// ---------------------------------------------------------------------------
// Arguments
// ---------------------------------------------------------------------------

/// The digits that addresses have to hold, in lower case.
pub open spec fn filter_in(a: JsonModel) -> Option<Seq<char>> {
    match json::text_entry(a, "destination"@) {
        Some(s) => Some(text::lowercase(s)),
        None => None,
    }
}

fn filter_of(a: &Json) -> (r: Option<String>)
    ensures
        args::opt_text(r) == filter_in(a@),
{
    match a.get_text("destination") {
        Some(s) => Some(text::to_lowercase(s)),
        None => None,
    }
}

/// The most hops that a path may have; a number below zero is taken in its 64
/// bits.
pub open spec fn max_hops_in(a: JsonModel) -> Option<u64> {
    match json::entry(a, "max_hops"@) {
        Some(JsonModel::UInt(n)) => Some(n),
        Some(JsonModel::NegInt(n)) => Some(n as u64),
        _ => None,
    }
}

fn max_hops_of(a: &Json) -> (r: Option<u64>)
    ensures
        r == max_hops_in(a@),
{
    match a.get("max_hops") {
        Some(Json::UInt(n)) => Some(*n),
        Some(Json::NegInt(n)) => Some(*n as u64),
        _ => None,
    }
}

/// A JSON value is a number.
pub open spec fn is_number(j: JsonModel) -> bool {
    j is UInt || j is NegInt || j is Float
}

/// The number of hours that a blackhole is to last.
pub fn hours_argument(a: &Json) -> (r: Option<&Json>)
    ensures
        match r {
            Some(j) => json::entry(a@, "duration"@) == Some(j@) && is_number(j@),
            None => json::entry(a@, "duration"@) is None || !is_number(
                json::entry(a@, "duration"@)->0,
            ),
        },
{
    match a.get("duration") {
        Some(j) => match j {
            Json::UInt(_) => Some(j),
            Json::NegInt(_) => Some(j),
            Json::Float(_) => Some(j),
            _ => None,
        },
        None => None,
    }
}

/// The address that a tool is called with, or an error, which is the text where
/// its length is wrong.
pub open spec fn target(a: JsonModel, wrong: Seq<char>) -> Result<(Seq<char>, Seq<u8>), Seq<char>> {
    match json::text_entry(a, "destination"@) {
        None => Err("destination required"@),
        Some(s) => match mcp::given(s) {
            None => Err("invalid hexadecimal input"@),
            Some(b) => if b.len() != 16 {
                Err(wrong)
            } else {
                Ok((s, b))
            },
        },
    }
}

fn target_of(a: &Json, wrong: &str) -> (r: Result<(String, Vec<u8>), String>)
    ensures
        match r {
            Ok((s, b)) => target(a@, wrong@) == Ok::<_, Seq<char>>((s@, b@)),
            Err(e) => target(a@, wrong@) == Err::<(Seq<char>, Seq<u8>), _>(e@),
        },
{
    match a.get_text("destination") {
        None => Err("destination required".to_owned()),
        Some(s) => match mcp::decode_hex(s) {
            None => Err("invalid hexadecimal input".to_owned()),
            Some(b) => if b.len() != 16 {
                Err(wrong.to_owned())
            } else {
                Ok((s.to_owned(), b))
            },
        },
    }
}

// ---------------------------------------------------------------------------
// Tables
// ---------------------------------------------------------------------------

/// Bytes that may be missing, in hexadecimal digits.
pub open spec fn hex_or_empty(b: Option<Seq<u8>>) -> Seq<char> {
    match b {
        Some(b) => digits::hex_text(b),
        None => Seq::empty(),
    }
}

fn hex_of(b: &Option<Vec<u8>>) -> (r: String)
    ensures
        r@ == hex_or_empty(gitutil::bytes_view(*b)),
{
    match b {
        Some(b) => digits::hex_encode(b.as_slice()),
        None => {
            let r = String::new();
            assert(r@ =~= Seq::empty());
            r
        },
    }
}

/// An entry is passed over because its address does not hold the digits that are
/// asked for.
pub open spec fn passed_over(hash: Option<Seq<u8>>, filter: Option<Seq<char>>) -> bool {
    filter is Some && hash is Some && !text::holds(digits::hex_text(hash->0), filter->0)
}

fn is_passed_over(hash: &Option<Vec<u8>>, filter: &Option<String>) -> (r: bool)
    ensures
        r == passed_over(gitutil::bytes_view(*hash), args::opt_text(*filter)),
{
    match (hash, filter) {
        (Some(h), Some(f)) => {
            let hex = digits::hex_encode(h.as_slice());
            !text::contains(hex.as_str(), f.as_str())
        },
        _ => false,
    }
}

/// A line of the path table.
pub open spec fn path_line(m: Msg, filter: Option<Seq<char>>, max: Option<u64>) -> Seq<Part> {
    match m {
        Msg::Pairs(p) => {
            let hash = fields::bytes_field(p, "hash"@);
            let hops = fields::u64_field_or(p, "hops"@, 0);
            if (max is Some && hops > max->0) || passed_over(hash, filter) {
                Seq::empty()
            } else {
                seq![
                    Part::Text(
                        "  "@ + hex_or_empty(hash) + " | "@ + digits::dec(hops as nat) + " "@
                            + pieces::hops_word(hops) + " via "@ + hex_or_empty(
                            fields::bytes_field(p, "via"@),
                        ) + " on "@ + hex_or_empty(fields::bytes_field(p, "interface"@))
                            + " | expires "@,
                    ),
                    pieces::duration_part(fields::number_field(p, "expires"@)),
                    Part::Text("\n"@),
                ]
            }
        },
        _ => Seq::empty(),
    }
}

fn add_path_line(out: &mut Vec<Piece>, v: &MsgValue, filter: &Option<String>, max: Option<u64>)
    ensures
        pieces::parts(final(out)@) == pieces::parts(old(out)@) + path_line(
            v@,
            args::opt_text(*filter),
            max,
        ),
{
    let ghost before = pieces::parts(out@);
    let ghost line = path_line(v@, args::opt_text(*filter), max);
    if let Some(m) = v.as_map() {
        let hash = fields::map_get_bytes(m, "hash");
        let hops: u64 = fields::get_u64_or(m, "hops", 0);
        let near = match max {
            Some(x) => hops <= x,
            None => true,
        };
        if near && !is_passed_over(&hash, filter) {
            let h = hex_of(&hash);
            let via = hex_of(&fields::map_get_bytes(m, "via"));
            let iface = hex_of(&fields::map_get_bytes(m, "interface"));
            let n = digits::decimal(hops);
            let mut t = text::cat3("  ", h.as_str(), " | ");
            t.append(n.as_str());
            t.append(" ");
            t.append(pieces::hop_word(hops));
            t.append(" via ");
            t.append(via.as_str());
            t.append(" on ");
            t.append(iface.as_str());
            t.append(" | expires ");
            pieces::push_text(out, t);
            pieces::push(out, pieces::duration_piece(fields::map_get_number(m, "expires")));
            pieces::push_text(out, "\n".to_owned());
        }
    }
    assert(pieces::parts(out@) =~= before + line);
}

/// A line of the table of announce rates.
pub open spec fn rate_line(m: Msg, filter: Option<Seq<char>>) -> Seq<Part> {
    match m {
        Msg::Pairs(p) => {
            let hash = fields::bytes_field(p, "hash"@);
            let n = fields::u64_field_or(p, "rate_violations"@, 0);
            if passed_over(hash, filter) {
                Seq::empty()
            } else {
                seq![
                    Part::Text("  "@ + hex_or_empty(hash) + " | last heard "@),
                    pieces::duration_part(fields::number_field(p, "last"@)),
                    Part::Text(
                        if n > 0 {
                            " ago, "@ + digits::dec(n as nat) + " rate violation"@
                                + pieces::plural(n)
                        } else {
                            " ago"@
                        },
                    ),
                    pieces::positive_part(
                        fields::number_field(p, "blocked_until"@),
                        ", blocked "@,
                        ""@,
                    ),
                    Part::Text("\n"@),
                ]
            }
        },
        _ => Seq::empty(),
    }
}

fn add_rate_line(out: &mut Vec<Piece>, v: &MsgValue, filter: &Option<String>)
    ensures
        pieces::parts(final(out)@) == pieces::parts(old(out)@) + rate_line(
            v@,
            args::opt_text(*filter),
        ),
{
    let ghost before = pieces::parts(out@);
    let ghost line = rate_line(v@, args::opt_text(*filter));
    if let Some(m) = v.as_map() {
        let hash = fields::map_get_bytes(m, "hash");
        if !is_passed_over(&hash, filter) {
            let n: u64 = fields::get_u64_or(m, "rate_violations", 0);
            let h = hex_of(&hash);
            pieces::push_text(out, text::cat3("  ", h.as_str(), " | last heard "));
            pieces::push(out, pieces::duration_piece(fields::map_get_number(m, "last")));
            let t = if n > 0 {
                let d = digits::decimal(n);
                let mut t = text::cat3(" ago, ", d.as_str(), " rate violation");
                t.append(pieces::plural_ending(n));
                t
            } else {
                " ago".to_owned()
            };
            pieces::push_text(out, t);
            pieces::push(
                out,
                pieces::positive_piece(
                    fields::map_get_number(m, "blocked_until"),
                    ", blocked ",
                    "",
                ),
            );
            pieces::push_text(out, "\n".to_owned());
        }
    }
    assert(pieces::parts(out@) =~= before + line);
}

/// The reason and the source of a blackhole, and the end of its line.
pub open spec fn blackhole_end(p: Seq<(Msg, Msg)>) -> Seq<char> {
    let reason = match fields::text_field(p, "reason"@) {
        Some(r) => " ("@ + r + ")"@,
        None => Seq::empty(),
    };
    let by = match fields::bytes_field(p, "source"@) {
        Some(b) => " by "@ + digits::hex_text(b),
        None => Seq::empty(),
    };
    reason + by + "\n"@
}

/// A line of the list of blackholed identities.
pub open spec fn blackhole_line(e: (Msg, Msg), filter: Option<Seq<char>>) -> Seq<Part> {
    match (msgpack::bytes_of(e.0), e.1) {
        (Some(id), Msg::Pairs(p)) => if passed_over(Some(id), filter) {
            Seq::empty()
        } else {
            seq![
                Part::Text("  "@ + digits::hex_text(id) + " blackholed "@),
                pieces::positive_part(
                    fields::number_field(p, "until"@),
                    "for "@,
                    "indefinitely"@,
                ),
                Part::Text(blackhole_end(p)),
            ]
        },
        _ => Seq::empty(),
    }
}

fn add_blackhole_line(out: &mut Vec<Piece>, e: &(MsgValue, MsgValue), filter: &Option<String>)
    ensures
        pieces::parts(final(out)@) == pieces::parts(old(out)@) + blackhole_line(
            (e.0@, e.1@),
            args::opt_text(*filter),
        ),
{
    let ghost before = pieces::parts(out@);
    let ghost line = blackhole_line((e.0@, e.1@), args::opt_text(*filter));
    let id = e.0.as_slice();
    if id.is_some() {
        if let Some(m) = e.1.as_map() {
            if !is_passed_over(&id, filter) {
                let h = hex_of(&id);
                let mut end = String::new();
                assert(end@ =~= Seq::empty());
                if let Some(reason) = fields::map_get_str(m, "reason") {
                    end = text::cat3(" (", reason.as_str(), ")");
                }
                if let Some(b) = fields::map_get_bytes(m, "source") {
                    let s = digits::hex_encode(b.as_slice());
                    let by = text::cat(" by ", s.as_str());
                    end.append(by.as_str());
                }
                end.append("\n");
                assert(end@ =~= blackhole_end(msgpack::pair_models(m@)));
                pieces::push_text(out, text::cat3("  ", h.as_str(), " blackholed "));
                pieces::push(
                    out,
                    pieces::positive_piece(
                        fields::map_get_number(m, "until"),
                        "for ",
                        "indefinitely",
                    ),
                );
                pieces::push_text(out, end);
            }
        }
    }
    assert(pieces::parts(out@) =~= before + line);
}

/// The lines of the path table.
pub open spec fn path_lines(l: Seq<Msg>, filter: Option<Seq<char>>, max: Option<u64>) -> Seq<Part>
    decreases l.len(),
{
    if l.len() == 0 {
        Seq::empty()
    } else {
        path_lines(l.drop_last(), filter, max) + path_line(l.last(), filter, max)
    }
}

/// The lines of the table of announce rates.
pub open spec fn rate_lines(l: Seq<Msg>, filter: Option<Seq<char>>) -> Seq<Part>
    decreases l.len(),
{
    if l.len() == 0 {
        Seq::empty()
    } else {
        rate_lines(l.drop_last(), filter) + rate_line(l.last(), filter)
    }
}

/// The lines of the list of blackholed identities.
pub open spec fn blackhole_lines(l: Seq<(Msg, Msg)>, filter: Option<Seq<char>>) -> Seq<Part>
    decreases l.len(),
{
    if l.len() == 0 {
        Seq::empty()
    } else {
        blackhole_lines(l.drop_last(), filter) + blackhole_line(l.last(), filter)
    }
}

/// A table: its head with the number of entries, its lines, and a note where there
/// are none.
pub open spec fn table(before: Seq<char>, n: nat, after: Seq<char>, lines: Seq<Part>) -> Seq<Part> {
    let t = seq![Part::Text(before + digits::dec(n) + after)] + lines;
    if lines.len() == 0 {
        t.push(Part::Text("  (no matching entries)\n"@))
    } else {
        t
    }
}

fn table_head(before: &str, n: usize, after: &str) -> (r: Vec<Piece>)
    ensures
        pieces::parts(r@) == seq![Part::Text(before@ + digits::dec(n as nat) + after@)],
{
    let d = digits::decimal(n as u64);
    let mut out = pieces::none();
    pieces::push_text(&mut out, text::cat3(before, d.as_str(), after));
    assert(pieces::parts(out@) =~= seq![Part::Text(before@ + digits::dec(n as nat) + after@)]);
    out
}

fn end_table(out: &mut Vec<Piece>)
    requires
        old(out)@.len() > 0,
    ensures
        pieces::parts(final(out)@) == (if old(out)@.len() == 1 {
            pieces::parts(old(out)@).push(Part::Text("  (no matching entries)\n"@))
        } else {
            pieces::parts(old(out)@)
        }),
{
    if out.len() == 1 {
        pieces::push_text(out, "  (no matching entries)\n".to_owned());
    }
}

/// What the tool for the path table does next.
pub open spec fn path_table_next(a: JsonModel, rs: Seq<Result<Msg, Seq<char>>>) -> ToolNext {
    if rs.len() == 0 {
        ToolNext::Ask(rpc::ask_msg("get"@, "path_table"@))
    } else {
        match rs[0] {
            Err(e) => ToolNext::Done(Err(e)),
            Ok(Msg::Array(l)) => ToolNext::Done(
                Ok(
                    table(
                        "Path Table ("@,
                        l.len(),
                        " entries):\n"@,
                        path_lines(l, filter_in(a), max_hops_in(a)),
                    ),
                ),
            ),
            Ok(_) => ToolNext::Done(Err("invalid response: expected array"@)),
        }
    }
}

/// The tool for the path table.
pub fn get_path_table(a: &Json, rs: &[Result<MsgValue, String>]) -> (r: ToolStep)
    ensures
        r@ == path_table_next(a@, replies(rs@)),
{
    if rs.len() == 0 {
        return ToolStep::Ask(rpc::ask("get", "path_table"));
    }
    assert(replies(rs@)[0] == reply_view(rs@[0]));
    match &rs[0] {
        Err(e) => fail(e.as_str()),
        Ok(v) => {
            let l = match v.as_array() {
                Some(l) => l,
                None => {
                    return fail("invalid response: expected array");
                },
            };
            let filter = filter_of(a);
            let max = max_hops_of(a);
            let ghost all = msgpack::models(l@);
            let ghost fl = args::opt_text(filter);
            let mut out = table_head("Path Table (", l.len(), " entries):\n");
            let ghost head = pieces::parts(out@);
            let mut i: usize = 0;
            assert(all.take(0) =~= Seq::empty());
            assert(head + path_lines(all.take(0), fl, max) =~= head);
            while i < l.len()
                invariant
                    i <= l@.len(),
                    all == msgpack::models(l@),
                    fl == args::opt_text(filter),
                    pieces::parts(out@) == head + path_lines(all.take(i as int), fl, max),
                decreases l@.len() - i,
            {
                assert(all.take(i + 1).drop_last() =~= all.take(i as int));
                assert(all.take(i + 1).last() == l@[i as int]@);
                add_path_line(&mut out, &l[i], &filter, max);
                assert(pieces::parts(out@) =~= head + path_lines(all.take(i + 1), fl, max));
                i = i + 1;
            }
            assert(all.take(all.len() as int) =~= all);
            assert(pieces::parts(out@).len() == out@.len());
            end_table(&mut out);
            ToolStep::Done(Ok(out))
        },
    }
}

/// What the tool for announce rates does next.
pub open spec fn rate_table_next(a: JsonModel, rs: Seq<Result<Msg, Seq<char>>>) -> ToolNext {
    if rs.len() == 0 {
        ToolNext::Ask(rpc::ask_msg("get"@, "rate_table"@))
    } else {
        match rs[0] {
            Err(e) => ToolNext::Done(Err(e)),
            Ok(Msg::Array(l)) => ToolNext::Done(
                Ok(
                    table(
                        "Rate Table ("@,
                        l.len(),
                        " entries):\n"@,
                        rate_lines(l, filter_in(a)),
                    ),
                ),
            ),
            Ok(_) => ToolNext::Done(Err("invalid response"@)),
        }
    }
}

/// The tool for announce rates.
pub fn get_rate_table(a: &Json, rs: &[Result<MsgValue, String>]) -> (r: ToolStep)
    ensures
        r@ == rate_table_next(a@, replies(rs@)),
{
    if rs.len() == 0 {
        return ToolStep::Ask(rpc::ask("get", "rate_table"));
    }
    assert(replies(rs@)[0] == reply_view(rs@[0]));
    match &rs[0] {
        Err(e) => fail(e.as_str()),
        Ok(v) => {
            let l = match v.as_array() {
                Some(l) => l,
                None => {
                    return fail("invalid response");
                },
            };
            let filter = filter_of(a);
            let ghost all = msgpack::models(l@);
            let ghost fl = args::opt_text(filter);
            let mut out = table_head("Rate Table (", l.len(), " entries):\n");
            let ghost head = pieces::parts(out@);
            let mut i: usize = 0;
            assert(all.take(0) =~= Seq::empty());
            assert(head + rate_lines(all.take(0), fl) =~= head);
            while i < l.len()
                invariant
                    i <= l@.len(),
                    all == msgpack::models(l@),
                    fl == args::opt_text(filter),
                    pieces::parts(out@) == head + rate_lines(all.take(i as int), fl),
                decreases l@.len() - i,
            {
                assert(all.take(i + 1).drop_last() =~= all.take(i as int));
                assert(all.take(i + 1).last() == l@[i as int]@);
                add_rate_line(&mut out, &l[i], &filter);
                assert(pieces::parts(out@) =~= head + rate_lines(all.take(i + 1), fl));
                i = i + 1;
            }
            assert(all.take(all.len() as int) =~= all);
            assert(pieces::parts(out@).len() == out@.len());
            end_table(&mut out);
            ToolStep::Done(Ok(out))
        },
    }
}

/// What the tool for blackholed identities does next.
pub open spec fn blackholed_next(a: JsonModel, rs: Seq<Result<Msg, Seq<char>>>) -> ToolNext {
    if rs.len() == 0 {
        ToolNext::Ask(rpc::ask_msg("get"@, "blackholed_identities"@))
    } else {
        match rs[0] {
            Err(e) => ToolNext::Done(Err(e)),
            Ok(Msg::Pairs(p)) => if p.len() == 0 {
                ToolNext::Done(Ok(seq![Part::Text("No blackholed identities\n"@)]))
            } else {
                ToolNext::Done(
                    Ok(
                        table(
                            "Blackholed Identities ("@,
                            p.len(),
                            "):\n"@,
                            blackhole_lines(p, filter_in(a)),
                        ),
                    ),
                )
            },
            Ok(_) => ToolNext::Done(Ok(seq![Part::Text("No blackholed identities\n"@)])),
        }
    }
}

/// The tool for blackholed identities.
pub fn list_blackholed(a: &Json, rs: &[Result<MsgValue, String>]) -> (r: ToolStep)
    ensures
        r@ == blackholed_next(a@, replies(rs@)),
{
    if rs.len() == 0 {
        return ToolStep::Ask(rpc::ask("get", "blackholed_identities"));
    }
    assert(replies(rs@)[0] == reply_view(rs@[0]));
    match &rs[0] {
        Err(e) => fail(e.as_str()),
        Ok(v) => {
            let l = match v.as_map() {
                Some(l) => l,
                None => {
                    return say("No blackholed identities\n".to_owned());
                },
            };
            if l.len() == 0 {
                return say("No blackholed identities\n".to_owned());
            }
            let filter = filter_of(a);
            let ghost all = msgpack::pair_models(l@);
            let ghost fl = args::opt_text(filter);
            let mut out = table_head("Blackholed Identities (", l.len(), "):\n");
            let ghost head = pieces::parts(out@);
            let mut i: usize = 0;
            assert(all.take(0) =~= Seq::empty());
            assert(head + blackhole_lines(all.take(0), fl) =~= head);
            while i < l.len()
                invariant
                    i <= l@.len(),
                    all == msgpack::pair_models(l@),
                    fl == args::opt_text(filter),
                    pieces::parts(out@) == head + blackhole_lines(all.take(i as int), fl),
                decreases l@.len() - i,
            {
                assert(all.take(i + 1).drop_last() =~= all.take(i as int));
                assert(all.take(i + 1).last() == (l@[i as int].0@, l@[i as int].1@));
                add_blackhole_line(&mut out, &l[i], &filter);
                assert(pieces::parts(out@) =~= head + blackhole_lines(all.take(i + 1), fl));
                i = i + 1;
            }
            assert(all.take(all.len() as int) =~= all);
            assert(pieces::parts(out@).len() == out@.len());
            end_table(&mut out);
            ToolStep::Done(Ok(out))
        },
    }
}

// ---------------------------------------------------------------------------
// One path, and the signal
// ---------------------------------------------------------------------------

/// The number that a reply is.
pub open spec fn number_reply(r: Result<Msg, Seq<char>>) -> Option<Msg> {
    match r {
        Ok(m) => path_tool::number_answer(Some(m)),
        Err(_) => None,
    }
}

/// The whole number that a reply is.
pub open spec fn i64_reply(r: Result<Msg, Seq<char>>) -> Option<i64> {
    match r {
        Ok(m) => msgpack::i64_of(m),
        Err(_) => None,
    }
}

fn number_of(r: &Result<MsgValue, String>) -> (o: Option<MsgValue>)
    ensures
        fields::value_view(o) == number_reply(reply_view(*r)),
{
    match r {
        Ok(v) => if v.is_number() {
            Some(v.copy())
        } else {
            None
        },
        Err(_) => None,
    }
}

fn i64_of(r: &Result<MsgValue, String>) -> (o: Option<i64>)
    ensures
        o == i64_reply(reply_view(*r)),
{
    match r {
        Ok(v) => v.as_i64(),
        Err(_) => None,
    }
}

/// The first line about a path.
pub open spec fn path_head(p: Seq<(Msg, Msg)>, dest: Seq<char>) -> Seq<char> {
    let hops = fields::u64_field_or(p, "hops"@, 1);
    let head = "Path to "@ + dest + ": "@ + digits::dec(hops as nat) + " "@ + pieces::hops_word(
        hops,
    ) + " away"@;
    let via = match fields::bytes_field(p, "next_hop"@) {
        Some(b) => head + " via "@ + digits::hex_text(b) + " on "@ + (match fields::bytes_field(
            p,
            "interface"@,
        ) {
            Some(i) => digits::hex_text(i),
            None => "?"@,
        }),
        None => head,
    };
    via + "\n"@
}

/// The line about the signal at the first hop; nothing where one of the replies is
/// missing.
pub open spec fn radio(snr: Result<Msg, Seq<char>>, rssi: Result<Msg, Seq<char>>) -> Seq<Part> {
    let s = number_reply(snr);
    let n = i64_reply(rssi);
    if snr is Err || rssi is Err || (s is None && n is None) {
        Seq::empty()
    } else {
        let strength = match n {
            Some(n) => "RSSI "@ + digits::signed_dec(n as int) + " dBm\n"@,
            None => "\n"@,
        };
        match s {
            Some(m) => seq![
                Part::Text("  First-hop radio: SNR "@),
                Part::Decimal(m),
                Part::Text(
                    if n is Some {
                        " dB, "@ + strength
                    } else {
                        " dB"@ + strength
                    },
                ),
            ],
            None => seq![Part::Text("  First-hop radio: "@ + strength)],
        }
    }
}

/// What the tool for one path does next.
pub open spec fn path_info_next(a: JsonModel, rs: Seq<Result<Msg, Seq<char>>>) -> ToolNext {
    match target(a, "invalid destination hash length"@) {
        Err(e) => ToolNext::Done(Err(e)),
        Ok((dest, b)) => if rs.len() == 0 {
            ToolNext::Ask(rpc::ask_about_msg("get"@, "request_path"@, b))
        } else {
            match rs[0] {
                Err(e) => ToolNext::Done(Err(e)),
                Ok(Msg::Pairs(p)) => if fields::bool_field(p, "found"@) != Some(true) {
                    ToolNext::Done(Ok(seq![Part::Text("No path known\n"@)]))
                } else if rs.len() == 1 {
                    ToolNext::Ask(rpc::ask_msg("get"@, "packet_snr"@))
                } else if rs.len() == 2 {
                    ToolNext::Ask(rpc::ask_msg("get"@, "packet_rssi"@))
                } else {
                    ToolNext::Done(Ok(seq![Part::Text(path_head(p, dest))] + radio(rs[1], rs[2])))
                },
                Ok(_) => ToolNext::Done(Ok(seq![Part::Text("No path known\n"@)])),
            }
        },
    }
}

fn make_path_head(m: &Vec<(MsgValue, MsgValue)>, dest: &str) -> (r: String)
    ensures
        r@ == path_head(msgpack::pair_models(m@), dest@),
{
    let hops: u64 = fields::get_u64_or(m, "hops", 1);
    let n = digits::decimal(hops);
    let mut t = text::cat3("Path to ", dest, ": ");
    t.append(n.as_str());
    t.append(" ");
    t.append(pieces::hop_word(hops));
    t.append(" away");
    if let Some(b) = fields::map_get_bytes(m, "next_hop") {
        let h = digits::hex_encode(b.as_slice());
        let i = match fields::map_get_bytes(m, "interface") {
            Some(i) => digits::hex_encode(i.as_slice()),
            None => "?".to_owned(),
        };
        t.append(" via ");
        t.append(h.as_str());
        t.append(" on ");
        t.append(i.as_str());
    }
    t.append("\n");
    t
}

fn add_radio(
    out: &mut Vec<Piece>,
    snr: &Result<MsgValue, String>,
    rssi: &Result<MsgValue, String>,
)
    ensures
        pieces::parts(final(out)@) == pieces::parts(old(out)@) + radio(
            reply_view(*snr),
            reply_view(*rssi),
        ),
{
    let ghost before = pieces::parts(out@);
    let ghost line = radio(reply_view(*snr), reply_view(*rssi));
    if snr.is_err() || rssi.is_err() {
        assert(before + line =~= before);
        return;
    }
    let n = i64_of(rssi);
    let strength = match n {
        Some(n) => {
            let d = digits::signed_decimal(n);
            text::cat3("RSSI ", d.as_str(), " dBm\n")
        },
        None => "\n".to_owned(),
    };
    match number_of(snr) {
        Some(m) => {
            pieces::push_text(out, "  First-hop radio: SNR ".to_owned());
            pieces::push(out, Piece::Decimal(m));
            let t = if n.is_some() {
                text::cat(" dB, ", strength.as_str())
            } else {
                text::cat(" dB", strength.as_str())
            };
            pieces::push_text(out, t);
        },
        None => {
            if n.is_some() {
                pieces::push_text(out, text::cat("  First-hop radio: ", strength.as_str()));
            }
        },
    }
    assert(pieces::parts(out@) =~= before + line);
}

/// The tool for one path.
pub fn get_path_info(a: &Json, rs: &[Result<MsgValue, String>]) -> (r: ToolStep)
    ensures
        r@ == path_info_next(a@, replies(rs@)),
{
    let (dest, b) = match target_of(a, "invalid destination hash length") {
        Ok(t) => t,
        Err(e) => {
            return fail(e.as_str());
        },
    };
    if rs.len() == 0 {
        return ToolStep::Ask(rpc::ask_about("get", "request_path", b.as_slice()));
    }
    assert(replies(rs@)[0] == reply_view(rs@[0]));
    match &rs[0] {
        Err(e) => fail(e.as_str()),
        Ok(v) => {
            let m = match v.as_map() {
                Some(m) => m,
                None => {
                    return say("No path known\n".to_owned());
                },
            };
            let found = match fields::map_get_bool(m, "found") {
                Some(f) => f,
                None => false,
            };
            if !found {
                return say("No path known\n".to_owned());
            }
            if rs.len() == 1 {
                return ToolStep::Ask(rpc::ask("get", "packet_snr"));
            }
            if rs.len() == 2 {
                return ToolStep::Ask(rpc::ask("get", "packet_rssi"));
            }
            assert(replies(rs@)[1] == reply_view(rs@[1]));
            assert(replies(rs@)[2] == reply_view(rs@[2]));
            let mut out = pieces::none();
            pieces::push_text(&mut out, make_path_head(m, dest.as_str()));
            assert(pieces::parts(out@) =~= seq![
                Part::Text(path_head(msgpack::pair_models(m@), dest@)),
            ]);
            add_radio(&mut out, &rs[1], &rs[2]);
            ToolStep::Done(Ok(out))
        },
    }
}

/// What is said of the signal.
pub open spec fn signal_parts(snr: Option<Msg>, rssi: Option<i64>) -> Seq<Part> {
    let strength = match rssi {
        Some(n) => "  RSSI: "@ + digits::signed_dec(n as int) + " dBm\n"@,
        None => "  RSSI: N/A\n"@,
    };
    match snr {
        Some(m) => seq![
            Part::Text("Signal Information:\n  SNR: "@),
            Part::Decimal(m),
            Part::Text(" dB\n"@ + strength),
        ],
        None => seq![
            Part::Text(
                if rssi is None {
                    "Signal Information:\n  SNR: N/A\n"@ + strength
                        + "  (no signal data available yet)\n"@
                } else {
                    "Signal Information:\n  SNR: N/A\n"@ + strength
                },
            ),
        ],
    }
}

/// What the tool for the signal does next.
pub open spec fn signal_next(rs: Seq<Result<Msg, Seq<char>>>) -> ToolNext {
    if rs.len() == 0 {
        ToolNext::Ask(rpc::ask_msg("get"@, "packet_snr"@))
    } else if rs[0] is Err {
        ToolNext::Done(Err(rs[0]->Err_0))
    } else if rs.len() == 1 {
        ToolNext::Ask(rpc::ask_msg("get"@, "packet_rssi"@))
    } else if rs[1] is Err {
        ToolNext::Done(Err(rs[1]->Err_0))
    } else {
        ToolNext::Done(Ok(signal_parts(number_reply(rs[0]), i64_reply(rs[1]))))
    }
}

/// The tool for the signal.
pub fn get_signal_info(rs: &[Result<MsgValue, String>]) -> (r: ToolStep)
    ensures
        r@ == signal_next(replies(rs@)),
{
    if rs.len() == 0 {
        return ToolStep::Ask(rpc::ask("get", "packet_snr"));
    }
    assert(replies(rs@)[0] == reply_view(rs@[0]));
    if let Err(e) = &rs[0] {
        return fail(e.as_str());
    }
    if rs.len() == 1 {
        return ToolStep::Ask(rpc::ask("get", "packet_rssi"));
    }
    assert(replies(rs@)[1] == reply_view(rs@[1]));
    if let Err(e) = &rs[1] {
        return fail(e.as_str());
    }
    let n = i64_of(&rs[1]);
    let strength = match n {
        Some(n) => {
            let d = digits::signed_decimal(n);
            text::cat3("  RSSI: ", d.as_str(), " dBm\n")
        },
        None => "  RSSI: N/A\n".to_owned(),
    };
    let mut out = pieces::none();
    match number_of(&rs[0]) {
        Some(m) => {
            pieces::push_text(&mut out, "Signal Information:\n  SNR: ".to_owned());
            pieces::push(&mut out, Piece::Decimal(m));
            pieces::push_text(&mut out, text::cat(" dB\n", strength.as_str()));
        },
        None => {
            let mut t = text::cat("Signal Information:\n  SNR: N/A\n", strength.as_str());
            if n.is_none() {
                t.append("  (no signal data available yet)\n");
            }
            pieces::push_text(&mut out, t);
        },
    }
    assert(pieces::parts(out@) =~= signal_parts(
        number_reply(replies(rs@)[0]),
        i64_reply(replies(rs@)[1]),
    ));
    ToolStep::Done(Ok(out))
}

// ---------------------------------------------------------------------------
// Requests that are granted or not
// ---------------------------------------------------------------------------

/// What a tool that asks for one thing does next: it says one or the other text,
/// as the request was granted or not.
pub open spec fn request_next(
    request: Msg,
    yes: Seq<char>,
    no: Seq<char>,
    rs: Seq<Result<Msg, Seq<char>>>,
) -> ToolNext {
    if rs.len() == 0 {
        ToolNext::Ask(request)
    } else {
        match rs[0] {
            Err(e) => ToolNext::Done(Err(e)),
            Ok(m) => ToolNext::Done(
                Ok(
                    seq![
                        Part::Text(
                            if m == Msg::Boolean(true) {
                                yes
                            } else {
                                no
                            },
                        ),
                    ],
                ),
            ),
        }
    }
}

fn request_step(request: MsgValue, yes: String, no: String, rs: &[Result<MsgValue, String>]) -> (r:
    ToolStep)
    ensures
        r@ == request_next(request@, yes@, no@, replies(rs@)),
{
    if rs.len() == 0 {
        return ToolStep::Ask(request);
    }
    assert(replies(rs@)[0] == reply_view(rs@[0]));
    match &rs[0] {
        Err(e) => fail(e.as_str()),
        Ok(v) => if rpc::granted(v) {
            say(yes)
        } else {
            say(no)
        },
    }
}

/// What the tool that blackholes an identity does next. The seconds are the bits
/// of a number of double precision.
pub open spec fn blackhole_next(
    a: JsonModel,
    seconds: Option<u64>,
    rs: Seq<Result<Msg, Seq<char>>>,
) -> ToolNext {
    match target(a, "invalid identity hash length"@) {
        Err(e) => ToolNext::Done(Err(e)),
        Ok((dest, b)) => request_next(
            rpc::blackhole_msg(b, seconds, json::text_entry(a, "reason"@)),
            "Blackholed identity "@ + dest + "\n"@,
            "Could not blackhole identity "@ + dest + "\n"@,
            rs,
        ),
    }
}

/// The tool that blackholes an identity.
pub fn blackhole_identity(a: &Json, seconds: Option<u64>, rs: &[Result<MsgValue, String>]) -> (r:
    ToolStep)
    requires
        seconds matches Some(s) ==> !msgpack::is_nan(s),
    ensures
        r@ == blackhole_next(a@, seconds, replies(rs@)),
{
    let (dest, b) = match target_of(a, "invalid identity hash length") {
        Ok(t) => t,
        Err(e) => {
            return fail(e.as_str());
        },
    };
    let request = rpc::blackhole(b.as_slice(), seconds, a.get_text("reason"));
    let yes = text::cat3("Blackholed identity ", dest.as_str(), "\n");
    let no = text::cat3("Could not blackhole identity ", dest.as_str(), "\n");
    request_step(request, yes, no, rs)
}

/// What the tool that lifts a blackhole does next.
pub open spec fn unblackhole_next(a: JsonModel, rs: Seq<Result<Msg, Seq<char>>>) -> ToolNext {
    match target(a, "invalid identity hash length"@) {
        Err(e) => ToolNext::Done(Err(e)),
        Ok((dest, b)) => request_next(
            rpc::unblackhole_msg(b),
            "Lifted blackhole for identity "@ + dest + "\n"@,
            "Identity "@ + dest + " was not blackholed\n"@,
            rs,
        ),
    }
}

/// The tool that lifts a blackhole.
pub fn unblackhole_identity(a: &Json, rs: &[Result<MsgValue, String>]) -> (r: ToolStep)
    ensures
        r@ == unblackhole_next(a@, replies(rs@)),
{
    let (dest, b) = match target_of(a, "invalid identity hash length") {
        Ok(t) => t,
        Err(e) => {
            return fail(e.as_str());
        },
    };
    let request = rpc::unblackhole(b.as_slice());
    let yes = text::cat3("Lifted blackhole for identity ", dest.as_str(), "\n");
    let no = text::cat3("Identity ", dest.as_str(), " was not blackholed\n");
    request_step(request, yes, no, rs)
}

/// What the tool that drops a path does next.
pub open spec fn drop_path_next(a: JsonModel, rs: Seq<Result<Msg, Seq<char>>>) -> ToolNext {
    match target(a, "invalid destination hash length"@) {
        Err(e) => ToolNext::Done(Err(e)),
        Ok((dest, b)) => request_next(
            rpc::ask_about_msg("drop"@, "path"@, b),
            "Dropped path to "@ + dest + "\n"@,
            "No path to "@ + dest + " exists\n"@,
            rs,
        ),
    }
}

/// The tool that drops a path.
pub fn drop_path(a: &Json, rs: &[Result<MsgValue, String>]) -> (r: ToolStep)
    ensures
        r@ == drop_path_next(a@, replies(rs@)),
{
    let (dest, b) = match target_of(a, "invalid destination hash length") {
        Ok(t) => t,
        Err(e) => {
            return fail(e.as_str());
        },
    };
    let request = rpc::ask_about("drop", "path", b.as_slice());
    let yes = text::cat3("Dropped path to ", dest.as_str(), "\n");
    let no = text::cat3("No path to ", dest.as_str(), " exists\n");
    request_step(request, yes, no, rs)
}

/// What the tool that drops announces does next.
pub open spec fn drop_announces_next(rs: Seq<Result<Msg, Seq<char>>>) -> ToolNext {
    request_next(
        rpc::ask_msg("drop"@, "announce_queues"@),
        "Dropped announce queues on all interfaces\n"@,
        "Dropped announce queues on all interfaces\n"@,
        rs,
    )
}

/// The tool that drops announces.
pub fn drop_announces(rs: &[Result<MsgValue, String>]) -> (r: ToolStep)
    ensures
        r@ == drop_announces_next(replies(rs@)),
{
    request_step(
        rpc::ask("drop", "announce_queues"),
        "Dropped announce queues on all interfaces\n".to_owned(),
        "Dropped announce queues on all interfaces\n".to_owned(),
        rs,
    )
}

// ---------------------------------------------------------------------------
// Metrics
// ---------------------------------------------------------------------------

/// What is asked for the metrics, in order.
pub open spec fn metric_request(i: int) -> Msg {
    if i == 0 {
        rpc::ask_msg("get"@, "path_table"@)
    } else if i == 1 {
        rpc::ask_msg("get"@, "rate_table"@)
    } else if i == 2 {
        rpc::ask_msg("get"@, "blackholed_identities"@)
    } else if i == 3 {
        rpc::ask_msg("get"@, "packet_snr"@)
    } else {
        rpc::ask_msg("get"@, "packet_rssi"@)
    }
}

/// How many items a reply holds, where it is an array.
pub open spec fn array_size(r: Result<Msg, Seq<char>>) -> nat {
    match r {
        Ok(Msg::Array(a)) => a.len(),
        _ => 0,
    }
}

/// How many entries a reply holds, where it is a map.
pub open spec fn map_size(r: Result<Msg, Seq<char>>) -> nat {
    match r {
        Ok(Msg::Pairs(a)) => a.len(),
        _ => 0,
    }
}

/// The first reply that is an error.
pub open spec fn first_error(rs: Seq<Result<Msg, Seq<char>>>) -> Option<Seq<char>>
    decreases rs.len(),
{
    if rs.len() == 0 {
        None
    } else {
        match rs[0] {
            Err(e) => Some(e),
            Ok(_) => first_error(rs.skip(1)),
        }
    }
}

/// What is said of the metrics.
pub open spec fn metrics(rs: Seq<Result<Msg, Seq<char>>>) -> Seq<Part> {
    let head = "Transport Metrics:\n  Path table entries: "@ + digits::dec(array_size(rs[0]))
        + "\n  Rate table entries: "@ + digits::dec(array_size(rs[1]))
        + "\n  Blackholed identities: "@ + digits::dec(map_size(rs[2])) + "\n"@;
    let snr = match number_reply(rs[3]) {
        Some(m) => seq![
            Part::Text(head),
            Part::Text("  Last SNR: "@),
            Part::Decimal(m),
            Part::Text(" dB\n"@),
        ],
        None => seq![Part::Text(head)],
    };
    match i64_reply(rs[4]) {
        Some(n) => snr.push(
            Part::Text("  Last RSSI: "@ + digits::signed_dec(n as int) + " dBm\n"@),
        ),
        None => snr,
    }
}

/// What the tool for the metrics does next.
pub open spec fn metrics_next(rs: Seq<Result<Msg, Seq<char>>>) -> ToolNext {
    match first_error(rs) {
        Some(e) => ToolNext::Done(Err(e)),
        None => if rs.len() < 5 {
            ToolNext::Ask(metric_request(rs.len() as int))
        } else {
            ToolNext::Done(Ok(metrics(rs)))
        },
    }
}

fn array_len(r: &Result<MsgValue, String>) -> (n: usize)
    ensures
        n == array_size(reply_view(*r)),
{
    match r {
        Ok(v) => match v.as_array() {
            Some(a) => a.len(),
            None => 0,
        },
        Err(_) => 0,
    }
}

fn map_len(r: &Result<MsgValue, String>) -> (n: usize)
    ensures
        n == map_size(reply_view(*r)),
{
    match r {
        Ok(v) => match v.as_map() {
            Some(a) => a.len(),
            None => 0,
        },
        Err(_) => 0,
    }
}

fn error_among(rs: &[Result<MsgValue, String>]) -> (r: Option<&String>)
    ensures
        match r {
            Some(e) => first_error(replies(rs@)) == Some(e@),
            None => first_error(replies(rs@)) is None,
        },
{
    let ghost all = replies(rs@);
    let mut i: usize = 0;
    assert(all.skip(0) =~= all);
    while i < rs.len()
        invariant
            i <= rs@.len(),
            all == replies(rs@),
            first_error(all.skip(i as int)) == first_error(all),
        decreases rs@.len() - i,
    {
        assert(all.skip(i as int)[0] == reply_view(rs@[i as int]));
        assert(all.skip(i as int).skip(1) =~= all.skip(i + 1));
        if let Err(e) = &rs[i] {
            return Some(e);
        }
        i = i + 1;
    }
    None
}

/// The tool for the metrics.
pub fn get_metrics(rs: &[Result<MsgValue, String>]) -> (r: ToolStep)
    ensures
        r@ == metrics_next(replies(rs@)),
{
    if let Some(e) = error_among(rs) {
        return fail(e.as_str());
    }
    let n: usize = rs.len();
    if n == 0 {
        return ToolStep::Ask(rpc::ask("get", "path_table"));
    }
    if n == 1 {
        return ToolStep::Ask(rpc::ask("get", "rate_table"));
    }
    if n == 2 {
        return ToolStep::Ask(rpc::ask("get", "blackholed_identities"));
    }
    if n == 3 {
        return ToolStep::Ask(rpc::ask("get", "packet_snr"));
    }
    if n == 4 {
        return ToolStep::Ask(rpc::ask("get", "packet_rssi"));
    }
    assert forall|i: int| 0 <= i < 5 implies #[trigger] replies(rs@)[i] == reply_view(rs@[i]) by {}
    let a = digits::decimal(array_len(&rs[0]) as u64);
    let b = digits::decimal(array_len(&rs[1]) as u64);
    let c = digits::decimal(map_len(&rs[2]) as u64);
    let mut t = text::cat3(
        "Transport Metrics:\n  Path table entries: ",
        a.as_str(),
        "\n  Rate table entries: ",
    );
    t.append(b.as_str());
    t.append("\n  Blackholed identities: ");
    t.append(c.as_str());
    t.append("\n");
    let mut out = pieces::none();
    pieces::push_text(&mut out, t);
    if let Some(m) = number_of(&rs[3]) {
        pieces::push_text(&mut out, "  Last SNR: ".to_owned());
        pieces::push(&mut out, Piece::Decimal(m));
        pieces::push_text(&mut out, " dB\n".to_owned());
    }
    if let Some(k) = i64_of(&rs[4]) {
        let d = digits::signed_decimal(k);
        pieces::push_text(&mut out, text::cat3("  Last RSSI: ", d.as_str(), " dBm\n"));
    }
    assert(pieces::parts(out@) =~= metrics(replies(rs@)));
    ToolStep::Done(Ok(out))
}

// ---------------------------------------------------------------------------
// Calling a tool by its name
// ---------------------------------------------------------------------------

/// What a tool does next.
pub open spec fn tool_next(
    name: Seq<char>,
    a: JsonModel,
    seconds: Option<u64>,
    rs: Seq<Result<Msg, Seq<char>>>,
) -> ToolNext {
    if name == "get_path_table"@ {
        path_table_next(a, rs)
    } else if name == "get_path_info"@ {
        path_info_next(a, rs)
    } else if name == "get_rate_table"@ {
        rate_table_next(a, rs)
    } else if name == "get_signal_info"@ {
        signal_next(rs)
    } else if name == "list_blackholed"@ {
        blackholed_next(a, rs)
    } else if name == "blackhole_identity"@ {
        blackhole_next(a, seconds, rs)
    } else if name == "unblackhole_identity"@ {
        unblackhole_next(a, rs)
    } else if name == "drop_path"@ {
        drop_path_next(a, rs)
    } else if name == "drop_announces"@ {
        drop_announces_next(rs)
    } else if name == "get_metrics"@ {
        metrics_next(rs)
    } else {
        ToolNext::Done(Err("unknown tool: "@ + name))
    }
}

/// Takes a tool one step on. `seconds` are the bits of a number of double
/// precision: how long a blackhole is to last. `rs` are the replies to what the
/// tool has asked so far.
pub fn call_tool(name: &str, a: &Json, seconds: Option<u64>, rs: &[Result<MsgValue, String>]) -> (r:
    ToolStep)
    requires
        seconds matches Some(s) ==> !msgpack::is_nan(s),
    ensures
        r@ == tool_next(name@, a@, seconds, replies(rs@)),
{
    if text::same(name, "get_path_table") {
        get_path_table(a, rs)
    } else if text::same(name, "get_path_info") {
        get_path_info(a, rs)
    } else if text::same(name, "get_rate_table") {
        get_rate_table(a, rs)
    } else if text::same(name, "get_signal_info") {
        get_signal_info(rs)
    } else if text::same(name, "list_blackholed") {
        list_blackholed(a, rs)
    } else if text::same(name, "blackhole_identity") {
        blackhole_identity(a, seconds, rs)
    } else if text::same(name, "unblackhole_identity") {
        unblackhole_identity(a, rs)
    } else if text::same(name, "drop_path") {
        drop_path(a, rs)
    } else if text::same(name, "drop_announces") {
        drop_announces(rs)
    } else if text::same(name, "get_metrics") {
        get_metrics(rs)
    } else {
        fail(text::cat("unknown tool: ", name).as_str())
    }
}

/// A tool ends once it has the replies that it needs: none asks more than five
/// times.
pub proof fn law_tools_end(
    name: Seq<char>,
    a: JsonModel,
    seconds: Option<u64>,
    rs: Seq<Result<Msg, Seq<char>>>,
)
    requires
        rs.len() >= 5,
    ensures
        tool_next(name, a, seconds, rs) is Done,
{
}

/// A tool fails with the error of the first request, whatever it is.
pub proof fn law_first_failure_ends_a_tool(
    name: Seq<char>,
    a: JsonModel,
    seconds: Option<u64>,
    e: Seq<char>,
)
    requires
        tool_next(name, a, seconds, Seq::empty()) is Ask,
    ensures
        tool_next(name, a, seconds, seq![Err(e)]) == ToolNext::Done(Err(e)),
{
    let rs = seq![Err::<Msg, _>(e)];
    assert(rs[0] == Err::<Msg, _>(e));
    assert(first_error(rs) == Some(e));
}

} // verus!
