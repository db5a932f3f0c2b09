//! What the throughput test promises: that both sides agree before it starts, that what
//! is sent is what is counted, and that what is counted is what is reported.

use vstd::prelude::*;

use crate::digits;
use crate::identity_store;
use crate::keys;
use crate::link::{self, News, Outlook};
use crate::msgpack::{self, Msg};
use crate::perf::{self, Counter, CounterAct, Course, ResultDeed, SetupModel, Stage};
use crate::rpc;
use crate::text_laws;

verus! {

// ---------------------------------------------------------------------------
// The listener
// ---------------------------------------------------------------------------

/// The version that both sides speak is answered with the listener's own, and counts as
/// agreed.
pub proof fn law_same_version_is_answered(
    s: SetupModel,
    payload: Seq<u8>,
    peer: Seq<char>,
    software: Seq<char>,
)
    ensures
        msgpack::msgpack_read(payload) == Ok::<Msg, Seq<char>>(
            Msg::Array(seq![Msg::Text(peer), Msg::Integer(1)]),
        ) ==> ({
            let (n, sent, out) = perf::set_up(s, News::Message(0xAC01, payload), software);
            &&& n == SetupModel { got_ver: true, ..s }
            &&& sent == Some(
                (
                    0xAC01u16,
                    msgpack::msgpack(Msg::Array(seq![Msg::Text(software), Msg::Integer(1)])),
                ),
            )
            &&& out is Ready == s.got_config
            &&& out is Waiting == !s.got_config
        }),
{
}

/// Another version is refused with an error that names it, and nothing is agreed.
pub proof fn law_other_version_is_refused(
    s: SetupModel,
    payload: Seq<u8>,
    peer: Seq<char>,
    software: Seq<char>,
    pv: u8,
)
    requires
        pv != 1,
    ensures
        msgpack::msgpack_read(payload) == Ok::<Msg, Seq<char>>(
            Msg::Array(seq![Msg::Text(peer), Msg::Integer(pv as int)]),
        ) ==> ({
            let (n, sent, out) = perf::set_up(s, News::Message(0xAC01, payload), software);
            let e = "incompatible protocol "@ + digits::dec(pv as nat);
            &&& n == s
            &&& sent == Some(
                (
                    0xAC05u16,
                    msgpack::msgpack(Msg::Array(seq![Msg::Text(e), Msg::Boolean(false)])),
                ),
            )
            &&& out == Outlook::Failed(e)
        }),
        msgpack::msgpack_read(payload) == Ok::<Msg, Seq<char>>(
            Msg::Array(seq![Msg::Text(peer), Msg::Integer(pv as int)]),
        ) ==> perf::version_phase(News::Message(0xAC01, payload)) == Outlook::Failed(
            "incompatible protocol "@ + digits::dec(pv as nat),
        ),
{
}

/// The setup of a test is taken over as it was sent; a packet size that the link cannot
/// carry is passed over.
pub proof fn law_setup_is_taken_over(
    s: SetupModel,
    payload: Seq<u8>,
    software: Seq<char>,
    duration: u64,
    size: u64,
)
    requires
        size <= i64::MAX,
    ensures
        msgpack::msgpack_read(payload) == Ok::<Msg, Seq<char>>(
            perf::config_msg(duration, size),
        ) ==> ({
            let (n, sent, out) = perf::set_up(s, News::Message(0xAC02, payload), software);
            &&& n.got_config && n.got_ver == s.got_ver && n.mdu == s.mdu
            &&& n.duration == Some(Msg::Double(duration))
            &&& 0 < size < s.mdu ==> n.packet_size == size
            &&& size == 0 || size >= s.mdu ==> n.packet_size == s.packet_size
            &&& sent is None
            &&& out is Ready == s.got_ver
            &&& out is Waiting == !s.got_ver
        }),
{
    perf::law_config_round_trip(duration, size);
}

/// A link that ends, and an error of the peer, end the setting up; what is no part of it
/// changes nothing.
pub proof fn law_setting_up_can_fail(
    s: SetupModel,
    payload: Seq<u8>,
    t: u16,
    hash: Seq<u8>,
    software: Seq<char>,
)
    ensures
        perf::set_up(s, News::Closed, software).2 is Failed,
        perf::set_up(s, News::Gone, software).2 is Failed,
        perf::set_up(s, News::Message(0xAC05, payload), software).2 == Outlook::Failed(
            "remote error: "@ + link::latin(payload),
        ),
        perf::set_up(s, News::Quiet, software).0 == s,
        perf::set_up(s, News::Identified(hash), software).0 == s,
        t != 0xAC01 && t != 0xAC02 ==> perf::set_up(s, News::Message(t, payload), software).0 == s,
        t != 0xAC01 ==> perf::set_up(s, News::Message(t, payload), software).1 is None,
{
}

/// Every packet of data counts once, with the bytes behind its number of four bytes.
pub proof fn law_every_packet_is_counted(c: Counter, payload: Seq<u8>)
    requires
        payload.len() >= 4,
        c.bytes + payload.len() - 4 <= u64::MAX,
        c.packets < u64::MAX,
    ensures
        ({
            let (n, act) = perf::counted(c, News::Message(0xAC03, payload));
            &&& n.bytes == c.bytes + payload.len() - 4
            &&& n.packets == c.packets + 1
            &&& n.results_sent == c.results_sent
            &&& act == CounterAct::Counted
        }),
{
}

/// What was sent is what is counted: a packet of the sender adds its size to both sums.
pub proof fn law_what_is_sent_is_counted(c: Counter, seq_number: u32, size: nat)
    requires
        c.bytes + size <= u64::MAX,
        c.packets < u64::MAX,
    ensures
        perf::counted(c, News::Message(0xAC03, perf::packet(seq_number, size))) == (
            Counter {
                bytes: (c.bytes + size) as u64,
                packets: (c.packets + 1) as u64,
                results_sent: c.results_sent,
            },
            CounterAct::Counted,
        ),
{
    perf::law_packets_are_counted(seq_number, size);
}

/// Asking for the result is answered with it and changes no count; the session ends with
/// its link, and nothing else counts.
pub proof fn law_only_packets_count(c: Counter, payload: Seq<u8>, t: u16, hash: Seq<u8>)
    ensures
        perf::counted(c, News::Message(0xAC04, payload)) == (
            Counter { results_sent: true, ..c },
            CounterAct::SendResult,
        ),
        perf::counted(c, News::Closed) == (c, CounterAct::End),
        perf::counted(c, News::Gone) == (c, CounterAct::End),
        perf::counted(c, News::Quiet) == (c, CounterAct::Pass),
        perf::counted(c, News::Other) == (c, CounterAct::Pass),
        perf::counted(c, News::Identified(hash)) == (c, CounterAct::Pass),
        payload.len() < 4 ==> perf::counted(c, News::Message(0xAC03, payload)) == (
            c,
            CounterAct::Pass,
        ),
        t != 0xAC03 && t != 0xAC04 ==> perf::counted(c, News::Message(t, payload)) == (
            c,
            CounterAct::Pass,
        ),
{
}

/// What is reported is what was counted.
pub proof fn law_report_tells_the_counts(c: Counter, nanoseconds: u64, payload: Seq<u8>)
    requires
        c.bytes <= i64::MAX,
        c.packets <= i64::MAX,
        nanoseconds <= i64::MAX,
    ensures
        msgpack::msgpack_read(payload) == Ok::<Msg, Seq<char>>(
            perf::result_msg(c.bytes, c.packets, nanoseconds),
        ) ==> perf::result_phase(News::Message(0xAC04, payload)) == ResultDeed::Got(
            c.bytes,
            c.packets,
            nanoseconds,
        ),
{
    perf::law_result_round_trip(c.bytes, c.packets, nanoseconds);
}

/// The counts of a report stand under their names.
pub proof fn law_report_has_its_fields(bytes: u64, packets: u64, nanoseconds: u64)
    requires
        bytes <= i64::MAX,
        packets <= i64::MAX,
        nanoseconds <= i64::MAX,
    ensures
        perf::result_msg(bytes, packets, nanoseconds) == Msg::Pairs(
            seq![
                (Msg::Text("bytes_received"@), Msg::Integer(bytes as int)),
                (Msg::Text("packets_received"@), Msg::Integer(packets as int)),
                (Msg::Text("duration_ns"@), Msg::Integer(nanoseconds as int)),
            ],
        ),
        perf::config_msg(bytes, packets) == Msg::Pairs(
            seq![
                (Msg::Text("duration"@), Msg::Double(bytes)),
                (Msg::Text("packet_size"@), Msg::Integer(packets as int)),
            ],
        ),
        perf::result_request_msg() == Msg::Pairs(
            seq![(Msg::Text("request"@), Msg::Boolean(true))],
        ),
{
}

// ---------------------------------------------------------------------------
// The initiator
// ---------------------------------------------------------------------------

/// A packet carries as much as is asked for, as far as it fits behind the number, and at
/// least one byte.
pub proof fn law_packets_are_as_large_as_asked(asked: nat, mdu: nat)
    ensures
        mdu >= 5 && 1 <= asked <= mdu - 4 ==> perf::data_size_for(Some(asked), mdu) == asked,
        mdu >= 5 && asked > mdu - 4 ==> perf::data_size_for(Some(asked), mdu) == mdu - 4,
        mdu >= 5 ==> perf::data_size_for(None, mdu) == mdu - 4,
        perf::data_size_for(Some(0), mdu) == 1,
        mdu < 5 ==> perf::data_size_for(None, mdu) == 1,
{
}

/// A packet starts with its number in four bytes, the highest first, and is as long as
/// the data and the number.
pub proof fn law_packets_carry_their_number(seq_number: u32, size: nat, i: int)
    requires
        0 <= i < size,
    ensures
        perf::packet(seq_number, size).len() == size + 4,
        perf::packet(seq_number, size)[0] as int * 0x100_0000 + perf::packet(seq_number, size)[1]
            as int * 0x1_0000 + perf::packet(seq_number, size)[2] as int * 0x100 + perf::packet(
            seq_number,
            size,
        )[3] as int == seq_number,
        perf::packet(seq_number, size)[4 + i] == 0,
{
    reveal_with_fuel(rpc::big_endian, 5);
    reveal_with_fuel(rpc::power, 5);
    rpc::law_big_endian_round_trip(seq_number as nat, 4);
    let h = rpc::big_endian(seq_number as nat, 4);
    reveal_with_fuel(rpc::from_big_endian, 5);
    assert(h.drop_last().drop_last().drop_last().drop_last().len() == 0);
}

/// The test goes from stage to stage: an open link is greeted with the version, the same
/// version starts the test, and the result is reported.
pub proof fn law_test_goes_its_way(
    payload: Seq<u8>,
    peer: Seq<char>,
    software: Seq<char>,
    bytes: u64,
    packets: u64,
    nanoseconds: u64,
)
    requires
        bytes <= i64::MAX,
        packets <= i64::MAX,
        nanoseconds <= i64::MAX,
    ensures
        perf::initiated(Stage::Opening, false, News::Activated, software) == (
            Stage::Agreeing,
            Course::Greet(
                0xAC01,
                msgpack::msgpack(Msg::Array(seq![Msg::Text(software), Msg::Integer(1)])),
            ),
        ),
        msgpack::msgpack_read(payload) == Ok::<Msg, Seq<char>>(
            Msg::Array(seq![Msg::Text(peer), Msg::Integer(1)]),
        ) ==> perf::initiated(Stage::Agreeing, false, News::Message(0xAC01, payload), software) == (
            Stage::Awaiting,
            Course::StartTest,
        ),
        msgpack::msgpack_read(payload) == Ok::<Msg, Seq<char>>(
            perf::result_msg(bytes, packets, nanoseconds),
        ) ==> perf::initiated(Stage::Awaiting, false, News::Message(0xAC04, payload), software) == (
            Stage::Awaiting,
            Course::Report(bytes, packets, nanoseconds),
        ),
{
    perf::law_result_round_trip(bytes, packets, nanoseconds);
}

/// Time that runs out, and a link that ends, end the test: with an error before it
/// started, and without a report after.
pub proof fn law_test_can_end_early(news: News, software: Seq<char>, payload: Seq<u8>)
    ensures
        perf::initiated(Stage::Opening, true, news, software).1 is Fail,
        perf::initiated(Stage::Agreeing, true, news, software).1 is Fail,
        perf::initiated(Stage::Awaiting, true, news, software).1 == Course::NoReport(None),
        perf::initiated(Stage::Opening, false, News::Closed, software).1 is Fail,
        perf::initiated(Stage::Agreeing, false, News::Closed, software).1 is Fail,
        perf::initiated(Stage::Awaiting, false, News::Closed, software).1 == Course::NoReport(None),
        perf::initiated(Stage::Opening, false, News::Gone, software).1 is Fail,
        perf::initiated(Stage::Agreeing, false, News::Gone, software).1 is Fail,
        perf::initiated(Stage::Awaiting, false, News::Gone, software).1 == Course::NoReport(None),
        perf::initiated(Stage::Agreeing, false, News::Message(0xAC05, payload), software).1
            == Course::Fail("remote: "@ + link::latin(payload)),
        perf::initiated(Stage::Awaiting, false, News::Message(0xAC05, payload), software).1
            == Course::NoReport(Some(link::latin(payload))),
        perf::initiated(Stage::Opening, false, News::Quiet, software) == (
            Stage::Opening,
            Course::Wait,
        ),
        perf::initiated(Stage::Agreeing, false, News::Quiet, software) == (
            Stage::Agreeing,
            Course::Wait,
        ),
        perf::initiated(Stage::Awaiting, false, News::Quiet, software) == (
            Stage::Awaiting,
            Course::Wait,
        ),
{
}

/// An error of the peer is shown byte by byte.
pub proof fn law_errors_are_shown_by_bytes(b: Seq<u8>, x: u8)
    ensures
        link::latin(b.push(x)) == link::latin(b).push(x as char),
        link::latin(b).len() == b.len(),
{
    assert(link::latin(b.push(x)) =~= link::latin(b).push(x as char));
}

// ---------------------------------------------------------------------------
// Connecting
// ---------------------------------------------------------------------------

/// The keys of the listener are those that are given, where they are keys, and those of
/// the identity at hand only where none are given.
pub proof fn law_given_keys_come_first(
    given: Seq<char>,
    file: Option<Seq<char>>,
    content: Seq<char>,
    shown: Seq<char>,
)
    ensures
        keys::keys_in(given) matches Some(k) ==> keys::is_identity(k) ==> perf::listener_keys(
            Some(given),
            file,
            shown,
        ) == Ok::<Seq<u8>, Seq<char>>(k),
        keys::keys_in(given) is None ==> perf::listener_keys(Some(given), file, shown) is Err,
        identity_store::stored(content) matches Some(k) ==> perf::listener_keys(
            None,
            Some(content),
            shown,
        ) == Ok::<Seq<u8>, Seq<char>>(keys::public_of(k)),
        perf::listener_keys(None, None, shown) is Err,
{
}

/// The control port is the one behind the port that is named.
pub proof fn law_control_port_is_the_next(n: nat)
    requires
        n <= 65534,
    ensures
        perf::ports_in(Some(digits::dec(n))) == Ok::<Option<(nat, nat)>, Seq<char>>(
            Some((n, n + 1)),
        ),
        perf::ports_in(None) == Ok::<Option<(nat, nat)>, Seq<char>>(None),
        perf::ports_in(Some(Seq::<char>::empty())) is Err,
{
    digits::law_decimal_round_trip(n, 65534);
}

/// What a report or a setup leaves out counts as zero, and other values are errors.
pub proof fn law_missing_counts_are_zero(m: Msg)
    requires
        m !is Pairs,
    ensures
        perf::result_in(Msg::Pairs(Seq::empty())) == Ok::<(u64, u64, u64), Seq<char>>((0, 0, 0)),
        perf::config_in(Msg::Pairs(Seq::empty())) == Ok::<(Option<Msg>, u64), Seq<char>>(
            (None, 0),
        ),
        perf::result_in(m) is Err,
        perf::config_in(m) is Err,
{
}

/// A port without one behind it is refused.
pub proof fn law_last_port_is_refused(n: nat)
    requires
        n > 65534,
    ensures
        perf::ports_in(Some(digits::dec(n))) is Err,
{
    text_laws::law_numbers_are_read(n, 65534, Seq::empty());
}

} // verus!
