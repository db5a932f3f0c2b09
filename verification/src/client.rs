//! The client of the git service: addresses, requests and responses.

use vstd::prelude::*;

use crate::address;
use crate::byte_map::ByteMap;
use crate::bytes;
use crate::digits;
use crate::hash;
use crate::msgpack;
use crate::msgpack::{Msg, MsgValue};
use crate::server;
use crate::server::{LinkState, PacketAction, PacketKind};
use crate::text;
use crate::transfer;

verus! {

/// How often a resource is advertised again while no part of it is asked for.
pub const MAX_ADV_RETRIES: u8 = 4;

// ---------------------------------------------------------------------------
// Addresses of repositories
// ---------------------------------------------------------------------------

/// What follows the scheme of an address.
pub open spec fn without_scheme(url: Seq<char>) -> Seq<char> {
    match text::after(url, "rns://"@) {
        Some(r) => r,
        None => match text::after(url, "rns:"@) {
            Some(r) => r,
            None => url,
        },
    }
}

/// An address with a slash after the destination hash, which may also end in a
/// space.
pub open spec fn slashed(rest: Seq<char>) -> Seq<char> {
    match text::halves(rest, ' ') {
        Some((hash, path)) => if hash.contains('/') {
            rest
        } else {
            hash + "/"@ + path
        },
        None => rest,
    }
}

/// The destination and the repository that an address names: after an optional
/// scheme a destination hash, then a slash or a space, and then a group and a
/// repository with a slash between them.
pub open spec fn rns_url(url: Seq<char>) -> Result<(Seq<u8>, Seq<char>), Seq<char>> {
    let p = text::pieces(slashed(without_scheme(url)), '/');
    if p.len() < 3 {
        Err("invalid rns url"@)
    } else if p.len() > 3 {
        Err("invalid rns url: too many path components"@)
    } else if vstd::utf8::encode_utf8(p[0]).len() != 32 {
        Err("destination must be 32 hex chars"@)
    } else {
        match address::address_in(p[0]) {
            None => Err("invalid destination hash"@),
            Some(h) => if p[1].len() == 0 || p[2].len() == 0 {
                Err("invalid rns url: missing group or repository"@)
            } else {
                Ok((h, p[1] + "/"@ + p[2]))
            },
        }
    }
}

fn with_slash(rest: String) -> (r: String)
    ensures
        r@ == slashed(rest@),
{
    match text::split_once(rest.as_str(), ' ') {
        Some((hash, path)) => if text::contains_char(hash.as_str(), '/') {
            rest
        } else {
            text::cat3(hash.as_str(), "/", path.as_str())
        },
        None => rest,
    }
}

/// Parses the address of a repository. These forms are accepted:
///
/// - `rns://<hash>/<group>/<repository>`
/// - `<hash>/<group>/<repository>`
/// - `rns://<hash> <group>/<repository>`
pub fn parse_rns_url(url: &str) -> (r: Result<(Vec<u8>, String), String>)
    ensures
        match r {
            Ok((h, p)) => rns_url(url@) == Ok::<_, Seq<char>>((h@, p@)) && h@.len() == 16,
            Err(e) => rns_url(url@) == Err::<(Seq<u8>, Seq<char>), _>(e@),
        },
{
    let rest = match text::strip_prefix(url, "rns://") {
        Some(r) => r,
        None => match text::strip_prefix(url, "rns:") {
            Some(r) => r,
            None => url.to_owned(),
        },
    };
    let rest = with_slash(rest);
    let parts = text::split(rest.as_str(), '/');
    let ghost p = text::pieces(rest@, '/');
    assert(parts@.len() == p.len());
    if parts.len() < 3 {
        return Err("invalid rns url".to_owned());
    }
    if parts.len() > 3 {
        return Err("invalid rns url: too many path components".to_owned());
    }
    assert(p[0] == parts@[0]@ && p[1] == parts@[1]@ && p[2] == parts@[2]@);
    let raw = text::utf8(parts[0].as_str());
    if raw.len() != 32 {
        return Err("destination must be 32 hex chars".to_owned());
    }
    match address::address_from_hex(parts[0].as_str()) {
        None => Err("invalid destination hash".to_owned()),
        Some(h) => {
            if parts[1].as_str().is_empty() || parts[2].as_str().is_empty() {
                return Err("invalid rns url: missing group or repository".to_owned());
            }
            Ok((h, text::cat3(parts[1].as_str(), "/", parts[2].as_str())))
        },
    }
}

// ---------------------------------------------------------------------------
// Requests
// ---------------------------------------------------------------------------

/// Packs a request, made at the time with these bits.
pub fn pack_request(path: &str, data: &MsgValue, now: u64) -> (r: Result<Vec<u8>, String>)
    requires
        msgpack::encodable(data@),
        !msgpack::is_nan(now),
    ensures
        r is Ok,
        r->Ok_0@ == msgpack::msgpack(transfer::request_value(Msg::Double(now), path@, data@)),
{
    let key = transfer::path_hash(path);
    let mut items: Vec<MsgValue> = Vec::new();
    items.push(MsgValue::Double(now));
    items.push(msgpack::binary(key.as_slice()));
    items.push(data.copy());
    let request = msgpack::array(items);
    proof {
        let want = transfer::request_value(Msg::Double(now), path@, data@);
        assert(request@->Array_0 =~= want->Array_0);
        reveal_with_fuel(msgpack::encodable, 2);
    }
    Ok(msgpack::encode(&request))
}

/// The identifier of a request that is sent in one packet: the short hash of the
/// lower half of the header byte, the destination, the context and the data.
pub open spec fn packet_id(meta: u8, destination: Seq<u8>, context: u8, data: Seq<u8>) -> Seq<u8> {
    hash::short_hash(seq![meta & 0x0fu8] + destination + seq![context] + data)
}

/// The identifier of a request that is sent in one packet.
pub fn python_request_id(meta: u8, destination: &[u8], context: u8, data: &[u8]) -> (r: Vec<u8>)
    ensures
        r@ == packet_id(meta, destination@, context, data@),
{
    let mut all: Vec<u8> = Vec::new();
    all.push(meta & 0x0fu8);
    bytes::append(&mut all, destination);
    all.push(context);
    bytes::append(&mut all, data);
    assert(all@ =~= seq![meta & 0x0fu8] + destination@ + seq![context] + data@);
    hash::truncated(all.as_slice())
}

/// How a packed request is sent: in one packet where it fits, and else as a
/// resource with an identifier.
#[derive(Debug)]
pub enum RequestForm {
    Inline,
    Resource(Vec<u8>),
}

/// Chooses how a packed request is sent over a link whose packets carry `mdu`
/// bytes.
pub fn request_form(packed: &[u8], mdu: usize) -> (r: RequestForm)
    ensures
        match r {
            RequestForm::Inline => packed@.len() <= mdu,
            RequestForm::Resource(id) => packed@.len() > mdu && id@ == hash::short_hash(packed@),
        },
{
    if packed.len() <= mdu {
        RequestForm::Inline
    } else {
        RequestForm::Resource(hash::truncated(packed))
    }
}

// ---------------------------------------------------------------------------
// Responses
// ---------------------------------------------------------------------------

/// A response: carried in a packet, or put together from a resource.
#[derive(Debug)]
pub enum ClientResponse {
    Bytes(Vec<u8>),
    Resource(Vec<u8>),
}

/// A response over sequences.
pub enum Reply {
    Bytes(Seq<u8>),
    Resource(Seq<u8>),
}

impl View for ClientResponse {
    type V = Reply;

    open spec fn view(&self) -> Reply {
        match self {
            ClientResponse::Bytes(b) => Reply::Bytes(b@),
            ClientResponse::Resource(b) => Reply::Resource(b@),
        }
    }
}

/// The response begins with the mark of success.
pub open spec fn succeeds(b: Seq<u8>) -> bool {
    b.len() > 0 && b[0] == 0
}

/// The text of an error that the server reports: a code and a message. Where the
/// response is empty, the code is zero and the message is empty.
pub open spec fn server_error(b: Seq<u8>) -> Seq<char> {
    if b.len() == 0 {
        "server error 0: "@
    } else {
        "server error "@ + digits::dec(b[0] as nat) + ": "@ + text::trimmed(
            text::lossy(b.skip(1)),
        )
    }
}

/// Whether a response begins with the mark of success.
pub fn is_success(b: &[u8]) -> (r: bool)
    ensures
        r == succeeds(b@),
{
    b.len() > 0 && b[0] == 0
}

/// The text of an error that the server reports.
pub fn server_error_text(b: &[u8]) -> (r: String)
    ensures
        r@ == server_error(b@),
{
    if b.len() == 0 {
        return "server error 0: ".to_owned();
    }
    let rest = bytes::cut(b, 1, b.len());
    assert(rest@ =~= b@.skip(1));
    let s = text::from_utf8_lossy(rest.as_slice());
    let message = text::trim(s.as_str());
    let code = digits::decimal(b[0] as u64);
    let mut r = text::cat3("server error ", code.as_str(), ": ");
    r.append(message.as_str());
    r
}

/// The response says that a change was made, or why not.
pub open spec fn change_result(r: Reply, context: Seq<char>) -> Result<(), Seq<char>> {
    match r {
        Reply::Bytes(b) => if succeeds(b) {
            Ok(())
        } else {
            Err(context + ": "@ + server_error(b))
        },
        Reply::Resource(_) => Err(context + ": unexpected resource response"@),
    }
}

/// Checks the response to a push or a deletion for the mark of success.
pub fn check_ok(resp: &ClientResponse, context: &str) -> (r: Result<(), String>)
    ensures
        crate::gitutil::result_view(r) == change_result(resp@, context@),
{
    match resp {
        ClientResponse::Bytes(b) => {
            if is_success(b.as_slice()) {
                return Ok(());
            }
            let e = server_error_text(b.as_slice());
            Err(text::cat3(context, ": ", e.as_str()))
        },
        ClientResponse::Resource(_) => Err(text::cat(context, ": unexpected resource response")),
    }
}

/// The bytes of a response, however it came.
pub fn response_bytes(resp: ClientResponse) -> (r: Vec<u8>)
    ensures
        resp@ == Reply::Bytes(r@) || resp@ == Reply::Resource(r@),
{
    match resp {
        ClientResponse::Bytes(b) => b,
        ClientResponse::Resource(b) => b,
    }
}

/// The bundle that a response to a fetch holds: none where the server has
/// nothing to send.
pub open spec fn bundle_result(r: Reply) -> Result<Option<Seq<u8>>, Seq<char>> {
    match r {
        Reply::Bytes(b) => if succeeds(b) {
            Ok(None)
        } else {
            Err("fetch failed: "@ + server_error(b))
        },
        Reply::Resource(data) => match transfer::payload(data) {
            Ok(b) => Ok(Some(b)),
            Err(e) => Err(e),
        },
    }
}

/// The bundle that a response to a fetch holds.
pub fn fetched_bundle(resp: &ClientResponse) -> (r: Result<Option<Vec<u8>>, String>)
    ensures
        match r {
            Ok(None) => bundle_result(resp@) == Ok::<Option<Seq<u8>>, Seq<char>>(None),
            Ok(Some(b)) => bundle_result(resp@) == Ok::<_, Seq<char>>(Some(b@)),
            Err(e) => bundle_result(resp@) == Err::<Option<Seq<u8>>, _>(e@),
        },
{
    match resp {
        ClientResponse::Bytes(b) => {
            if is_success(b.as_slice()) {
                return Ok(None);
            }
            let e = server_error_text(b.as_slice());
            Err(text::cat("fetch failed: ", e.as_str()))
        },
        ClientResponse::Resource(data) => match transfer::strip_metadata(data.as_slice()) {
            Ok(b) => Ok(Some(b)),
            Err(e) => Err(e),
        },
    }
}

/// The client gets the bundle that the server sent.
pub proof fn law_client_gets_the_bundle(bundle: Seq<u8>)
    ensures
        server::fetched(Some(bundle)) matches Ok(Ok(data)) ==> bundle_result(Reply::Resource(data))
            == Ok::<_, Seq<char>>(Some(bundle)),
{
    if transfer::metadata_prefix(server::result_metadata()) is Ok {
        transfer::law_payload_follows_metadata(server::result_metadata(), bundle);
    }
}

/// A refusal of the server reaches the caller as its code and message, and a
/// change that was made as success.
pub proof fn law_server_answers_are_understood(code: u8, message: Seq<char>, context: Seq<char>)
    ensures
        change_result(Reply::Bytes(server::reply(code, message)), context) == if code == 0 {
            Ok::<(), Seq<char>>(())
        } else {
            Err(
                context + ": "@ + ("server error "@ + digits::dec(code as nat) + ": "@
                    + text::trimmed(text::lossy(vstd::utf8::encode_utf8(message)))),
            )
        },
{
    let b = server::reply(code, message);
    assert(b.skip(1) =~= vstd::utf8::encode_utf8(message));
}

// ---------------------------------------------------------------------------
// The session
// ---------------------------------------------------------------------------

/// What happens on a link, or does not.
#[derive(Debug)]
pub enum LinkNews {
    Activated,
    Closed,
    /// A response to the request with this identifier.
    Response(Vec<u8>, MsgValue),
    /// A packet of a resource.
    Resource,
    /// Something else, or something on another link.
    Other,
    ChannelClosed,
    /// Nothing happened for a while.
    Quiet,
}

/// What comes next in connecting.
#[derive(Debug)]
pub enum ConnectStep {
    Wait,
    Ready,
    Fail(String),
}

/// Where connecting stands after the time ran out or something happened.
pub open spec fn connect_fate(expired: bool, news: LinkNews) -> Option<Result<(), Seq<char>>> {
    if expired {
        Some(Err("link activation timed out"@))
    } else {
        match news {
            LinkNews::Activated => Some(Ok(())),
            LinkNews::Closed => Some(Err("link closed during activation"@)),
            LinkNews::ChannelClosed => Some(Err("link event channel closed"@)),
            _ => None,
        }
    }
}

/// What comes next in a request.
#[derive(Debug)]
pub enum RequestStep {
    Wait,
    HandleResource,
    Done(ClientResponse),
    Fail(String),
}

/// What comes next in a request, over sequences.
pub enum Fate {
    Wait,
    HandleResource,
    Done(Reply),
    Fail(Seq<char>),
}

impl View for RequestStep {
    type V = Fate;

    open spec fn view(&self) -> Fate {
        match self {
            RequestStep::Wait => Fate::Wait,
            RequestStep::HandleResource => Fate::HandleResource,
            RequestStep::Done(r) => Fate::Done(r@),
            RequestStep::Fail(e) => Fate::Fail(e@),
        }
    }
}

/// Where a request stands: it fails when the time runs out; a response that was
/// put together from a resource ends it; and else it depends on what happened.
pub open spec fn request_fate(
    responses: Map<Seq<u8>, ClientResponse>,
    path: Seq<char>,
    id: Seq<u8>,
    expired: bool,
    news: LinkNews,
) -> Fate {
    if expired {
        Fate::Fail("request "@ + path + " timed out"@)
    } else if responses.contains_key(id) {
        Fate::Done(responses[id]@)
    } else {
        match news {
            LinkNews::Response(rid, data) => if rid@ == id {
                match msgpack::bytes_of(data@) {
                    Some(b) => Fate::Done(Reply::Bytes(b)),
                    None => Fate::Fail("invalid response payload"@),
                }
            } else {
                Fate::Wait
            },
            LinkNews::Resource => Fate::HandleResource,
            LinkNews::Closed => Fate::Fail("link closed during request"@),
            LinkNews::ChannelClosed => Fate::Fail("link event channel closed"@),
            _ => Fate::Wait,
        }
    }
}

/// What becomes of a resource that is being received when a part arrives.
#[derive(Clone, Copy, PartialEq, Eq, Structural, Debug)]
pub enum PartOutcome {
    Nothing,
    Complete,
    AskForMore,
}

/// A session with the server on one link: the resources that are under way, and
/// the responses that were put together.
pub struct Client {
    pub link: LinkState,
    pub responses: ByteMap<ClientResponse>,
}

/// What is to be done about a packet that reaches a client. An advertisement
/// counts where it is of a response and not of a request.
pub open spec fn client_doing(link: LinkState, kind: PacketKind, data: Seq<u8>) -> Result<
    server::Doing,
    Seq<char>,
> {
    match kind {
        PacketKind::Advertisement(flags) => if (flags & 0x08u8) != 0 {
            Ok(server::Doing::Ignore)
        } else if (flags & 0x10u8) != 0 {
            Ok(server::Doing::StartInbound)
        } else {
            Ok(server::Doing::Ignore)
        },
        _ => server::packet_doing(Some(link), kind, data),
    }
}

impl Client {
    /// A session without resources.
    pub fn new() -> (r: Self)
        ensures
            r.link.peer is None,
            r.link.outbound@ == Map::<Seq<u8>, u8>::empty(),
            r.link.inbound@ == Map::<Seq<u8>, Vec<u8>>::empty(),
            r.responses@ == Map::<Seq<u8>, ClientResponse>::empty(),
    {
        Client { link: LinkState::new(), responses: ByteMap::new() }
    }

    /// Goes on with connecting.
    pub fn connect(expired: bool, news: &LinkNews) -> (r: ConnectStep)
        ensures
            match r {
                ConnectStep::Wait => connect_fate(expired, *news) is None,
                ConnectStep::Ready => connect_fate(expired, *news) == Some(
                    Ok::<(), Seq<char>>(()),
                ),
                ConnectStep::Fail(e) => connect_fate(expired, *news) == Some(
                    Err::<(), Seq<char>>(e@),
                ),
            },
    {
        if expired {
            return ConnectStep::Fail("link activation timed out".to_owned());
        }
        match news {
            LinkNews::Activated => ConnectStep::Ready,
            LinkNews::Closed => ConnectStep::Fail("link closed during activation".to_owned()),
            LinkNews::ChannelClosed => ConnectStep::Fail("link event channel closed".to_owned()),
            _ => ConnectStep::Wait,
        }
    }

    /// Goes on with a request. A response that ends it is taken out.
    pub fn request(&mut self, path: &str, id: &[u8], expired: bool, news: &LinkNews) -> (r:
        RequestStep)
        ensures
            r@ == request_fate(old(self).responses@, path@, id@, expired, *news),
            final(self).link == old(self).link,
            final(self).responses@ == if expired {
                old(self).responses@
            } else {
                old(self).responses@.remove(id@)
            },
    {
        if expired {
            return RequestStep::Fail(text::cat3("request ", path, " timed out"));
        }
        if let Some(resp) = self.responses.remove(id) {
            return RequestStep::Done(resp);
        }
        match news {
            LinkNews::Response(rid, data) => {
                if !bytes::same(rid.as_slice(), id) {
                    return RequestStep::Wait;
                }
                match data.as_slice() {
                    Some(b) => RequestStep::Done(ClientResponse::Bytes(b)),
                    None => RequestStep::Fail("invalid response payload".to_owned()),
                }
            },
            LinkNews::Resource => RequestStep::HandleResource,
            LinkNews::Closed => RequestStep::Fail("link closed during request".to_owned()),
            LinkNews::ChannelClosed => RequestStep::Fail("link event channel closed".to_owned()),
            _ => RequestStep::Wait,
        }
    }

    /// Whether a resource that is being sent is to be advertised again, which is
    /// then counted.
    pub fn retry_advertisement(&mut self, resource: &[u8], sent_parts: usize) -> (r: bool)
        ensures
            r == (old(self).link.outbound@.contains_key(resource@) && sent_parts == 0 && old(
                self).link.outbound@[resource@] < MAX_ADV_RETRIES),
            final(self).link.outbound@ == if r {
                old(self).link.outbound@.insert(
                    resource@,
                    (old(self).link.outbound@[resource@] + 1) as u8,
                )
            } else {
                old(self).link.outbound@
            },
            final(self).link.inbound == old(self).link.inbound,
            final(self).link.peer == old(self).link.peer,
            final(self).responses == old(self).responses,
    {
        let n: u8 = match self.link.outbound.get(resource) {
            Some(n) => *n,
            None => {
                return false;
            },
        };
        if sent_parts == 0 && n < MAX_ADV_RETRIES {
            self.link.outbound.insert(bytes::copy(resource), n + 1);
            true
        } else {
            false
        }
    }

    /// Decides what is to be done about a packet of a resource.
    pub fn handle_resource(&self, kind: &PacketKind, data: &[u8]) -> (r: Result<
        PacketAction,
        String,
    >)
        ensures
            match r {
                Ok(a) => client_doing(self.link, *kind, data@) == Ok::<_, Seq<char>>(a@),
                Err(e) => client_doing(self.link, *kind, data@) == Err::<server::Doing, _>(e@),
            },
    {
        match kind {
            PacketKind::Advertisement(flags) => {
                let f: u8 = *flags;
                if (f & 0x08u8) != 0 {
                    Ok(PacketAction::Ignore)
                } else if (f & 0x10u8) != 0 {
                    Ok(PacketAction::StartInbound)
                } else {
                    Ok(PacketAction::Ignore)
                }
            },
            PacketKind::PartRequest => match transfer::resource_hash_from_request(data) {
                None => Err("invalid part request".to_owned()),
                Some(h) => if self.link.outbound.contains_key(h.as_slice()) {
                    Ok(PacketAction::ServeParts(h))
                } else {
                    Err("no outbound resource".to_owned())
                },
            },
            PacketKind::HashUpdate => match transfer::resource_hash_from_hmu(data) {
                None => Err("invalid hashmap update".to_owned()),
                Some(h) => if self.link.inbound.contains_key(h.as_slice()) {
                    match transfer::process_hashmap_update(data) {
                        Ok((n, m)) => Ok(PacketAction::ApplyHashmap(h, n, m)),
                        Err(e) => Err(e),
                    }
                } else {
                    Err("no inbound resource".to_owned())
                },
            },
            PacketKind::Part => Ok(PacketAction::FeedInbound),
            PacketKind::Proof => match transfer::resource_hash_from_proof(data) {
                None => Err("invalid proof".to_owned()),
                Some(h) => if self.link.outbound.contains_key(h.as_slice()) {
                    Ok(PacketAction::CheckProof(h))
                } else {
                    Ok(PacketAction::Ignore)
                },
            },
            PacketKind::Other => Ok(PacketAction::Ignore),
        }
    }

    /// Decides what is to be done about the advertisement of a resource. Returns the
    /// identifier of the request that the resource belongs to as well.
    pub fn receive_advertisement(&self, data: &[u8]) -> (r: Result<(PacketAction, Vec<u8>), String>)
        ensures
            match transfer::advertised(data@) {
                None => r is Err && r->Err_0@ == "invalid resource advertisement: "@
                    + "packet error"@,
                Some((flags, id)) => r is Ok && client_doing(
                    self.link,
                    PacketKind::Advertisement(flags),
                    data@,
                ) == Ok::<_, Seq<char>>(r->Ok_0.0@) && r->Ok_0.1@ == server::or_empty(id),
            },
    {
        match transfer::read_advertisement(data) {
            Ok((flags, id)) => match self.handle_resource(
                &PacketKind::Advertisement(flags),
                data,
            ) {
                Ok(a) => Ok((a, server::bytes_or_empty(id))),
                Err(e) => Err(e),
            },
            Err(e) => Err(text::cat("invalid resource advertisement: ", e.as_str())),
        }
    }

    /// What becomes of a resource that was offered a part: `accepted` says
    /// whether the part is one of its own.
    pub fn part_outcome(
        accepted: bool,
        all_received: bool,
        outstanding: usize,
        window: usize,
    ) -> (r: PartOutcome)
        ensures
            r == if !accepted {
                PartOutcome::Nothing
            } else if all_received {
                PartOutcome::Complete
            } else if outstanding < window {
                PartOutcome::AskForMore
            } else {
                PartOutcome::Nothing
            },
    {
        if !accepted {
            PartOutcome::Nothing
        } else if all_received {
            PartOutcome::Complete
        } else if outstanding < window {
            PartOutcome::AskForMore
        } else {
            PartOutcome::Nothing
        }
    }

    /// A resource was received whole: it is the response to its request, if it
    /// names one.
    pub fn received(&mut self, resource: &[u8], plaintext: Vec<u8>)
        ensures
            final(self).link.inbound@ == old(self).link.inbound@.remove(resource@),
            final(self).link.outbound == old(self).link.outbound,
            final(self).link.peer == old(self).link.peer,
            final(self).responses@ == if old(self).link.inbound@.contains_key(resource@) && old(
                self).link.inbound@[resource@]@.len() > 0 {
                old(self).responses@.insert(
                    old(self).link.inbound@[resource@]@,
                    ClientResponse::Resource(plaintext),
                )
            } else {
                old(self).responses@
            },
    {
        if let Some(id) = self.link.received(resource) {
            if id.len() > 0 {
                self.responses.insert(id, ClientResponse::Resource(plaintext));
            }
        }
    }
}

} // verus!
