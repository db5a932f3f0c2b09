//! Links: what happens on one while a session waits, and how a session goes on.

use vstd::prelude::*;

verus! {

/// What happens on a link while a session waits.
#[derive(Debug)]
pub enum LinkNews {
    /// The peer has shown its identity, with this hash.
    Identified(Vec<u8>),
    /// A message of a type.
    Message(u16, Vec<u8>),
    /// The link is up.
    Activated,
    /// The link was closed.
    Closed,
    /// Anything else, or something on another link.
    Other,
    /// No more events can come.
    Gone,
    /// Nothing happened for a while.
    Quiet,
}

/// What happens on a link, over sequences.
pub enum News {
    Identified(Seq<u8>),
    Message(u16, Seq<u8>),
    Activated,
    Closed,
    Other,
    Gone,
    Quiet,
}

impl View for LinkNews {
    type V = News;

    open spec fn view(&self) -> News {
        match self {
            LinkNews::Identified(h) => News::Identified(h@),
            LinkNews::Message(t, p) => News::Message(*t, p@),
            LinkNews::Activated => News::Activated,
            LinkNews::Closed => News::Closed,
            LinkNews::Other => News::Other,
            LinkNews::Gone => News::Gone,
            LinkNews::Quiet => News::Quiet,
        }
    }
}

/// How a phase goes on.
#[derive(Debug)]
pub enum Fate {
    /// It waits for the next event.
    Waiting,
    /// It is over, and went well.
    Ready,
    /// It is over, with an error.
    Failed(String),
    /// It is over: the peer sent a message that is too short to be read.
    Malformed,
}

/// How a phase goes on, over sequences.
pub enum Outlook {
    Waiting,
    Ready,
    Failed(Seq<char>),
    Malformed,
}

impl View for Fate {
    type V = Outlook;

    open spec fn view(&self) -> Outlook {
        match self {
            Fate::Waiting => Outlook::Waiting,
            Fate::Ready => Outlook::Ready,
            Fate::Failed(e) => Outlook::Failed(e@),
            Fate::Malformed => Outlook::Malformed,
        }
    }
}

/// A message to send: its type and its payload.
pub open spec fn message_view(o: Option<(u16, Vec<u8>)>) -> Option<(u16, Seq<u8>)> {
    match o {
        Some((t, p)) => Some((t, p@)),
        None => None,
    }
}

/// Where the identity comes from that a link is opened to.
#[derive(Debug, Clone, Copy, PartialEq, Eq, Structural)]
pub enum Lookup {
    /// It was announced.
    Announced,
    /// Time has run out: it is the one at hand.
    AtHand,
    /// Not known yet: the path is asked for once more.
    AskAgain,
}

/// Goes on with looking for the identity behind a destination. `found` says that
/// it was announced.
pub fn lookup(found: bool, expired: bool) -> (r: Lookup)
    ensures
        r == (if found {
            Lookup::Announced
        } else if expired {
            Lookup::AtHand
        } else {
            Lookup::AskAgain
        }),
{
    if found {
        Lookup::Announced
    } else if expired {
        Lookup::AtHand
    } else {
        Lookup::AskAgain
    }
}

/// How an initiator that waits for its link goes on.
pub open spec fn activation(news: News) -> Outlook {
    match news {
        News::Activated => Outlook::Ready,
        News::Closed => Outlook::Failed("link closed during activation"@),
        News::Gone => Outlook::Failed("event channel gone"@),
        _ => Outlook::Waiting,
    }
}

/// How an initiator that waits for its link goes on.
pub fn await_activation(news: &LinkNews) -> (r: Fate)
    ensures
        r@ == activation(news@),
{
    match news {
        LinkNews::Activated => Fate::Ready,
        LinkNews::Closed => Fate::Failed("link closed during activation".to_owned()),
        LinkNews::Gone => Fate::Failed("event channel gone".to_owned()),
        _ => Fate::Waiting,
    }
}

/// The text of bytes that are taken for characters one by one.
pub open spec fn latin(b: Seq<u8>) -> Seq<char> {
    Seq::new(b.len(), |i: int| b[i] as char)
}

/// The text of bytes that are taken for characters one by one.
pub fn latin_text(b: &[u8]) -> (r: String)
    ensures
        r@ == latin(b@),
{
    let mut out = String::new();
    let mut i: usize = 0;
    assert(out@ =~= latin(b@.take(0)));
    while i < b.len()
        invariant
            i <= b@.len(),
            out@ =~= latin(b@.take(i as int)),
        decreases b@.len() - i,
    {
        out.push(b[i] as char);
        i = i + 1;
    }
    assert(b@.take(b@.len() as int) =~= b@);
    out
}

} // verus!
