//! Subscriptions to events: what a request asks for and how it is answered.

use vstd::prelude::*;

use crate::http::{
    extract_origin_host, header_of, headers_view, origin_host, Address, Header, HeaderView,
};
use crate::scan::{read_update_id, stored_update_id};
use crate::text::{self, decimal, first_index, lowered, opt_text, parsed_number, starts_with};

verus! {

/// How long a subscription lasts that does not say, in seconds.
pub const DEFAULT_TIMEOUT_SECS: u64 = 1800;

pub const MIN_TIMEOUT_SECS: u64 = 60;

pub const MAX_TIMEOUT_SECS: u64 = 3600;

/// The services that can be subscribed to.
#[derive(Debug, Clone, Copy, PartialEq, Eq, Structural)]
pub enum ServiceId {
    ContentDirectory,
    ConnectionManager,
}

/// The text between the first `<` and the `>` that follows it, unless it is empty.
pub open spec fn first_callback(raw: Seq<char>) -> Option<Seq<char>> {
    if raw.contains('<') {
        let rest = raw.skip(first_index(raw, '<') + 1);
        if rest.contains('>') && first_index(rest, '>') > 0 {
            Some(rest.take(first_index(rest, '>')))
        } else {
            None
        }
    } else {
        None
    }
}

/// The first URL of a `CALLBACK` header `<url> <url> ...`.
pub fn parse_first_callback(raw: &str) -> (r: Option<String>)
    ensures
        opt_text(r) == first_callback(raw@),
{
    match text::split_at_char(raw, '<') {
        None => None,
        Some((_, rest)) => match text::split_at_char(rest, '>') {
            None => None,
            Some((url, _)) => {
                proof {
                    text::lemma_first_index(rest@, '>');
                }
                if url.is_empty() {
                    None
                } else {
                    Some(text::owned(url))
                }
            },
        },
    }
}

/// The seconds that a `TIMEOUT` header grants: `Second-` and a number, brought
/// between the least and the most; the default for anything else.
pub open spec fn granted_timeout(raw: Option<Seq<char>>) -> u64 {
    match raw {
        None => DEFAULT_TIMEOUT_SECS,
        Some(s) => if !starts_with(s, "Second-"@) {
            DEFAULT_TIMEOUT_SECS
        } else {
            let rest = s.skip("Second-"@.len() as int);
            match parsed_number(rest, u64::MAX as nat) {
                None => DEFAULT_TIMEOUT_SECS,
                Some(n) => if n < MIN_TIMEOUT_SECS {
                    MIN_TIMEOUT_SECS
                } else if n > MAX_TIMEOUT_SECS {
                    MAX_TIMEOUT_SECS
                } else {
                    n as u64
                },
            }
        },
    }
}

/// Read a `TIMEOUT` header. An endless subscription is granted the default.
pub fn parse_timeout(raw: Option<&str>) -> (r: u64)
    ensures
        r == granted_timeout(text::opt_str(raw)),
{
    let s = match raw {
        None => return DEFAULT_TIMEOUT_SECS,
        Some(s) => s,
    };
    match text::strip_prefix(s, "Second-") {
        None => DEFAULT_TIMEOUT_SECS,
        Some(rest) => match text::parse_number(rest, u64::MAX) {
            None => DEFAULT_TIMEOUT_SECS,
            Some(n) => if n < MIN_TIMEOUT_SECS {
                MIN_TIMEOUT_SECS
            } else if n > MAX_TIMEOUT_SECS {
                MAX_TIMEOUT_SECS
            } else {
                n
            },
        },
    }
}

/// Every subscription lasts between the least and the most time, and one without
/// end, however `infinite` is written, lasts the default time.
pub proof fn timeouts_are_bounded(raw: Option<Seq<char>>)
    ensures
        MIN_TIMEOUT_SECS <= granted_timeout(raw) <= MAX_TIMEOUT_SECS,
        raw matches Some(s) ==> (starts_with(s, "Second-"@) && lowered(
            s.skip("Second-"@.len() as int),
        ) == "infinite"@ ==> granted_timeout(raw) == DEFAULT_TIMEOUT_SECS),
{
    match raw {
        Some(s) => {
            let rest = s.skip("Second-"@.len() as int);
            if lowered(rest) == "infinite"@ {
                reveal_strlit("infinite");
                assert(lowered(rest)[1] == 'n');
                assert(rest.len() == lowered(rest).len());
                let digits = if rest.len() > 0 && rest[0] == '+' {
                    rest.drop_first()
                } else {
                    rest
                };
                if rest[0] == '+' {
                    assert(lowered(rest)[0] == '+');
                }
                assert(digits == rest);
                assert(text::lower(rest[1]) == 'n');
                assert(!text::is_digit(digits[1]));
            }
        },
        None => {},
    }
}

// ── Requests ─────────────────────────────────────────────────────────────

/// An event request, with those of its headers that matter.
#[derive(Debug)]
pub struct EventRequest<'a> {
    pub method: &'a str,
    pub sid: Option<&'a str>,
    pub callback: Option<&'a str>,
    pub timeout: Option<&'a str>,
}

/// A response to an event request.
#[derive(Debug)]
pub struct EventReply {
    pub status: u16,
    pub headers: Vec<Header>,
    pub body: &'static str,
}

/// A response as text.
pub struct EventReplyView {
    pub status: u16,
    pub headers: Seq<HeaderView>,
    pub body: Seq<char>,
}

impl View for EventReply {
    type V = EventReplyView;

    open spec fn view(&self) -> EventReplyView {
        EventReplyView {
            status: self.status,
            headers: headers_view(self.headers@),
            body: self.body@,
        }
    }
}

/// What is to be done about an event request.
#[derive(Debug)]
pub enum EventAction {
    /// Let the subscription last for so many seconds from now on.
    Refresh { sid: String, timeout: u64 },
    /// Make a subscription.
    Register { callback: String, timeout: u64 },
    /// End the subscription.
    Unsubscribe { sid: String },
    /// Nothing but to answer.
    Reply(EventReply),
}

/// What is to be done, as text.
pub enum EventActionView {
    Refresh { sid: Seq<char>, timeout: u64 },
    Register { callback: Seq<char>, timeout: u64 },
    Unsubscribe { sid: Seq<char> },
    Reply(EventReplyView),
}

impl View for EventAction {
    type V = EventActionView;

    open spec fn view(&self) -> EventActionView {
        match self {
            EventAction::Refresh { sid, timeout } => EventActionView::Refresh {
                sid: sid@,
                timeout: *timeout,
            },
            EventAction::Register { callback, timeout } => EventActionView::Register {
                callback: callback@,
                timeout: *timeout,
            },
            EventAction::Unsubscribe { sid } => EventActionView::Unsubscribe { sid: sid@ },
            EventAction::Reply(r) => EventActionView::Reply(r@),
        }
    }
}

/// A response without headers.
pub open spec fn bare_reply(status: u16, body: Seq<char>) -> EventReplyView {
    EventReplyView { status, headers: Seq::empty(), body }
}

/// The response to a subscription that was made or refreshed.
pub open spec fn subscribed(sid: Seq<char>, timeout: u64) -> EventReplyView {
    EventReplyView {
        status: 200,
        headers: seq![
            HeaderView { name: "sid"@, value: sid },
            HeaderView { name: "timeout"@, value: "Second-"@ + decimal(timeout as nat) },
        ],
        body: ""@,
    }
}

/// A `SUBSCRIBE` with a `SID` refreshes, one without it subscribes; an `UNSUBSCRIBE`
/// needs the `SID`.
pub open spec fn action_for(req: EventRequest) -> EventActionView {
    let timeout = granted_timeout(text::opt_str(req.timeout));
    if req.method@ == "SUBSCRIBE"@ {
        match req.sid {
            Some(sid) => EventActionView::Refresh { sid: sid@, timeout },
            None => match req.callback {
                None => EventActionView::Reply(bare_reply(400, "invalid CALLBACK header"@)),
                Some(raw) => match first_callback(raw@) {
                    None => EventActionView::Reply(bare_reply(400, "invalid CALLBACK header"@)),
                    Some(callback) => EventActionView::Register { callback, timeout },
                },
            },
        }
    } else if req.method@ == "UNSUBSCRIBE"@ {
        match req.sid {
            Some(sid) => EventActionView::Unsubscribe { sid: sid@ },
            None => EventActionView::Reply(bare_reply(400, "missing SID"@)),
        }
    } else {
        EventActionView::Reply(bare_reply(405, "method not allowed"@))
    }
}

fn bare(status: u16, body: &'static str) -> (r: EventReply)
    ensures
        r@ == bare_reply(status, body@),
{
    let headers: Vec<Header> = Vec::new();
    assert(headers_view(headers@) =~= Seq::empty());
    EventReply { status, headers, body }
}

/// Decide what an event request asks for.
pub fn handle_event(req: &EventRequest) -> (r: EventAction)
    ensures
        r@ == action_for(*req),
{
    let timeout: u64 = parse_timeout(req.timeout);
    if text::same(req.method, "SUBSCRIBE") {
        match req.sid {
            Some(sid) => EventAction::Refresh { sid: text::owned(sid), timeout },
            None => match req.callback {
                None => EventAction::Reply(bare(400, "invalid CALLBACK header")),
                Some(raw) => match parse_first_callback(raw) {
                    None => EventAction::Reply(bare(400, "invalid CALLBACK header")),
                    Some(callback) => EventAction::Register { callback, timeout },
                },
            },
        }
    } else if text::same(req.method, "UNSUBSCRIBE") {
        match req.sid {
            Some(sid) => EventAction::Unsubscribe { sid: text::owned(sid) },
            None => EventAction::Reply(bare(400, "missing SID")),
        }
    } else {
        EventAction::Reply(bare(405, "method not allowed"))
    }
}

/// How many subscriptions there can be at once.
pub const MAX_SUBSCRIPTIONS: usize = 64;

/// Whether a subscriber may be notified at a URL: only at an address of the local
/// network. `address` is the address that the URL's host was read as, where it is one.
pub open spec fn callback_allowed(url: Seq<char>, address: Option<Address>) -> bool {
    origin_host(url) is Some && (address matches Some(a) && a.is_local())
}

/// Why a subscription is not made, if it is not. `held` is how many there are.
pub open spec fn refused(url: Seq<char>, address: Option<Address>, held: usize) -> Option<
    EventReplyView,
> {
    if !callback_allowed(url, address) {
        Some(bare_reply(400, "invalid CALLBACK header"@))
    } else if held >= MAX_SUBSCRIPTIONS {
        Some(bare_reply(503, "subscription limit reached"@))
    } else {
        None
    }
}

/// Decide whether a subscription is made: none where it is, and the refusal where not.
pub fn refuse(callback: &str, address: &Option<Address>, held: usize) -> (r: Option<EventReply>)
    ensures
        (match r {
            Some(reply) => Some(reply@),
            None => None,
        }) == refused(callback@, *address, held),
{
    let local = match address {
        Some(a) => a.local(),
        None => false,
    };
    if extract_origin_host(callback).is_none() || !local {
        Some(bare(400, "invalid CALLBACK header"))
    } else if held >= MAX_SUBSCRIPTIONS {
        Some(registered(None, 0))
    } else {
        None
    }
}

fn subscribe_ok(sid: &str, timeout: u64) -> (r: EventReply)
    ensures
        r@ == subscribed(sid@, timeout),
{
    let seconds = text::cat("Second-", text::number_text(timeout).as_str());
    let headers = vec![header_of("sid", text::owned(sid)), header_of("timeout", seconds)];
    assert(headers_view(headers@) =~= subscribed(sid@, timeout).headers);
    EventReply { status: 200, headers, body: "" }
}

/// The response once a refresh was tried.
pub fn refreshed(known: bool, sid: &str, timeout: u64) -> (r: EventReply)
    ensures
        r@ == (if known {
            subscribed(sid@, timeout)
        } else {
            bare_reply(412, "unknown SID"@)
        }),
{
    if known {
        subscribe_ok(sid, timeout)
    } else {
        bare(412, "unknown SID")
    }
}

/// The response once a subscription was tried. There is a limit to their number.
pub fn registered(sid: Option<&str>, timeout: u64) -> (r: EventReply)
    ensures
        r@ == (match sid {
            Some(s) => subscribed(s@, timeout),
            None => bare_reply(503, "subscription limit reached"@),
        }),
{
    match sid {
        Some(s) => subscribe_ok(s, timeout),
        None => bare(503, "subscription limit reached"),
    }
}

/// The response once ending a subscription was tried.
pub fn unsubscribed(known: bool) -> (r: EventReply)
    ensures
        r@ == (if known {
            bare_reply(200, ""@)
        } else {
            bare_reply(412, "unknown SID"@)
        }),
{
    if known {
        bare(200, "")
    } else {
        bare(412, "unknown SID")
    }
}

/// The values that a new subscriber is told first: the update id of the directory,
/// `1` where none can be read; nothing of the connection manager.
pub open spec fn initial_values(service: ServiceId, stored: Option<Seq<char>>) -> Seq<HeaderView> {
    match service {
        ServiceId::ContentDirectory => seq![
            HeaderView {
                name: "SystemUpdateID"@,
                value: decimal(
                    match stored_update_id(stored) {
                        Some(n) => n,
                        None => 1,
                    },
                ),
            },
        ],
        ServiceId::ConnectionManager => Seq::empty(),
    }
}

/// The names and values of the first notification to a subscriber. `stored` is the
/// update id as it is kept, where it could be had.
pub fn build_initial_propertyset(service: ServiceId, stored: &Option<String>) -> (r: Vec<Header>)
    ensures
        headers_view(r@) == initial_values(service, opt_text(*stored)),
{
    let mut out: Vec<Header> = Vec::new();
    if service == ServiceId::ContentDirectory {
        let id: u32 = match read_update_id(stored) {
            Some(n) => n,
            None => 1,
        };
        out.push(header_of("SystemUpdateID", text::number_text(id as u64)));
    }
    assert(headers_view(out@) =~= initial_values(service, opt_text(*stored)));
    out
}

// ── What subscribers get ─────────────────────────────────────────────────

/// The URL that is notified is the one between the first pair of brackets.
pub proof fn first_url_is_notified(
    raw: &str,
    before: Seq<char>,
    url: Seq<char>,
    after: Seq<char>,
    r: Option<String>,
)
    requires
        call_ensures(parse_first_callback, (raw,), r),
        raw@ == before + "<"@ + url + ">"@ + after,
        !before.contains('<'),
        !url.contains('>'),
    ensures
        url.len() > 0 ==> (r matches Some(found) && found@ == url),
        url.len() == 0 ==> r is None,
{
    reveal_strlit("<");
    reveal_strlit(">");
    let s = raw@;
    let n = before.len() as int;
    assert(s[n] == '<');
    assert forall|i: int| 0 <= i < n implies s[i] != '<' by {
        assert(before.contains(before[i]));
    }
    text::lemma_is_first_index(s, '<', n);
    let rest = s.skip(n + 1);
    assert(rest =~= url + ">"@ + after);
    let m = url.len() as int;
    assert(rest[m] == '>');
    assert forall|i: int| 0 <= i < m implies rest[i] != '>' by {
        assert(url.contains(url[i]));
    }
    text::lemma_is_first_index(rest, '>', m);
    assert(rest.take(m) =~= url);
}

/// A subscription lasts as many seconds as it asks for, but no less than a minute and no
/// more than an hour; one that does not ask for a number of seconds lasts half an hour.
pub proof fn timeouts_are_as_asked(raw: &str, n: nat, r: u64, none: u64)
    requires
        call_ensures(parse_timeout, (Some(raw),), r),
        call_ensures(parse_timeout, (None,), none),
        n <= u64::MAX,
    ensures
        none == 1800,
        raw@ == "Second-"@ + decimal(n) ==> r == (if n < 60 {
            60
        } else if n > 3600 {
            3600
        } else {
            n as int
        }),
        !starts_with(raw@, "Second-"@) ==> r == 1800,
{
    if raw@ == "Second-"@ + decimal(n) {
        let k = "Second-"@.len() as int;
        assert(raw@.take(k) =~= "Second-"@);
        assert(raw@.skip(k) =~= decimal(n));
        text::decimal_reads_back(n, u64::MAX as nat);
    }
}

/// A `SUBSCRIBE` with a `SID` prolongs that subscription and one without makes a new one
/// for its first URL, or is refused where it has none. An `UNSUBSCRIBE` ends the
/// subscription that it names, and is refused where it names none; any other method is.
pub proof fn requests_are_told_apart(req: &EventRequest, timeout: u64, r: EventAction)
    requires
        call_ensures(handle_event, (req,), r),
        call_ensures(parse_timeout, (req.timeout,), timeout),
    ensures
        req.method@ == "SUBSCRIBE"@ ==> match req.sid {
            Some(sid) => r@ == (EventActionView::Refresh { sid: sid@, timeout }),
            None => match req.callback {
                None => r@ matches EventActionView::Reply(reply) && reply.status == 400,
                Some(raw) => match first_callback(raw@) {
                    Some(callback) => r@ == (EventActionView::Register { callback, timeout }),
                    None => r@ matches EventActionView::Reply(reply) && reply.status == 400,
                },
            },
        },
        req.method@ == "UNSUBSCRIBE"@ ==> match req.sid {
            Some(sid) => r@ == (EventActionView::Unsubscribe { sid: sid@ }),
            None => r@ matches EventActionView::Reply(reply) && reply.status == 400,
        },
        req.method@ != "SUBSCRIBE"@ && req.method@ != "UNSUBSCRIBE"@ ==> (
        r@ matches EventActionView::Reply(reply) && reply.status == 405),
{
    reveal_strlit("SUBSCRIBE");
    reveal_strlit("UNSUBSCRIBE");
    assert("SUBSCRIBE"@.len() != "UNSUBSCRIBE"@.len());
}

/// Who subscribed, or prolonged a known subscription, is told its id and for how many
/// seconds it lasts. An unknown one is answered with 412, and one too many with 503.
pub proof fn subscribers_are_told_their_id(
    known: bool,
    sid: &str,
    timeout: u64,
    again: EventReply,
    new: EventReply,
    full: EventReply,
    ended: EventReply,
)
    requires
        call_ensures(refreshed, (known, sid, timeout), again),
        call_ensures(registered, (Some(sid), timeout), new),
        call_ensures(registered, (None, timeout), full),
        call_ensures(unsubscribed, (known,), ended),
    ensures
        new.status == 200,
        headers_view(new.headers@) == seq![
            HeaderView { name: "sid"@, value: sid@ },
            HeaderView { name: "timeout"@, value: "Second-"@ + decimal(timeout as nat) },
        ],
        known ==> again@ == new@,
        !known ==> again.status == 412,
        full.status == 503,
        known ==> ended.status == 200,
        !known ==> ended.status == 412,
{
}

/// A subscription is made only for an address of the local network, and only while there
/// are fewer than sixty-four.
pub proof fn subscriptions_are_limited(
    callback: &str,
    address: &Option<Address>,
    held: usize,
    r: Option<EventReply>,
)
    requires
        call_ensures(refuse, (callback, address, held), r),
    ensures
        r is None ==> held < 64 && (address matches Some(a) && a.is_local()),
        origin_host(callback@) is None || !(address matches Some(a) && a.is_local()) ==> (
        r matches Some(reply) && reply.status == 400),
        origin_host(callback@) is Some && (address matches Some(a) && a.is_local()) ==> (held >= 64
            ==> (r matches Some(reply) && reply.status == 503)),
        origin_host(callback@) is Some && (address matches Some(a) && a.is_local()) ==> (held < 64
            ==> r is None),
{
}

/// The first notification tells the update id as it is kept.
pub proof fn first_notification_tells_the_update_id(
    stored: &Option<String>,
    n: u32,
    cd: Vec<Header>,
    cm: Vec<Header>,
)
    requires
        call_ensures(build_initial_propertyset, (ServiceId::ContentDirectory, stored), cd),
        call_ensures(build_initial_propertyset, (ServiceId::ConnectionManager, stored), cm),
        opt_text(*stored) == Some(decimal(n as nat)),
    ensures
        headers_view(cd@) == seq![
            HeaderView { name: "SystemUpdateID"@, value: decimal(n as nat) },
        ],
        cm@.len() == 0,
{
    text::decimal_reads_back(n as nat, u32::MAX as nat);
    assert(headers_view(cm@).len() == cm@.len());
}

} // verus!
