//! What the HTTP side of the server decides.

use vstd::prelude::*;

use crate::text;

pub mod admin;
pub mod admin_config;
pub mod art;
pub mod gena;
pub mod soap_ctrl;
pub mod stream;

verus! {

/// A response header.
#[derive(Debug)]
pub struct Header {
    pub name: String,
    pub value: String,
}

/// A response header as text.
pub struct HeaderView {
    pub name: Seq<char>,
    pub value: Seq<char>,
}

impl View for Header {
    type V = HeaderView;

    open spec fn view(&self) -> HeaderView {
        HeaderView { name: self.name@, value: self.value@ }
    }
}

pub open spec fn headers_view(headers: Seq<Header>) -> Seq<HeaderView> {
    headers.map_values(|h: Header| h@)
}

pub fn header_of(name: &str, value: String) -> (r: Header)
    ensures
        r@ == (HeaderView { name: name@, value: value@ }),
{
    Header { name: text::owned(name), value }
}

/// How many requests are served at a time; further ones wait.
pub const MAX_CONCURRENT_REQUESTS: usize = 256;

/// The longest body of a control request, in bytes.
pub const MAX_SOAP_BODY_BYTES: usize = 65536;

/// A response of one line of text.
#[derive(Debug)]
pub struct TextReply {
    pub status: u16,
    pub body: &'static str,
}

/// Why a request is not answered as asked.
#[derive(Debug)]
pub enum HttpError {
    NotFound,
    Conflict(&'static str),
    /// The cause goes to the log, never to the client.
    Internal(String),
}

impl HttpError {
    pub open spec fn status(self) -> u16 {
        match self {
            HttpError::NotFound => 404,
            HttpError::Conflict(_) => 409,
            HttpError::Internal(_) => 500,
        }
    }

    pub open spec fn body(self) -> Seq<char> {
        match self {
            HttpError::NotFound => "not found"@,
            HttpError::Conflict(m) => m@,
            HttpError::Internal(_) => "internal error"@,
        }
    }

    /// How the client is told.
    pub fn reply(&self) -> (r: TextReply)
        ensures
            r.status == self.status(),
            r.body@ == self.body(),
    {
        match self {
            HttpError::NotFound => TextReply { status: 404, body: "not found" },
            HttpError::Conflict(m) => TextReply { status: 409, body: *m },
            HttpError::Internal(_) => TextReply { status: 500, body: "internal error" },
        }
    }
}

/// Two internal errors look the same to the client, whatever their causes.
pub proof fn internal_causes_stay_inside(a: String, b: String)
    ensures
        HttpError::Internal(a).status() == HttpError::Internal(b).status(),
        HttpError::Internal(a).body() == HttpError::Internal(b).body(),
{
}

// ── Which origins may administer ─────────────────────────────────────────

/// What follows the first `://`.
pub open spec fn after_scheme(s: Seq<char>) -> Option<Seq<char>>
    decreases s.len(),
{
    if s.len() < 3 {
        None
    } else if s[0] == ':' && s[1] == '/' && s[2] == '/' {
        Some(s.skip(3))
    } else {
        after_scheme(s.skip(1))
    }
}

/// Whether `c` ends the host of an origin.
pub open spec fn ends_host(c: char) -> bool {
    c == ':' || c == '/' || c == '?' || c == '#'
}

/// How many characters stand before the first that ends the host.
pub open spec fn host_len(s: Seq<char>) -> int
    decreases s.len(),
{
    if s.len() == 0 || ends_host(s[0]) {
        0
    } else {
        1 + host_len(s.skip(1))
    }
}

/// The host of an origin `scheme://host[:port]`.
pub open spec fn origin_host(origin: Seq<char>) -> Option<Seq<char>> {
    match after_scheme(origin) {
        None => None,
        Some(rest) => if host_len(rest) == 0 {
            None
        } else {
            Some(rest.take(host_len(rest)))
        },
    }
}

/// The host of an origin. A scheme is required; brackets around an address are not
/// understood.
pub fn extract_origin_host<'a>(origin: &'a str) -> (r: Option<&'a str>)
    ensures
        text::opt_str(r) == origin_host(origin@),
{
    let v = text::chars_of(origin);
    let mut i: usize = 0;
    assert(v@.skip(0) =~= v@);
    while v.len() - i >= 3 && !(v[i] == ':' && v[i + 1] == '/' && v[i + 2] == '/')
        invariant
            i <= v@.len(),
            after_scheme(v@.skip(i as int)) == after_scheme(v@),
        decreases v@.len() - i,
    {
        assert(v@.skip(i as int).skip(1) =~= v@.skip(i + 1));
        i = i + 1;
    }
    if v.len() - i < 3 {
        return None;
    }
    let from: usize = i + 3;
    let ghost rest = v@.skip(from as int);
    assert(v@.skip(i as int).skip(3) =~= rest);
    let mut end: usize = from;
    assert(rest.skip(0) =~= rest);
    while end < v.len() && !(v[end] == ':' || v[end] == '/' || v[end] == '?' || v[end] == '#')
        invariant
            from <= end <= v@.len(),
            rest == v@.skip(from as int),
            host_len(rest) == end - from + host_len(rest.skip(end - from)),
        decreases v@.len() - end,
    {
        assert(rest.skip(end - from)[0] == v@[end as int]);
        assert(rest.skip(end - from).skip(1) =~= rest.skip(end + 1 - from));
        end = end + 1;
    }
    assert(end < v@.len() ==> rest.skip(end - from)[0] == v@[end as int]);
    if end == from {
        None
    } else {
        let host = origin.substring_char(from, end);
        assert(host@ =~= rest.take(end - from));
        Some(host)
    }
}

/// An address that a host was read as.
#[derive(Debug)]
pub enum Address {
    /// Its four octets.
    V4(u8, u8, u8, u8),
    /// Its eight segments.
    V6(u16, u16, u16, u16, u16, u16, u16, u16),
}

impl Address {
    /// Whether the address is one of the local network: private, loopback or
    /// link-local.
    pub open spec fn is_local(self) -> bool {
        match self {
            Address::V4(a, b, _, _) => {
                ||| a == 10
                ||| a == 172 && 16 <= b <= 31
                ||| a == 192 && b == 168
                ||| a == 127
                ||| a == 169 && b == 254
            },
            Address::V6(a, b, c, d, e, f, g, h) => {
                ||| a == 0 && b == 0 && c == 0 && d == 0 && e == 0 && f == 0 && g == 0 && h == 1
                ||| 0xfc00 <= a <= 0xfdff
                ||| 0xfe80 <= a <= 0xfebf
            },
        }
    }

    pub fn local(&self) -> (r: bool)
        ensures
            r == self.is_local(),
    {
        match *self {
            Address::V4(a, b, _, _) => a == 10 || (a == 172 && 16 <= b && b <= 31) || (a == 192
                && b == 168) || a == 127 || (a == 169 && b == 254),
            Address::V6(a, b, c, d, e, f, g, h) => (a == 0 && b == 0 && c == 0 && d == 0 && e == 0
                && f == 0 && g == 0 && h == 1) || (0xfc00 <= a && a <= 0xfdff) || (0xfe80 <= a
                && a <= 0xfebf),
        }
    }
}

/// The `Origin` header of a request.
#[derive(Debug)]
pub enum Origin<'a> {
    Absent,
    /// Bytes that are not text.
    Unreadable,
    Stated(&'a str),
}

pub open spec fn refusal(message: Seq<char>) -> Option<(u16, Seq<char>)> {
    Some((403u16, message))
}

/// Why a request to an admin endpoint is refused, if it is. One without an origin is
/// let through, and so is one from the local network: an address there, or
/// `localhost`. `address` is the address that the origin's host was read as, where
/// it is one.
pub open spec fn guarded(origin: Origin, address: Option<Address>) -> Option<(u16, Seq<char>)> {
    match origin {
        Origin::Absent => None,
        Origin::Unreadable => refusal("invalid origin header"@),
        Origin::Stated(o) => match origin_host(o@) {
            None => refusal("unparseable origin"@),
            Some(host) => {
                let local = match address {
                    Some(a) => a.is_local(),
                    None => text::lowered(host) == text::lowered("localhost"@),
                };
                if local {
                    None
                } else {
                    refusal("admin endpoints restricted to LAN origins"@)
                }
            },
        },
    }
}

pub open spec fn reply_view(r: Option<TextReply>) -> Option<(u16, Seq<char>)> {
    match r {
        Some(t) => Some((t.status, t.body@)),
        None => None,
    }
}

/// Decide on a request to an admin endpoint: let it through, or the refusal.
pub fn admin_csrf_guard(origin: &Origin, address: &Option<Address>) -> (r: Option<TextReply>)
    ensures
        reply_view(r) == guarded(*origin, *address),
{
    match origin {
        Origin::Absent => None,
        Origin::Unreadable => Some(TextReply { status: 403, body: "invalid origin header" }),
        Origin::Stated(o) => match extract_origin_host(o) {
            None => Some(TextReply { status: 403, body: "unparseable origin" }),
            Some(host) => {
                let local = match address {
                    Some(a) => a.local(),
                    None => text::same_ignoring_case(host, "localhost"),
                };
                if local {
                    None
                } else {
                    Some(
                        TextReply {
                            status: 403,
                            body: "admin endpoints restricted to LAN origins",
                        },
                    )
                }
            },
        },
    }
}

/// Requests to the admin endpoints come from the local network or from no page at all: a
/// private, loopback or link-local address, or this machine by its name. Any other origin
/// is refused.
pub proof fn only_local_pages_administer(
    origin: &Origin,
    address: &Option<Address>,
    r: Option<TextReply>,
)
    requires
        call_ensures(admin_csrf_guard, (origin, address), r),
    ensures
        origin is Absent ==> r is None,
        origin is Unreadable ==> r is Some,
        r matches Some(reply) ==> reply.status == 403,
        origin matches Origin::Stated(o) ==> {
            &&& origin_host(o@) is None ==> r is Some
            &&& origin_host(o@) matches Some(host) ==> {
                &&& address is None && host == "localhost"@ ==> r is None
                &&& address is None && host.len() != 9 ==> r is Some
                &&& *address matches Some(Address::V4(a, b, _, _)) ==> (r is None <==> a == 10 || a
                    == 127 || (a == 172 && 16 <= b < 32) || (a == 192 && b == 168) || (a == 169 && b
                    == 254))
            }
        },
{
    reveal_strlit("localhost");
    assert("localhost"@.len() == 9);
    if let Origin::Stated(o) = origin {
        if let Some(host) = origin_host(o@) {
            assert(text::lowered(host).len() == host.len());
            assert(text::lowered("localhost"@).len() == 9);
        }
    }
}

proof fn lemma_host(host: Seq<char>, rest: Seq<char>)
    requires
        forall|i: int| 0 <= i < host.len() ==> !ends_host(#[trigger] host[i]),
        rest.len() > 0 ==> ends_host(rest[0]),
    ensures
        host_len(host + rest) == host.len(),
    decreases host.len(),
{
    let s = host + rest;
    if host.len() > 0 {
        let t = host.skip(1);
        assert(s.skip(1) =~= t + rest);
        assert(!ends_host(host[0]));
        assert forall|i: int| 0 <= i < t.len() implies !ends_host(#[trigger] t[i]) by {
            assert(t[i] == host[i + 1]);
        }
        lemma_host(t, rest);
    } else if rest.len() > 0 {
        assert(s[0] == rest[0]);
    }
}

/// The host of an origin stands behind its scheme and before its port or path.
pub proof fn hosts_stand_between_scheme_and_port(
    origin: &str,
    host: Seq<char>,
    rest: Seq<char>,
    r: Option<&str>,
)
    requires
        call_ensures(extract_origin_host, (origin,), r),
        origin@ == "http://"@ + host + rest || origin@ == "https://"@ + host + rest,
        forall|i: int| 0 <= i < host.len() ==> !ends_host(#[trigger] host[i]),
        rest.len() > 0 ==> ends_host(rest[0]),
    ensures
        host.len() > 0 ==> (r matches Some(h) && h@ == host),
        host.len() == 0 ==> r is None,
{
    reveal_strlit("http://");
    reveal_strlit("https://");
    reveal_with_fuel(after_scheme, 7);
    let s = origin@;
    lemma_host(host, rest);
    assert((host + rest).take(host.len() as int) =~= host);
    if s == "http://"@ + host + rest {
        assert(s.skip(1).skip(1).skip(1).skip(1).skip(3) =~= host + rest);
        assert(after_scheme(s) == Some(host + rest));
    } else {
        assert(s.skip(1).skip(1).skip(1).skip(1).skip(1).skip(3) =~= host + rest);
        assert(after_scheme(s) == Some(host + rest));
    }
}

} // verus!
