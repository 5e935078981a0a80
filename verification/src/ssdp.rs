//! Discovery: which searches are heard, what is answered and what is announced.

use rand::Rng;
use vstd::prelude::*;
use vstd::utf8::{decode_utf8, valid_utf8};

use crate::text::{
    self, decimal, ends_with, first_index, has_line, joined, lines, parsed_number, starts_with,
    texts, trimmed, uppered,
};
use crate::upnp::usn::NtTarget;

verus! {

/// For how many seconds an announcement holds.
pub const MAX_AGE: u32 = 1800;

/// After how many seconds the announcements are repeated.
pub const REANNOUNCE_INTERVAL_SECS: u64 = 900;

/// The longest delay of an answer, in seconds. More can be asked for, and is not
/// granted: it would hold a task for as long.
pub const MX_CAP_SECS: u8 = 5;

// ── Searches ─────────────────────────────────────────────────────────────

/// A search: for what, and within how many seconds it wants its answer.
#[derive(Debug)]
pub struct MSearch {
    pub st: String,
    /// At most `MX_CAP_SECS`.
    pub mx: u8,
}

/// A search as text.
pub struct MSearchView {
    pub st: Seq<char>,
    pub mx: u8,
}

pub open spec fn msearch_view(m: Option<MSearch>) -> Option<MSearchView> {
    match m {
        Some(s) => Some(MSearchView { st: s.st@, mx: s.mx }),
        None => None,
    }
}

/// The name, in capitals, and the value of a header line.
pub open spec fn header_line(line: Seq<char>) -> Option<(Seq<char>, Seq<char>)> {
    if line.contains(':') {
        let i = first_index(line, ':');
        Some((uppered(trimmed(line.take(i))), trimmed(line.skip(i + 1))))
    } else {
        None
    }
}

/// The value of the last header line with the given name.
pub open spec fn last_header(headers: Seq<Seq<char>>, name: Seq<char>) -> Option<Seq<char>>
    decreases headers.len(),
{
    if headers.len() == 0 {
        None
    } else {
        match header_line(headers.last()) {
            Some(h) => if h.0 == name {
                Some(h.1)
            } else {
                last_header(headers.drop_last(), name)
            },
            None => last_header(headers.drop_last(), name),
        }
    }
}

/// The delay that an `MX` value stands for: none where it cannot be read, and never
/// more than the longest.
pub open spec fn delay_of(mx: Option<Seq<char>>) -> u8 {
    match mx {
        None => 0,
        Some(s) => match parsed_number(s, u8::MAX as nat) {
            None => 0,
            Some(n) => if n <= MX_CAP_SECS {
                n as u8
            } else {
                MX_CAP_SECS
            },
        },
    }
}

/// The search that a text states, where it states one.
pub open spec fn stated_search(s: Seq<char>) -> Option<MSearchView> {
    let all = lines(s);
    if all.len() == 0 || !starts_with(all[0], "M-SEARCH"@) {
        None
    } else {
        let headers = all.skip(1);
        match last_header(headers, "ST"@) {
            None => None,
            Some(st) => Some(MSearchView { st, mx: delay_of(last_header(headers, "MX"@)) }),
        }
    }
}

/// `str::from_utf8`: the text that the bytes encode, where they are well-formed
/// UTF-8.
#[verifier::external_body]
fn utf8_text(data: &[u8]) -> (r: Option<&str>)
    ensures
        r is Some == valid_utf8(data@),
        r matches Some(s) ==> s@ == decode_utf8(data@),
{
    std::str::from_utf8(data).ok()
}

fn parse_delay(s: &str) -> (r: u8)
    ensures
        r == delay_of(Some(s@)),
{
    match text::parse_number(s, 255) {
        None => 0,
        Some(n) => if n <= 5 { n as u8 } else { MX_CAP_SECS },
    }
}

/// Read a search out of its text.
pub fn parse_search_text(s: &str) -> (r: Option<MSearch>)
    ensures
        msearch_view(r) == stated_search(s@),
{
    let all = text::split_lines(s);
    assert(texts(all@).len() == all@.len());
    if all.len() == 0 {
        return None;
    }
    assert(texts(all@)[0] == all@[0]@);
    if text::strip_prefix(all[0].as_str(), "M-SEARCH").is_none() {
        return None;
    }
    let ghost headers = texts(all@).skip(1);
    let mut st: Option<String> = None;
    let mut mx: u8 = 0;
    let mut i: usize = 1;
    assert(headers.take(0).len() == 0);
    while i < all.len()
        invariant
            1 <= i <= all@.len(),
            headers == texts(all@).skip(1),
            headers.len() == all@.len() - 1,
            text::opt_text(st) == last_header(headers.take(i - 1), "ST"@),
            mx == delay_of(last_header(headers.take(i - 1), "MX"@)),
        decreases all@.len() - i,
    {
        let line = all[i].as_str();
        assert(headers[i - 1] == line@);
        assert(headers.take(i as int).drop_last() =~= headers.take(i - 1));
        assert(headers.take(i as int).last() == line@);
        match text::split_at_char(line, ':') {
            None => {},
            Some((name, value)) => {
                let key = text::to_upper(text::trim(name));
                let val = text::trim(value);
                proof {
                    reveal_strlit("ST");
                    reveal_strlit("MX");
                    assert("ST"@[0] != "MX"@[0]);
                }
                if text::same(key.as_str(), "ST") {
                    st = Some(text::owned(val));
                } else if text::same(key.as_str(), "MX") {
                    mx = parse_delay(val);
                }
            },
        }
        i = i + 1;
    }
    assert(headers.take(i - 1) =~= headers);
    match st {
        None => None,
        Some(st) => Some(MSearch { st, mx }),
    }
}

/// Read a search packet. One without a target, and one that is not text, is none.
pub fn parse_msearch(data: &[u8]) -> (r: Option<MSearch>)
    ensures
        valid_utf8(data@) ==> msearch_view(r) == stated_search(decode_utf8(data@)),
        !valid_utf8(data@) ==> r is None,
{
    match utf8_text(data) {
        None => None,
        Some(s) => parse_search_text(s),
    }
}

/// No search waits longer for its answer than the longest delay.
pub proof fn delay_is_capped(s: Seq<char>)
    ensures
        stated_search(s) matches Some(m) ==> m.mx <= MX_CAP_SECS,
{
}

/// `rand::Rng::gen_range` with the thread's generator, on `0..=max`: any number of
/// that range.
#[verifier::external_body]
fn random_up_to(max: u64) -> (r: u64)
    ensures
        r <= max,
{
    rand::thread_rng().gen_range(0..=max)
}

/// The longest wait before an answer, in milliseconds; none where the search asks for
/// an answer at once.
pub open spec fn delay_limit(m: MSearch) -> Option<u64> {
    if m.mx == 0 {
        None
    } else {
        Some((m.mx * 1000) as u64)
    }
}

/// The limit up to which a wait is drawn, in milliseconds. Where there is none, nothing
/// is drawn.
pub fn delay_limit_ms(m: &MSearch) -> (r: Option<u64>)
    ensures
        r == delay_limit(*m),
{
    if m.mx == 0 {
        None
    } else {
        Some(m.mx as u64 * 1000)
    }
}

/// How many milliseconds to wait before answering: a random time within what the
/// search allows, so that many servers do not answer at once. Which time of that range
/// it is, chance decides.
pub fn response_delay_ms(m: &MSearch) -> (r: u64)
    ensures
        match delay_limit(*m) {
            None => r == 0,
            Some(limit) => r <= limit,
        },
{
    match delay_limit_ms(m) {
        None => 0,
        Some(limit) => random_up_to(limit),
    }
}

// ── Messages ─────────────────────────────────────────────────────────────

/// The device as it is announced.
#[derive(Debug)]
pub struct Device {
    pub uuid: String,
    pub local_ip: String,
    pub http_port: u16,
}

impl Device {
    /// Where the device's description can be fetched.
    pub open spec fn location(self) -> Seq<char> {
        "http://"@ + self.local_ip@ + ":"@ + decimal(self.http_port as nat) + "/description.xml"@
    }

    pub fn location_text(&self) -> (r: String)
        ensures
            r@ == self.location(),
    {
        let host = text::cat3("http://", self.local_ip.as_str(), ":");
        let port = text::number_text(self.http_port as u64);
        text::cat3(host.as_str(), port.as_str(), "/description.xml")
    }
}

/// A message: its lines, each ended by a carriage return and a line feed, and an
/// empty line.
pub open spec fn message(head: Seq<Seq<char>>) -> Seq<char> {
    joined(head + seq![""@, ""@], "\r\n"@)
}

pub open spec fn cache_control() -> Seq<char> {
    "CACHE-CONTROL: max-age="@ + decimal(MAX_AGE as nat)
}

pub open spec fn response_text(target: NtTarget, device: Device) -> Seq<char> {
    message(
        seq![
            "HTTP/1.1 200 OK"@,
            cache_control(),
            "EXT:"@,
            "LOCATION: "@ + device.location(),
            "SERVER: revolver/0.1.0 UPnP/1.0"@,
            "ST: "@ + target.nt_text(device.uuid@),
            "USN: "@ + target.usn_text(device.uuid@),
        ],
    )
}

pub open spec fn alive_text(target: NtTarget, device: Device) -> Seq<char> {
    message(
        seq![
            "NOTIFY * HTTP/1.1"@,
            "HOST: 239.255.255.250:1900"@,
            cache_control(),
            "LOCATION: "@ + device.location(),
            "NT: "@ + target.nt_text(device.uuid@),
            "NTS: ssdp:alive"@,
            "SERVER: revolver/0.1.0 UPnP/1.0"@,
            "USN: "@ + target.usn_text(device.uuid@),
        ],
    )
}

pub open spec fn byebye_text(target: NtTarget, device: Device) -> Seq<char> {
    message(
        seq![
            "NOTIFY * HTTP/1.1"@,
            "HOST: 239.255.255.250:1900"@,
            "NT: "@ + target.nt_text(device.uuid@),
            "NTS: ssdp:byebye"@,
            "USN: "@ + target.usn_text(device.uuid@),
        ],
    )
}

fn message_of(head: Vec<String>) -> (r: String)
    ensures
        r@ == message(texts(head@)),
{
    let ghost before = head@;
    let mut all = head;
    all.push(text::owned(""));
    all.push(text::owned(""));
    assert(texts(all@) =~= texts(before) + seq![""@, ""@]);
    text::join(&all, "\r\n")
}

fn cache_control_line() -> (r: String)
    ensures
        r@ == cache_control(),
{
    text::cat("CACHE-CONTROL: max-age=", text::number_text(MAX_AGE as u64).as_str())
}

/// The answer to a search.
pub fn format_msearch_response(target: NtTarget, device: &Device) -> (r: String)
    ensures
        r@ == response_text(target, *device),
{
    let head = vec![
        text::owned("HTTP/1.1 200 OK"),
        cache_control_line(),
        text::owned("EXT:"),
        text::cat("LOCATION: ", device.location_text().as_str()),
        text::owned("SERVER: revolver/0.1.0 UPnP/1.0"),
        text::cat("ST: ", target.nt(device.uuid.as_str()).as_str()),
        text::cat("USN: ", target.usn(device.uuid.as_str()).as_str()),
    ];
    assert(texts(head@) =~= seq![
        "HTTP/1.1 200 OK"@,
        cache_control(),
        "EXT:"@,
        "LOCATION: "@ + device.location(),
        "SERVER: revolver/0.1.0 UPnP/1.0"@,
        "ST: "@ + target.nt_text(device.uuid@),
        "USN: "@ + target.usn_text(device.uuid@),
    ]);
    message_of(head)
}

/// The announcement that the target is there.
pub fn format_alive_notify(target: NtTarget, device: &Device) -> (r: String)
    ensures
        r@ == alive_text(target, *device),
{
    let head = vec![
        text::owned("NOTIFY * HTTP/1.1"),
        text::owned("HOST: 239.255.255.250:1900"),
        cache_control_line(),
        text::cat("LOCATION: ", device.location_text().as_str()),
        text::cat("NT: ", target.nt(device.uuid.as_str()).as_str()),
        text::owned("NTS: ssdp:alive"),
        text::owned("SERVER: revolver/0.1.0 UPnP/1.0"),
        text::cat("USN: ", target.usn(device.uuid.as_str()).as_str()),
    ];
    assert(texts(head@) =~= seq![
        "NOTIFY * HTTP/1.1"@,
        "HOST: 239.255.255.250:1900"@,
        cache_control(),
        "LOCATION: "@ + device.location(),
        "NT: "@ + target.nt_text(device.uuid@),
        "NTS: ssdp:alive"@,
        "SERVER: revolver/0.1.0 UPnP/1.0"@,
        "USN: "@ + target.usn_text(device.uuid@),
    ]);
    message_of(head)
}

/// The announcement that the target is going.
pub fn format_byebye_notify(target: NtTarget, device: &Device) -> (r: String)
    ensures
        r@ == byebye_text(target, *device),
{
    let head = vec![
        text::owned("NOTIFY * HTTP/1.1"),
        text::owned("HOST: 239.255.255.250:1900"),
        text::cat("NT: ", target.nt(device.uuid.as_str()).as_str()),
        text::owned("NTS: ssdp:byebye"),
        text::cat("USN: ", target.usn(device.uuid.as_str()).as_str()),
    ];
    assert(texts(head@) =~= seq![
        "NOTIFY * HTTP/1.1"@,
        "HOST: 239.255.255.250:1900"@,
        "NT: "@ + target.nt_text(device.uuid@),
        "NTS: ssdp:byebye"@,
        "USN: "@ + target.usn_text(device.uuid@),
    ]);
    message_of(head)
}

/// The answers to a search for `st`: one for each of the targets that it asks for.
pub open spec fn responses(targets: Seq<NtTarget>, st: Seq<char>, device: Device) -> Seq<Seq<char>>
    decreases targets.len(),
{
    if targets.len() == 0 {
        Seq::empty()
    } else {
        let before = responses(targets.drop_last(), st, device);
        if targets.last().answers_to(st, device.uuid@) {
            before.push(response_text(targets.last(), device))
        } else {
            before
        }
    }
}

/// What is sent in answer to a search.
pub fn respond_msearch(m: &MSearch, device: &Device) -> (r: Vec<String>)
    ensures
        texts(r@) == responses(NtTarget::every(), m.st@, *device),
{
    let targets = NtTarget::all();
    let mut out: Vec<String> = Vec::new();
    let mut i: usize = 0;
    assert(texts(out@) =~= responses(targets@.take(0), m.st@, *device));
    while i < targets.len()
        invariant
            i <= targets.len(),
            texts(out@) == responses(targets@.take(i as int), m.st@, *device),
        decreases targets.len() - i,
    {
        assert(targets@.take(i + 1).drop_last() =~= targets@.take(i as int));
        let ghost before = out@;
        if targets[i].matches_st(m.st.as_str(), device.uuid.as_str()) {
            let response = format_msearch_response(targets[i], device);
            out.push(response);
            proof {
                text::lemma_texts_push(before, response);
            }
        }
        i = i + 1;
    }
    assert(targets@.take(i as int) =~= targets@);
    out
}

// ── What the messages say ────────────────────────────────────────────────

/// The names under which a device is known, in the order in which they are announced.
pub open spec fn names_of(uuid: Seq<char>) -> Seq<Seq<char>> {
    seq![
        "upnp:rootdevice"@,
        "uuid:"@ + uuid,
        "urn:schemas-upnp-org:device:MediaServer:1"@,
        "urn:schemas-upnp-org:service:ContentDirectory:1"@,
        "urn:schemas-upnp-org:service:ConnectionManager:1"@,
    ]
}

/// The device's id before a name, or alone where it is the name.
pub open spec fn unique_name(uuid: Seq<char>, name: Seq<char>) -> Seq<char> {
    if name == "uuid:"@ + uuid {
        name
    } else {
        "uuid:"@ + uuid + "::"@ + name
    }
}

/// Whether a message answers a search for the name.
pub open spec fn answers_for(message: Seq<char>, name: Seq<char>, device: Device) -> bool {
    &&& starts_with(message, "HTTP/1.1 200 OK\r\n"@)
    &&& has_line(message, "CACHE-CONTROL: max-age=1800"@)
    &&& has_line(message, "EXT:"@)
    &&& has_line(
        message,
        "LOCATION: http://"@ + device.local_ip@ + ":"@ + decimal(device.http_port as nat)
            + "/description.xml"@,
    )
    &&& has_line(message, "ST: "@ + name)
    &&& has_line(message, "USN: "@ + unique_name(device.uuid@, name))
    &&& ends_with(message, "\r\n\r\n"@)
}

/// Whether a message tells that what goes by the name is there.
pub open spec fn announces(message: Seq<char>, name: Seq<char>, device: Device) -> bool {
    &&& starts_with(message, "NOTIFY * HTTP/1.1\r\n"@)
    &&& has_line(message, "HOST: 239.255.255.250:1900"@)
    &&& has_line(message, "CACHE-CONTROL: max-age=1800"@)
    &&& has_line(
        message,
        "LOCATION: http://"@ + device.local_ip@ + ":"@ + decimal(device.http_port as nat)
            + "/description.xml"@,
    )
    &&& has_line(message, "NT: "@ + name)
    &&& has_line(message, "NTS: ssdp:alive"@)
    &&& has_line(message, "USN: "@ + unique_name(device.uuid@, name))
    &&& ends_with(message, "\r\n\r\n"@)
}

/// Whether a message tells that what goes by the name is going.
pub open spec fn takes_leave(message: Seq<char>, name: Seq<char>, device: Device) -> bool {
    &&& starts_with(message, "NOTIFY * HTTP/1.1\r\n"@)
    &&& has_line(message, "HOST: 239.255.255.250:1900"@)
    &&& has_line(message, "NT: "@ + name)
    &&& has_line(message, "NTS: ssdp:byebye"@)
    &&& has_line(message, "USN: "@ + unique_name(device.uuid@, name))
    &&& ends_with(message, "\r\n\r\n"@)
}

proof fn lemma_message(head: Seq<Seq<char>>)
    requires
        head.len() > 0,
    ensures
        starts_with(message(head), head[0] + "\r\n"@),
        forall|k: int| 0 < k < head.len() ==> has_line(message(head), #[trigger] head[k]),
        ends_with(message(head), "\r\n\r\n"@),
{
    let all = head + seq![""@, ""@];
    let sep = "\r\n"@;
    reveal_strlit("");
    reveal_strlit("\r\n");
    reveal_strlit("\r\n\r\n");
    assert forall|k: int| 0 < k < head.len() implies has_line(message(head), #[trigger] head[k]) by {
        text::lemma_joined_part(all, sep, k);
        assert(all[k] == head[k]);
    }
    lemma_joined_begins(all, sep);
    assert(all[0] == head[0]);
    let front = all.drop_last();
    let rest = joined(front.drop_last(), sep);
    assert(front.last() == ""@ && all.last() == ""@);
    assert(joined(front, sep) =~= rest + sep);
    assert(message(head) =~= rest + sep + sep);
    assert(sep + sep =~= "\r\n\r\n"@);
    let m = message(head);
    assert(m.skip(m.len() - 4) =~= "\r\n\r\n"@);
}

proof fn lemma_joined_begins(parts: Seq<Seq<char>>, sep: Seq<char>)
    requires
        parts.len() > 1,
    ensures
        starts_with(joined(parts, sep), parts[0] + sep),
    decreases parts.len(),
{
    let front = parts.drop_last();
    let p = parts[0] + sep;
    let s = joined(parts, sep);
    if front.len() > 1 {
        lemma_joined_begins(front, sep);
        assert(s.take(p.len() as int) =~= joined(front, sep).take(p.len() as int));
    } else {
        assert(joined(front, sep) == parts[0]);
        assert(s =~= p + parts.last());
        assert(s.take(p.len() as int) =~= p);
    }
}

proof fn lemma_names()
    ensures
        ""@.len() == 0,
        forall|uuid: Seq<char>, i: int, j: int|
            0 <= i < j < 5 ==> #[trigger] names_of(uuid)[i] != #[trigger] names_of(uuid)[j],
        forall|uuid: Seq<char>, i: int|
            0 <= i < 5 ==> #[trigger] names_of(uuid)[i] != "ssdp:all"@,
{
    reveal_strlit("");
    reveal_strlit("uuid:");
    reveal_strlit("ssdp:all");
    reveal_strlit("upnp:rootdevice");
    reveal_strlit("urn:schemas-upnp-org:device:MediaServer:1");
    reveal_strlit("urn:schemas-upnp-org:service:ContentDirectory:1");
    reveal_strlit("urn:schemas-upnp-org:service:ConnectionManager:1");
    assert forall|uuid: Seq<char>, i: int, j: int| 0 <= i < j < 5 implies #[trigger] names_of(
        uuid,
    )[i] != #[trigger] names_of(uuid)[j] by {
        let u = names_of(uuid)[1];
        assert(u[1] == 'u' && u[0] == 'u');
        let a = names_of(uuid)[i];
        let b = names_of(uuid)[j];
        assert(a[0] == 'u' && b[0] == 'u');
        assert(names_of(uuid)[2].len() == 41);
        assert(names_of(uuid)[3][32] == 't');
        assert(a[1] != b[1] || a.len() != b.len() || a[32] != b[32]);
    }
    assert forall|uuid: Seq<char>, i: int| 0 <= i < 5 implies #[trigger] names_of(uuid)[i]
        != "ssdp:all"@ by {
        assert(names_of(uuid)[i][0] == 'u');
        assert("ssdp:all"@[0] == 's');
    }
}

/// A message of each kind speaks of the target that it is made for: the answer, the
/// announcement and the farewell of a target go by one name, and tell where the device
/// is to be found.
pub proof fn messages_name_their_target(
    target: NtTarget,
    device: &Device,
    response: String,
    alive: String,
    byebye: String,
)
    requires
        call_ensures(format_msearch_response, (target, device), response),
        call_ensures(format_alive_notify, (target, device), alive),
        call_ensures(format_byebye_notify, (target, device), byebye),
    ensures
        ({
            let name = match target {
                NtTarget::RootDevice => "upnp:rootdevice"@,
                NtTarget::Uuid => "uuid:"@ + device.uuid@,
                NtTarget::MediaServer => "urn:schemas-upnp-org:device:MediaServer:1"@,
                NtTarget::ContentDirectory => "urn:schemas-upnp-org:service:ContentDirectory:1"@,
                NtTarget::ConnectionManager => "urn:schemas-upnp-org:service:ConnectionManager:1"@,
            };
            &&& answers_for(response@, name, *device)
            &&& announces(alive@, name, *device)
            &&& takes_leave(byebye@, name, *device)
        }),
{
    lemma_names();
    lemma_response(target, *device);
    lemma_announcement(target, *device);
    lemma_farewell(target, *device);
}

/// The name of a target.
proof fn lemma_name(target: NtTarget, device: Device) -> (i: int)
    ensures
        0 <= i < 5,
        NtTarget::every()[i] == target,
        target.nt_text(device.uuid@) == names_of(device.uuid@)[i],
        target.usn_text(device.uuid@) == unique_name(device.uuid@, names_of(device.uuid@)[i]),
{
    lemma_names();
    let names = names_of(device.uuid@);
    let i: int = match target {
        NtTarget::RootDevice => 0,
        NtTarget::Uuid => 1,
        NtTarget::MediaServer => 2,
        NtTarget::ContentDirectory => 3,
        NtTarget::ConnectionManager => 4,
    };
    assert(target.nt_text(device.uuid@) == names[i]);
    assert(i != 1 ==> names[i] != names[1]);
    i
}

proof fn lemma_location(device: Device)
    ensures
        "LOCATION: "@ + device.location() == "LOCATION: http://"@ + device.local_ip@ + ":"@ + decimal(
            device.http_port as nat,
        ) + "/description.xml"@,
        cache_control() == "CACHE-CONTROL: max-age=1800"@,
{
    reveal_strlit("LOCATION: ");
    reveal_strlit("LOCATION: http://");
    reveal_strlit("http://");
    assert("LOCATION: "@ + "http://"@ =~= "LOCATION: http://"@);
    assert("LOCATION: "@ + device.location() =~= "LOCATION: http://"@ + device.local_ip@ + ":"@
        + decimal(device.http_port as nat) + "/description.xml"@);
    reveal_strlit("CACHE-CONTROL: max-age=");
    reveal_strlit("CACHE-CONTROL: max-age=1800");
    reveal_with_fuel(decimal, 5);
    assert(decimal(1800) =~= seq!['1', '8', '0', '0']);
    assert(cache_control() =~= "CACHE-CONTROL: max-age=1800"@);
}

proof fn lemma_response(target: NtTarget, device: Device)
    ensures
        exists|i: int|
            0 <= i < 5 && NtTarget::every()[i] == target && answers_for(
                response_text(target, device),
                #[trigger] names_of(device.uuid@)[i],
                device,
            ),
{
    let i = lemma_name(target, device);
    lemma_location(device);
    let head = seq![
        "HTTP/1.1 200 OK"@,
        cache_control(),
        "EXT:"@,
        "LOCATION: "@ + device.location(),
        "SERVER: revolver/0.1.0 UPnP/1.0"@,
        "ST: "@ + target.nt_text(device.uuid@),
        "USN: "@ + target.usn_text(device.uuid@),
    ];
    lemma_message(head);
    assert(head[0] + "\r\n"@ =~= "HTTP/1.1 200 OK\r\n"@) by {
        reveal_strlit("HTTP/1.1 200 OK");
        reveal_strlit("HTTP/1.1 200 OK\r\n");
        reveal_strlit("\r\n");
    }
    assert(head[1] == "CACHE-CONTROL: max-age=1800"@ && head[2] == "EXT:"@);
    assert(head[3] == "LOCATION: "@ + device.location());
    assert(head[5] == "ST: "@ + names_of(device.uuid@)[i]);
    assert(head[6] == "USN: "@ + unique_name(device.uuid@, names_of(device.uuid@)[i]));
    assert(answers_for(response_text(target, device), names_of(device.uuid@)[i], device));
}

proof fn lemma_announcement(target: NtTarget, device: Device)
    ensures
        exists|i: int|
            0 <= i < 5 && NtTarget::every()[i] == target && announces(
                alive_text(target, device),
                #[trigger] names_of(device.uuid@)[i],
                device,
            ),
{
    let i = lemma_name(target, device);
    lemma_location(device);
    let head = seq![
        "NOTIFY * HTTP/1.1"@,
        "HOST: 239.255.255.250:1900"@,
        cache_control(),
        "LOCATION: "@ + device.location(),
        "NT: "@ + target.nt_text(device.uuid@),
        "NTS: ssdp:alive"@,
        "SERVER: revolver/0.1.0 UPnP/1.0"@,
        "USN: "@ + target.usn_text(device.uuid@),
    ];
    lemma_message(head);
    lemma_notify_line();
    assert(head[1] == "HOST: 239.255.255.250:1900"@ && head[5] == "NTS: ssdp:alive"@);
    assert(head[2] == "CACHE-CONTROL: max-age=1800"@);
    assert(head[3] == "LOCATION: "@ + device.location());
    assert(head[4] == "NT: "@ + names_of(device.uuid@)[i]);
    assert(head[7] == "USN: "@ + unique_name(device.uuid@, names_of(device.uuid@)[i]));
    assert(announces(alive_text(target, device), names_of(device.uuid@)[i], device));
}

proof fn lemma_farewell(target: NtTarget, device: Device)
    ensures
        exists|i: int|
            0 <= i < 5 && NtTarget::every()[i] == target && takes_leave(
                byebye_text(target, device),
                #[trigger] names_of(device.uuid@)[i],
                device,
            ),
{
    let i = lemma_name(target, device);
    let head = seq![
        "NOTIFY * HTTP/1.1"@,
        "HOST: 239.255.255.250:1900"@,
        "NT: "@ + target.nt_text(device.uuid@),
        "NTS: ssdp:byebye"@,
        "USN: "@ + target.usn_text(device.uuid@),
    ];
    lemma_message(head);
    lemma_notify_line();
    assert(head[1] == "HOST: 239.255.255.250:1900"@ && head[3] == "NTS: ssdp:byebye"@);
    assert(head[2] == "NT: "@ + names_of(device.uuid@)[i]);
    assert(head[4] == "USN: "@ + unique_name(device.uuid@, names_of(device.uuid@)[i]));
    assert(takes_leave(byebye_text(target, device), names_of(device.uuid@)[i], device));
}

proof fn lemma_notify_line()
    ensures
        "NOTIFY * HTTP/1.1"@ + "\r\n"@ == "NOTIFY * HTTP/1.1\r\n"@,
{
    reveal_strlit("NOTIFY * HTTP/1.1");
    reveal_strlit("NOTIFY * HTTP/1.1\r\n");
    reveal_strlit("\r\n");
    assert("NOTIFY * HTTP/1.1"@ + "\r\n"@ =~= "NOTIFY * HTTP/1.1\r\n"@);
}

proof fn lemma_responses(st: Seq<char>, device: Device)
    ensures
        ({
            let names = names_of(device.uuid@);
            let r = responses(NtTarget::every(), st, device);
            &&& st == "ssdp:all"@ ==> r.len() == 5 && forall|i: int|
                0 <= i < 5 ==> answers_for(#[trigger] r[i], names[i], device)
            &&& st != "ssdp:all"@ && names.contains(st) ==> r.len() == 1 && answers_for(
                r[0],
                st,
                device,
            )
            &&& st != "ssdp:all"@ && !names.contains(st) ==> r.len() == 0
        }),
{
    let names = names_of(device.uuid@);
    let all = NtTarget::every();
    let t0 = all.take(0);
    let t1 = all.take(1);
    let t2 = all.take(2);
    let t3 = all.take(3);
    let t4 = all.take(4);
    assert(all.drop_last() =~= t4 && t4.drop_last() =~= t3 && t3.drop_last() =~= t2
        && t2.drop_last() =~= t1 && t1.drop_last() =~= t0);
    assert(t1.last() == all[0] && t2.last() == all[1] && t3.last() == all[2] && t4.last()
        == all[3] && all.last() == all[4]);
    reveal_with_fuel(responses, 6);
    assert(responses(t0, st, device) =~= Seq::empty());
    lemma_names();
    assert forall|i: int| 0 <= i < 5 implies answers_for(
        response_text(#[trigger] all[i], device),
        names[i],
        device,
    ) && all[i].nt_text(device.uuid@) == names[i] by {
        lemma_response(all[i], device);
        let j = lemma_name(all[i], device);
        assert(i == j);
    }
    assert(all[0].nt_text(device.uuid@) == names[0] && all[1].nt_text(device.uuid@) == names[1]
        && all[2].nt_text(device.uuid@) == names[2] && all[3].nt_text(device.uuid@) == names[3]
        && all[4].nt_text(device.uuid@) == names[4]);
    let r = responses(all, st, device);
    if st == "ssdp:all"@ {
        assert(r =~= seq![
            response_text(all[0], device),
            response_text(all[1], device),
            response_text(all[2], device),
            response_text(all[3], device),
            response_text(all[4], device),
        ]);
        assert forall|i: int| 0 <= i < 5 implies answers_for(#[trigger] r[i], names[i], device) by {
            assert(r[i] == response_text(all[i], device));
        }
    } else if names.contains(st) {
        let k = names.lemma_contains_to_index(st);
        assert forall|i: int| 0 <= i < 5 && i != k implies #[trigger] names[i] != st by {
            assert(names[k] == st);
        }
        assert(names[0] == st || names[1] == st || names[2] == st || names[3] == st || names[4]
            == st);
        assert(r =~= seq![response_text(all[k], device)]);
    } else {
        assert(names[0] != st && names[1] != st && names[2] != st && names[3] != st && names[4]
            != st);
    }
}

/// A search for one name is answered once, where it is one of the device's, and the
/// answer gives that name back; a search for another name is not answered. A search
/// for everything is answered once for each of the five names, which are all different.
pub proof fn searches_are_answered_by_name(m: &MSearch, device: &Device, r: Vec<String>)
    requires
        call_ensures(respond_msearch, (m, device), r),
    ensures
        m.st@ == "ssdp:all"@ ==> r@.len() == 5 && forall|i: int|
            0 <= i < 5 ==> answers_for(
                #[trigger] r@[i]@,
                names_of(device.uuid@)[i],
                *device,
            ),
        m.st@ != "ssdp:all"@ && names_of(device.uuid@).contains(m.st@) ==> r@.len() == 1
            && answers_for(r@[0]@, m.st@, *device),
        m.st@ != "ssdp:all"@ && !names_of(device.uuid@).contains(m.st@) ==> r@.len() == 0,
        forall|i: int, j: int|
            0 <= i < j < 5 ==> #[trigger] names_of(device.uuid@)[i] != #[trigger] names_of(
                device.uuid@,
            )[j],
{
    lemma_responses(m.st@, *device);
    lemma_names();
    let all = texts(r@);
    assert forall|i: int| 0 <= i < r@.len() implies all[i] == #[trigger] r@[i]@ by {}
    if m.st@ == "ssdp:all"@ {
        assert forall|i: int| 0 <= i < 5 implies answers_for(
            #[trigger] r@[i]@,
            names_of(device.uuid@)[i],
            *device,
        ) by {
            assert(answers_for(all[i], names_of(device.uuid@)[i], *device));
        }
    }
}

/// The line of a search with the given name and value.
pub open spec fn says(line: Seq<char>, name: Seq<char>, value: Seq<char>) -> bool {
    &&& line.contains(':')
    &&& uppered(trimmed(line.take(first_index(line, ':')))) == name
    &&& trimmed(line.skip(first_index(line, ':') + 1)) == value
}

proof fn lemma_last_header(headers: Seq<Seq<char>>, name: Seq<char>, k: int, value: Seq<char>)
    requires
        0 <= k < headers.len(),
        says(headers[k], name, value),
        forall|i: int, v: Seq<char>| k < i < headers.len() ==> !#[trigger] says(headers[i], name, v),
    ensures
        last_header(headers, name) == Some(value),
    decreases headers.len(),
{
    if k < headers.len() - 1 {
        let front = headers.drop_last();
        let line = headers.last();
        assert(!says(headers[headers.len() - 1], name, trimmed(line.skip(first_index(line, ':') + 1))));
        assert forall|i: int, v: Seq<char>| k < i < front.len() implies !#[trigger] says(
            front[i],
            name,
            v,
        ) by {
            assert(!says(headers[i], name, v));
        }
        lemma_last_header(front, name, k, value);
    }
}

proof fn lemma_no_header(headers: Seq<Seq<char>>, name: Seq<char>)
    requires
        forall|i: int, v: Seq<char>| 0 <= i < headers.len() ==> !#[trigger] says(headers[i], name, v),
    ensures
        last_header(headers, name) is None,
    decreases headers.len(),
{
    if headers.len() > 0 {
        let front = headers.drop_last();
        let line = headers.last();
        assert(!says(headers[headers.len() - 1], name, trimmed(line.skip(first_index(line, ':') + 1))));
        assert forall|i: int, v: Seq<char>| 0 <= i < front.len() implies !#[trigger] says(
            front[i],
            name,
            v,
        ) by {
            assert(!says(headers[i], name, v));
        }
        lemma_no_header(front, name);
    }
}

/// A search is for what its last `ST` line says, however the name is written. It waits
/// for the seconds that its last `MX` line says, at most five, and not at all without
/// one. Without an `ST` line it is none.
pub proof fn searches_say_what_they_are_for(s: &str, r: Option<MSearch>, k: int, st: Seq<char>)
    requires
        call_ensures(parse_search_text, (s,), r),
        0 < k < lines(s@).len(),
        starts_with(lines(s@)[0], "M-SEARCH"@),
        says(lines(s@)[k], "ST"@, st),
        forall|i: int, v: Seq<char>|
            k < i < lines(s@).len() ==> !#[trigger] says(lines(s@)[i], "ST"@, v),
    ensures
        r matches Some(m) && m.st@ == st,
        (forall|i: int, v: Seq<char>|
            0 < i < lines(s@).len() ==> !#[trigger] says(lines(s@)[i], "MX"@, v)) ==> (r->0).mx
            == 0,
        forall|j: int, n: nat|
            0 < j < lines(s@).len() && n < 256 && #[trigger] says(
                lines(s@)[j],
                "MX"@,
                decimal(n),
            ) && (forall|i: int, v: Seq<char>|
                j < i < lines(s@).len() ==> !#[trigger] says(lines(s@)[i], "MX"@, v)) ==> (
            r->0).mx == if n <= 5 {
                n
            } else {
                5
            },
{
    let all = lines(s@);
    let headers = all.skip(1);
    assert(headers[k - 1] == all[k]);
    assert forall|i: int, v: Seq<char>| k - 1 < i < headers.len() implies !#[trigger] says(
        headers[i],
        "ST"@,
        v,
    ) by {
        assert(!says(all[i + 1], "ST"@, v));
    }
    lemma_last_header(headers, "ST"@, k - 1, st);
    if forall|i: int, v: Seq<char>| 0 < i < all.len() ==> !#[trigger] says(all[i], "MX"@, v) {
        assert forall|i: int, v: Seq<char>| 0 <= i < headers.len() implies !#[trigger] says(
            headers[i],
            "MX"@,
            v,
        ) by {
            assert(!says(all[i + 1], "MX"@, v));
        }
        lemma_no_header(headers, "MX"@);
    }
    assert forall|j: int, n: nat|
        0 < j < all.len() && n < 256 && #[trigger] says(all[j], "MX"@, decimal(n)) && (forall|
            i: int,
            v: Seq<char>,
        |
            j < i < all.len() ==> !#[trigger] says(all[i], "MX"@, v)) implies (r->0).mx == if n <= 5 {
        n
    } else {
        5
    } by {
        assert(headers[j - 1] == all[j]);
        assert forall|i: int, v: Seq<char>| j - 1 < i < headers.len() implies !#[trigger] says(
            headers[i],
            "MX"@,
            v,
        ) by {
            assert(!says(all[i + 1], "MX"@, v));
        }
        lemma_last_header(headers, "MX"@, j - 1, decimal(n));
        text::decimal_reads_back(n, 255);
    }
}

/// Text without an `ST` line behind a first line that begins with `M-SEARCH` is no
/// search.
pub proof fn other_text_is_no_search(s: &str, r: Option<MSearch>)
    requires
        call_ensures(parse_search_text, (s,), r),
        lines(s@).len() == 0 || !starts_with(lines(s@)[0], "M-SEARCH"@) || forall|
            i: int,
            v: Seq<char>,
        |
            0 < i < lines(s@).len() ==> !#[trigger] says(lines(s@)[i], "ST"@, v),
    ensures
        r is None,
{
    let all = lines(s@);
    if all.len() > 0 && starts_with(all[0], "M-SEARCH"@) {
        let headers = all.skip(1);
        assert forall|i: int, v: Seq<char>| 0 <= i < headers.len() implies !#[trigger] says(
            headers[i],
            "ST"@,
            v,
        ) by {
            assert(!says(all[i + 1], "ST"@, v));
        }
        lemma_no_header(headers, "ST"@);
    }
}

/// An answer waits for no longer than the seconds that the search gives, and not at all
/// where it gives none.
pub proof fn answers_keep_within_the_seconds_given(m: &MSearch, limit: Option<u64>, delay: u64)
    requires
        call_ensures(delay_limit_ms, (m,), limit),
        call_ensures(response_delay_ms, (m,), delay),
    ensures
        m.mx == 0 ==> limit is None && delay == 0,
        m.mx > 0 ==> limit == Some((1000 * m.mx) as u64),
        delay <= 1000 * m.mx,
{
}

} // verus!
