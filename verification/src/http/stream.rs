//! `GET /stream/{track_id}`: which bytes of a track a request asks for, and how
//! it is answered.

use vstd::prelude::*;
use vstd::slice::slice_subrange;

use crate::db::albums;
use crate::db::query::{
    answers_view, bound, cells, check, ran, scalar, scalar_of, Answer, AnswerView, Cell, SqlValue,
    StatementView, Step, StepView,
};
use crate::http::{header_of, Header, HeaderView, HttpError};
use crate::text::{
    self, decimal, first_index, is_white_space, opt_str, parsed_number, starts_with, trimmed,
};

verus! {

/// A run of bytes of a file: where it begins and how many bytes it has.
#[derive(Debug, Clone, Copy, PartialEq, Eq, Structural)]
pub struct ResolvedRange {
    pub start: u64,
    /// Bytes to deliver.
    pub length: u64,
}

/// What a `Range` header asks for.
#[derive(Debug, Clone, Copy, PartialEq, Eq, Structural)]
pub enum RangeParse {
    /// No header: the whole file.
    Whole,
    /// A range of the file.
    Part(ResolvedRange),
    /// No byte of the file is in the range.
    Unsatisfiable,
    /// Not a range of the accepted form.
    Malformed,
}

pub open spec fn u64_number(s: Seq<char>) -> Option<nat> {
    parsed_number(s, u64::MAX as nat)
}

/// The range `first-last` of a file of `total` bytes, each side as written.
pub open spec fn bounds_range(first: Seq<char>, last: Seq<char>, total: u64) -> RangeParse {
    if first.len() == 0 && last.len() == 0 {
        RangeParse::Malformed
    } else if first.len() == 0 {
        // the last `n` bytes
        match u64_number(last) {
            None => RangeParse::Malformed,
            Some(n) => if n == 0 || total == 0 {
                RangeParse::Unsatisfiable
            } else if n <= total {
                RangeParse::Part(ResolvedRange { start: (total - n) as u64, length: n as u64 })
            } else {
                RangeParse::Part(ResolvedRange { start: 0, length: total })
            },
        }
    } else if last.len() == 0 {
        // everything from `a` on
        match u64_number(first) {
            None => RangeParse::Malformed,
            Some(a) => if a >= total {
                RangeParse::Unsatisfiable
            } else {
                RangeParse::Part(ResolvedRange { start: a as u64, length: (total - a) as u64 })
            },
        }
    } else {
        // `a` to `b`, both included
        match (u64_number(first), u64_number(last)) {
            (Some(a), Some(b)) => if a > b {
                RangeParse::Malformed
            } else if a >= total {
                RangeParse::Unsatisfiable
            } else if b < total {
                RangeParse::Part(ResolvedRange { start: a as u64, length: (b - a + 1) as u64 })
            } else {
                RangeParse::Part(ResolvedRange { start: a as u64, length: (total - a) as u64 })
            },
            _ => RangeParse::Malformed,
        }
    }
}

/// What a `Range` header means for a file of `total` bytes: `bytes=` and one
/// range, with white space allowed around each part.
pub open spec fn header_range(header: Option<Seq<char>>, total: u64) -> RangeParse {
    match header {
        None => RangeParse::Whole,
        Some(h) => {
            let raw = trimmed(h);
            let set = trimmed(raw.skip("bytes="@.len() as int));
            let dash = first_index(set, '-');
            if !starts_with(raw, "bytes="@) || set.contains(',') || !set.contains('-') {
                RangeParse::Malformed
            } else {
                bounds_range(trimmed(set.take(dash)), trimmed(set.skip(dash + 1)), total)
            }
        },
    }
}

/// Read a `Range` header: `bytes=N-M`, `bytes=N-` or `bytes=-N`. A header with
/// several ranges is malformed.
pub fn parse_range(header: Option<&str>, total: u64) -> (r: RangeParse)
    ensures
        r == header_range(opt_str(header), total),
{
    let raw = match header {
        None => return RangeParse::Whole,
        Some(s) => text::trim(s),
    };
    let set = match text::strip_prefix(raw, "bytes=") {
        Some(s) => text::trim(s),
        None => return RangeParse::Malformed,
    };
    if text::has_char(set, ',') {
        return RangeParse::Malformed;
    }
    let (lhs, rhs) = match text::split_at_char(set, '-') {
        Some(pair) => pair,
        None => return RangeParse::Malformed,
    };
    let first = text::trim(lhs);
    let last = text::trim(rhs);
    if first.is_empty() && last.is_empty() {
        RangeParse::Malformed
    } else if first.is_empty() {
        let n: u64 = match text::parse_number(last, u64::MAX) {
            Some(n) => n,
            None => return RangeParse::Malformed,
        };
        if n == 0 || total == 0 {
            return RangeParse::Unsatisfiable;
        }
        let length: u64 = if n < total { n } else { total };
        RangeParse::Part(ResolvedRange { start: total - length, length })
    } else if last.is_empty() {
        let start: u64 = match text::parse_number(first, u64::MAX) {
            Some(n) => n,
            None => return RangeParse::Malformed,
        };
        if start >= total {
            return RangeParse::Unsatisfiable;
        }
        RangeParse::Part(ResolvedRange { start, length: total - start })
    } else {
        let start: u64 = match text::parse_number(first, u64::MAX) {
            Some(n) => n,
            None => return RangeParse::Malformed,
        };
        let end: u64 = match text::parse_number(last, u64::MAX) {
            Some(n) => n,
            None => return RangeParse::Malformed,
        };
        if start > end {
            return RangeParse::Malformed;
        }
        if start >= total {
            return RangeParse::Unsatisfiable;
        }
        let stop: u64 = if end < total - 1 { end } else { total - 1 };
        RangeParse::Part(ResolvedRange { start, length: stop - start + 1 })
    }
}

/// Every range that is delivered has at least one byte and lies within the file.
pub proof fn range_lies_within_file(header: Option<Seq<char>>, total: u64)
    ensures
        header_range(header, total) matches RangeParse::Part(r) ==> r.length > 0 && r.start
            + r.length <= total,
{
}

/// No range of an empty file can be delivered.
pub proof fn empty_file_has_no_range(header: Option<Seq<char>>)
    ensures
        !(header_range(header, 0) is Part),
{
}

// ── What ranges mean ─────────────────────────────────────────────────────

/// The text of a numeral is its own trimmed form, and holds neither a dash nor a comma.
proof fn lemma_numeral(n: nat)
    ensures
        decimal(n).len() > 0,
        trimmed(decimal(n)) == decimal(n),
        !decimal(n).contains('-'),
        !decimal(n).contains(','),
        !is_white_space(decimal(n)[0]),
        !is_white_space(decimal(n).last()),
        n <= u64::MAX ==> u64_number(decimal(n)) == Some(n),
{
    text::lemma_decimal(n);
    let s = decimal(n);
    assert(text::is_digit(s[0]) && text::is_digit(s[s.len() - 1]));
    text::lemma_trimmed_stays(s);
    if s.contains('-') {
        let i = s.lemma_contains_to_index('-');
        assert(text::is_digit(s[i]));
    }
    if s.contains(',') {
        let i = s.lemma_contains_to_index(',');
        assert(text::is_digit(s[i]));
    }
    if n <= u64::MAX {
        text::decimal_reads_back(n, u64::MAX as nat);
    }
}

/// A header of one range is read side by side.
proof fn lemma_header(first: Seq<char>, last: Seq<char>, total: u64)
    requires
        first.len() > 0 || last.len() > 0,
        first.len() > 0 ==> exists|n: nat| first == #[trigger] decimal(n),
        last.len() > 0 ==> exists|n: nat| last == #[trigger] decimal(n),
    ensures
        header_range(Some("bytes="@ + first + "-"@ + last), total) == bounds_range(
            first,
            last,
            total,
        ),
{
    reveal_strlit("bytes=");
    reveal_strlit("-");
    let h = "bytes="@ + first + "-"@ + last;
    let set = first + "-"@ + last;
    if first.len() > 0 {
        let n = choose|n: nat| first == #[trigger] decimal(n);
        lemma_numeral(n);
    }
    if last.len() > 0 {
        let n = choose|n: nat| last == #[trigger] decimal(n);
        lemma_numeral(n);
    }
    assert(first.len() == 0 ==> trimmed(first) == first);
    assert(last.len() == 0 ==> trimmed(last) == last);
    assert(h[0] == 'b');
    assert(last.len() > 0 ==> h.last() == last.last());
    assert(last.len() == 0 ==> h.last() == '-');
    text::lemma_trimmed_stays(h);
    assert(h.skip(6) =~= set);
    assert(first.len() > 0 ==> set[0] == first[0]);
    assert(first.len() == 0 ==> set[0] == '-');
    assert(set.last() == h.last());
    text::lemma_trimmed_stays(set);
    assert(h.take(6) =~= "bytes="@);
    assert(set[first.len() as int] == '-');
    assert forall|i: int| 0 <= i < first.len() implies set[i] != '-' by {
        assert(first.contains(first[i]));
    }
    text::lemma_is_first_index(set, '-', first.len() as int);
    assert(set.take(first.len() as int) =~= first);
    assert(set.skip(first.len() as int + 1) =~= last);
    if set.contains(',') {
        let i = set.lemma_contains_to_index(',');
        if i < first.len() {
            assert(first.contains(first[i]));
        } else {
            assert(last.contains(last[i - first.len() - 1]));
        }
    }
}

/// A range from `a` to `b` begins with byte `a` and ends with byte `b`, or with the last
/// byte where there is no byte `b`. One that begins behind the end of the file cannot be
/// delivered, and one that ends before it begins is malformed.
pub proof fn closed_range_ends_where_it_says(
    h: &str,
    a: u64,
    b: u64,
    total: u64,
    r: RangeParse,
)
    requires
        call_ensures(parse_range, (Some(h), total), r),
        h@ == "bytes="@ + decimal(a as nat) + "-"@ + decimal(b as nat),
    ensures
        a > b <==> r is Malformed,
        a <= b && a >= total <==> r is Unsatisfiable,
        a <= b && a < total <==> r is Part,
        r matches RangeParse::Part(p) ==> {
            &&& p.start == a
            &&& b < total ==> p.start + p.length - 1 == b
            &&& b >= total ==> p.start + p.length == total
        },
{
    lemma_numeral(a as nat);
    lemma_numeral(b as nat);
    lemma_header(decimal(a as nat), decimal(b as nat), total);
}

/// A range from `a` on begins with byte `a` and ends with the last byte.
pub proof fn open_range_goes_to_the_end(h: &str, a: u64, total: u64, r: RangeParse)
    requires
        call_ensures(parse_range, (Some(h), total), r),
        h@ == "bytes="@ + decimal(a as nat) + "-"@,
    ensures
        a >= total <==> r is Unsatisfiable,
        a < total <==> r is Part,
        r matches RangeParse::Part(p) ==> p.start == a && p.start + p.length == total,
{
    lemma_numeral(a as nat);
    lemma_header(decimal(a as nat), Seq::empty(), total);
    assert("bytes="@ + decimal(a as nat) + "-"@ + Seq::<char>::empty() =~= h@);
}

/// A range of the last `n` bytes ends with the last byte and has `n` bytes, or all where
/// there are fewer.
pub proof fn suffix_range_is_the_end(h: &str, n: u64, total: u64, r: RangeParse)
    requires
        call_ensures(parse_range, (Some(h), total), r),
        h@ == "bytes=-"@ + decimal(n as nat),
    ensures
        n == 0 || total == 0 <==> r is Unsatisfiable,
        n > 0 && total > 0 <==> r is Part,
        r matches RangeParse::Part(p) ==> {
            &&& p.start + p.length == total
            &&& n <= total ==> p.length == n
            &&& n > total ==> p.start == 0
        },
{
    lemma_numeral(n as nat);
    lemma_header(Seq::empty(), decimal(n as nat), total);
    reveal_strlit("bytes=-");
    reveal_strlit("bytes=");
    reveal_strlit("-");
    assert("bytes="@ + Seq::<char>::empty() + "-"@ =~= "bytes=-"@);
    assert("bytes="@ + Seq::<char>::empty() + "-"@ + decimal(n as nat) =~= h@);
}

/// Without a header the whole file is asked for, and with one never: what is no range of
/// bytes, and several ranges, are malformed.
pub proof fn other_headers_are_malformed(h: Option<&str>, total: u64, r: RangeParse)
    requires
        call_ensures(parse_range, (h, total), r),
    ensures
        r is Whole <==> h is None,
        h matches Some(s) && s@.len() > 0 && !is_white_space(s@[0]) && !starts_with(
            s@,
            "bytes="@,
        ) ==> r
            is Malformed,
        h matches Some(s) && (s@.contains(',') || !s@.contains('-')) ==> r is Malformed,
{
    if let Some(s) = h {
        let raw = trimmed(s@);
        let set = trimmed(raw.skip("bytes="@.len() as int));
        reveal_strlit("bytes=");
        if s@.len() > 0 && !is_white_space(s@[0]) && !starts_with(s@, "bytes="@) {
            text::lemma_trimmed_within(s@);
            if starts_with(raw, "bytes="@) {
                let i = text::trimmed_from(s@);
                assert(i == 0);
                assert(s@.take(6) =~= raw.take(6));
            }
        }
        if s@.contains(',') && starts_with(raw, "bytes="@) {
            text::lemma_trimmed_keeps(s@, ',');
            let i = raw.lemma_contains_to_index(',');
            assert(raw.take(6)[i] == ',' || i >= 6);
            assert(raw.skip(6).contains(raw.skip(6)[i - 6]));
            text::lemma_trimmed_keeps(raw.skip(6), ',');
        }
        if !s@.contains('-') && set.contains('-') && starts_with(raw, "bytes="@) {
            text::lemma_trimmed_keeps(raw.skip(6), '-');
            let i = raw.skip(6).lemma_contains_to_index('-');
            assert(raw.contains(raw[i + 6]));
            text::lemma_trimmed_keeps(s@, '-');
        }
    }
}

/// Whether a request begins a playback: one for the whole file, or for a range
/// that begins with the first byte.
pub open spec fn begins_playback(parsed: RangeParse) -> bool {
    match parsed {
        RangeParse::Whole => true,
        RangeParse::Part(r) => r.start == 0,
        _ => false,
    }
}

pub fn is_play_start(parsed: &RangeParse) -> (r: bool)
    ensures
        r == begins_playback(*parsed),
{
    match parsed {
        RangeParse::Whole => true,
        RangeParse::Part(range) => range.start == 0,
        _ => false,
    }
}

/// The track that a request names, as far as its delivery goes.
pub struct StreamTrack {
    pub file_size: u64,
    pub mime_type: String,
    /// Whether the file, all links resolved, lies under the library's root.
    pub within_library: bool,
}

/// What is sent after the headers.
#[derive(Debug, Clone, Copy, PartialEq, Eq, Structural)]
pub enum StreamBody {
    /// A run of bytes of the track's file.
    File(ResolvedRange),
    /// `malformed range header`
    MalformedNote,
    /// `range not satisfiable`
    UnsatisfiableNote,
}

/// How a stream request is answered.
pub struct StreamReply {
    pub status: u16,
    pub headers: Vec<Header>,
    pub body: StreamBody,
    /// Whether the request counts as a play of the track.
    pub counts_as_play: bool,
}

pub open spec fn content_range(r: ResolvedRange, total: u64) -> Seq<char> {
    "bytes "@ + text::decimal(r.start as nat) + "-"@ + text::decimal(
        (r.start + r.length - 1) as nat,
    ) + "/"@ + text::decimal(total as nat)
}

/// The headers of the answer to a request for `parsed`.
pub open spec fn stream_headers(parsed: RangeParse, total: u64, mime: Seq<char>) -> Seq<
    HeaderView,
> {
    let common = seq![
        HeaderView { name: "accept-ranges"@, value: "bytes"@ },
        HeaderView { name: "content-type"@, value: mime },
    ];
    match parsed {
        RangeParse::Malformed => common,
        RangeParse::Unsatisfiable => common.push(
            HeaderView {
                name: "content-range"@,
                value: "bytes */"@ + text::decimal(total as nat),
            },
        ),
        RangeParse::Whole => common.push(
            HeaderView { name: "content-length"@, value: text::decimal(total as nat) },
        ),
        RangeParse::Part(r) => common.push(
            HeaderView { name: "content-length"@, value: text::decimal(r.length as nat) },
        ).push(HeaderView { name: "content-range"@, value: content_range(r, total) }),
    }
}

pub open spec fn stream_status(parsed: RangeParse) -> u16 {
    match parsed {
        RangeParse::Whole => 200,
        RangeParse::Part(_) => 206,
        RangeParse::Malformed => 400,
        RangeParse::Unsatisfiable => 416,
    }
}

pub open spec fn stream_body(parsed: RangeParse, total: u64) -> StreamBody {
    match parsed {
        RangeParse::Whole => StreamBody::File(ResolvedRange { start: 0, length: total }),
        RangeParse::Part(r) => StreamBody::File(r),
        RangeParse::Malformed => StreamBody::MalformedNote,
        RangeParse::Unsatisfiable => StreamBody::UnsatisfiableNote,
    }
}

/// Decide how a stream request is answered. An unknown track, and one whose file
/// lies outside the library, is not found.
pub fn stream(track: &Option<StreamTrack>, range_header: Option<&str>) -> (r: Result<
    StreamReply,
    HttpError,
>)
    ensures
        r is Ok == (track matches Some(t) && t.within_library),
        r matches Err(e) ==> e is NotFound,
        r matches Ok(reply) ==> ({
            let t = track->0;
            let parsed = header_range(opt_str(range_header), t.file_size);
            &&& reply.status == stream_status(parsed)
            &&& crate::http::headers_view(reply.headers@) == stream_headers(
                parsed,
                t.file_size,
                t.mime_type@,
            )
            &&& reply.body == stream_body(parsed, t.file_size)
            &&& reply.counts_as_play == begins_playback(parsed)
        }),
{
    let t = match track {
        Some(t) => t,
        None => return Err(HttpError::NotFound),
    };
    if !t.within_library {
        return Err(HttpError::NotFound);
    }
    let total: u64 = t.file_size;
    let parsed = parse_range(range_header, total);
    proof {
        range_lies_within_file(opt_str(range_header), total);
    }
    let counts_as_play = is_play_start(&parsed);
    let mut headers: Vec<Header> = Vec::new();
    headers.push(header_of("accept-ranges", text::owned("bytes")));
    headers.push(header_of("content-type", text::owned(t.mime_type.as_str())));
    let (status, body) = match parsed {
        RangeParse::Malformed => (400u16, StreamBody::MalformedNote),
        RangeParse::Unsatisfiable => {
            let size = text::number_text(total);
            headers.push(header_of("content-range", text::cat("bytes */", size.as_str())));
            (416u16, StreamBody::UnsatisfiableNote)
        },
        RangeParse::Whole => {
            headers.push(header_of("content-length", text::number_text(total)));
            (200u16, StreamBody::File(ResolvedRange { start: 0, length: total }))
        },
        RangeParse::Part(range) => {
            headers.push(header_of("content-length", text::number_text(range.length)));
            let end: u64 = range.start + (range.length - 1);
            let mut value = text::owned("bytes ");
            value = text::cat(value.as_str(), text::number_text(range.start).as_str());
            value = text::cat(value.as_str(), "-");
            value = text::cat(value.as_str(), text::number_text(end).as_str());
            value = text::cat(value.as_str(), "/");
            value = text::cat(value.as_str(), text::number_text(total).as_str());
            headers.push(header_of("content-range", value));
            (206u16, StreamBody::File(range))
        },
    };
    assert(crate::http::headers_view(headers@) =~= stream_headers(parsed, total, t.mime_type@));
    Ok(StreamReply { status, headers, body, counts_as_play })
}

/// Whether a reply has a header with the name and the value.
pub open spec fn says(reply: StreamReply, name: Seq<char>, value: Seq<char>) -> bool {
    crate::http::headers_view(reply.headers@).contains(HeaderView { name, value })
}

/// A reply delivers the bytes that are asked for and tells which they are: the whole
/// file, or the part from the first to the last byte of the range. Only what begins with
/// the first byte counts as a play. What cannot be delivered is refused with the size
/// of the file, what is malformed without it. No track outside the library is found.
pub proof fn replies_tell_what_they_deliver(
    track: &Option<StreamTrack>,
    header: Option<&str>,
    asked: RangeParse,
    r: Result<StreamReply, HttpError>,
)
    requires
        call_ensures(stream, (track, header), r),
        track matches Some(t) ==> call_ensures(parse_range, (header, t.file_size), asked),
    ensures
        match *track {
            None => r matches Err(e) && e is NotFound,
            Some(t) if !t.within_library => r matches Err(e) && e is NotFound,
            Some(t) => {
                &&& r is Ok
                &&& says(r->Ok_0, "accept-ranges"@, "bytes"@)
                &&& says(r->Ok_0, "content-type"@, t.mime_type@)
                &&& match asked {
                    RangeParse::Whole => {
                        &&& (r->Ok_0).status == 200
                        &&& (r->Ok_0).headers@.len() == 3
                        &&& says(r->Ok_0, "content-length"@, decimal(t.file_size as nat))
                        &&& (r->Ok_0).body == StreamBody::File(
                            ResolvedRange { start: 0, length: t.file_size },
                        )
                        &&& (r->Ok_0).counts_as_play
                    },
                    RangeParse::Part(p) => {
                        &&& (r->Ok_0).status == 206
                        &&& (r->Ok_0).headers@.len() == 4
                        &&& says(r->Ok_0, "content-length"@, decimal(p.length as nat))
                        &&& says(
                            r->Ok_0,
                            "content-range"@,
                            "bytes "@ + decimal(p.start as nat) + "-"@ + decimal(
                                (p.start + p.length - 1) as nat,
                            ) + "/"@ + decimal(t.file_size as nat),
                        )
                        &&& (r->Ok_0).body == StreamBody::File(p)
                        &&& (r->Ok_0).counts_as_play == (p.start == 0)
                    },
                    RangeParse::Unsatisfiable => {
                        &&& (r->Ok_0).status == 416
                        &&& (r->Ok_0).headers@.len() == 3
                        &&& says(
                            r->Ok_0,
                            "content-range"@,
                            "bytes */"@ + decimal(t.file_size as nat),
                        )
                        &&& !((r->Ok_0).body is File)
                        &&& !(r->Ok_0).counts_as_play
                    },
                    RangeParse::Malformed => {
                        &&& (r->Ok_0).status == 400
                        &&& (r->Ok_0).headers@.len() == 2
                        &&& !((r->Ok_0).body is File)
                        &&& !(r->Ok_0).counts_as_play
                    },
                }
            },
        },
{
    if let Ok(reply) = r {
        let h = crate::http::headers_view(reply.headers@);
        assert(h.len() == reply.headers@.len());
        assert(h.contains(h[0]) && h.contains(h[1]));
        if h.len() > 2 {
            assert(h.contains(h[2]));
        }
        if h.len() > 3 {
            assert(h.contains(h[3]));
        }
    }
}

// ── Counting plays ───────────────────────────────────────────────────────

pub const COUNT_PLAY_SQL: &'static str =
    "UPDATE tracks SET play_count = play_count + 1, last_played_at = ?1 WHERE id = ?2";

pub const ALBUM_OF_TRACK_SQL: &'static str = "SELECT album_id FROM tracks WHERE id = ?1";

pub open spec fn count_play_stmt(track_id: i64, now: i64) -> StatementView {
    StatementView {
        sql: COUNT_PLAY_SQL@,
        params: seq![Cell::Integer(now), Cell::Integer(track_id)],
    }
}

pub open spec fn album_of_stmt(track_id: i64) -> StatementView {
    StatementView { sql: ALBUM_OF_TRACK_SQL@, params: seq![Cell::Integer(track_id)] }
}

/// Count the play, find the track's album, and mark the album as played. A track
/// without an album leaves nothing more to do; a failure ends the work.
pub open spec fn bump_play_step(track_id: i64, now: i64, answers: Seq<AnswerView>) -> StepView<()> {
    if answers.len() == 0 {
        StepView::Execute(count_play_stmt(track_id, now))
    } else {
        match ran(answers[0]) {
            Err(e) => StepView::Done(Err(e)),
            Ok(_) => if answers.len() == 1 {
                StepView::Query(album_of_stmt(track_id))
            } else {
                match scalar_of(answers[1]) {
                    Err(_) => StepView::Done(Ok(())),
                    Ok(album_id) => if answers.len() == 2 {
                        StepView::Execute(albums::bump_stmt(album_id, now))
                    } else {
                        StepView::Done(ran(answers[2]))
                    },
                }
            },
        }
    }
}

/// Count that a track was played. Whoever streams it goes on whatever comes of this.
pub fn bump_play_stats(track_id: i64, now: i64, answers: &[Answer]) -> (r: Step<()>)
    ensures
        r@ == bump_play_step(track_id, now, answers_view(answers@)),
{
    if answers.len() == 0 {
        let params = vec![SqlValue::Integer(now), SqlValue::Integer(track_id)];
        assert(cells(params@) =~= count_play_stmt(track_id, now).params);
        return Step::Execute(bound(COUNT_PLAY_SQL, params));
    }
    match check(&answers[0]) {
        Err(e) => return Step::Done(Err(e)),
        Ok(_) => {},
    }
    if answers.len() == 1 {
        let params = vec![SqlValue::Integer(track_id)];
        assert(cells(params@) =~= album_of_stmt(track_id).params);
        return Step::Query(bound(ALBUM_OF_TRACK_SQL, params));
    }
    match scalar(&answers[1]) {
        Err(_) => Step::Done(Ok(())),
        Ok(album_id) => {
            let rest = slice_subrange(answers, 2, answers.len());
            assert(answers_view(rest@) =~= answers_view(answers@).skip(2));
            albums::bump_album_last_played_at(album_id, now, rest)
        },
    }
}

} // verus!
