//! What the admin endpoints report.

use vstd::prelude::*;

use crate::db::query::{
    answers_view, cells, copy_error, found_text, get_integer, get_text, integer_at, optional_text,
    plain, plain_stmt, rows_of, rows_view, scalar, scalar_of, text_at, Answer, AnswerView, Cell,
    Row, StatementView, Step,
};
use crate::db::state_kv;
use crate::error::{Error, ErrorView};
use crate::scan::{
    read_update_id, stored_update_id, COUNT_ALBUMS_SQL, COUNT_TRACKS_SQL,
};
use crate::text;

verus! {

/// How many albums a reshuffle drew.
#[derive(Debug)]
pub struct ReshuffleResponse {
    pub shuffled: usize,
}

/// The server at a glance.
#[derive(Debug)]
pub struct StatsResponse {
    pub albums_total: i64,
    pub tracks_total: i64,
    pub total_duration_ms: i64,
    pub quality_breakdown: QualityBreakdown,
    pub plays_total: i64,
    pub played_albums_total: i64,
    /// How many tracks come with ReplayGain.
    pub replaygain_tracks: i64,
    pub last_scan: Option<LastScan>,
    pub system_update_id: u32,
    pub uptime_seconds: i64,
    /// How many subscriptions there are.
    pub gena_subscribers: usize,
    /// Whether searches are heard.
    pub ssdp_listener_active: bool,
    /// Whether announcements are sent.
    pub ssdp_advertiser_active: bool,
    pub art_cache: ArtCacheStats,
    /// How many albums the random selection holds.
    pub random_albums_buffered: usize,
}

#[derive(Debug, Clone, Copy, PartialEq, Eq, Structural)]
pub struct ArtCacheStats {
    pub entries: usize,
    pub bytes: usize,
}

/// How many albums there are of each quality.
#[derive(Debug, Clone, Copy, PartialEq, Eq, Structural)]
pub struct QualityBreakdown {
    pub hires: i64,
    pub lossless: i64,
    pub lossy: i64,
    pub mixed: i64,
    pub unknown: i64,
}

pub open spec fn no_albums() -> QualityBreakdown {
    QualityBreakdown { hires: 0, lossless: 0, lossy: 0, mixed: 0, unknown: 0 }
}

impl Default for QualityBreakdown {
    fn default() -> (r: Self)
        ensures
            r == no_albums(),
    {
        QualityBreakdown { hires: 0, lossless: 0, lossy: 0, mixed: 0, unknown: 0 }
    }
}

/// The last scan that came to its end.
#[derive(Debug)]
pub struct LastScan {
    pub scan_id: String,
    pub completed_at: i64,
}

/// What the server knows of itself without asking the database.
#[derive(Debug, Clone, Copy, PartialEq, Eq, Structural)]
pub struct ServerFacts {
    /// When the server was started, in seconds of Unix time.
    pub started_at: i64,
    /// The present time, where the clock tells it.
    pub now: Option<i64>,
    pub gena_subscribers: usize,
    pub ssdp_listener_active: bool,
    pub ssdp_advertiser_active: bool,
    pub art_cache: ArtCacheStats,
    pub random_albums_buffered: usize,
}

pub const DURATION_SQL: &'static str = "SELECT COALESCE(SUM(duration_ms), 0) FROM tracks";

pub const QUALITY_SQL: &'static str = "SELECT quality, COUNT(*) FROM albums GROUP BY quality";

pub const PLAYS_SQL: &'static str = "SELECT COALESCE(SUM(play_count), 0) FROM tracks";

pub const PLAYED_ALBUMS_SQL: &'static str = "SELECT COUNT(*) FROM (\
    SELECT album_id FROM tracks WHERE last_played_at IS NOT NULL GROUP BY album_id)";

/// How many tracks say how loud they are.
pub const REPLAYGAIN_SQL: &'static str =
    "SELECT COUNT(*) FROM tracks WHERE rg_track_gain IS NOT NULL";

/// A count added to those so far. A quality without a place of its own counts as
/// unknown.
pub open spec fn counted(b: QualityBreakdown, quality: Seq<char>, n: i64) -> QualityBreakdown {
    if quality == "hires"@ {
        QualityBreakdown { hires: n, ..b }
    } else if quality == "lossless"@ {
        QualityBreakdown { lossless: n, ..b }
    } else if quality == "lossy"@ {
        QualityBreakdown { lossy: n, ..b }
    } else if quality == "mixed"@ {
        QualityBreakdown { mixed: n, ..b }
    } else {
        QualityBreakdown { unknown: saturated(b.unknown + n), ..b }
    }
}

/// A number within the range of `i64`.
pub open spec fn saturated(n: int) -> i64 {
    if n > i64::MAX {
        i64::MAX
    } else if n < i64::MIN {
        i64::MIN
    } else {
        n as i64
    }
}

fn saturate(n: i128) -> (r: i64)
    ensures
        r == saturated(n as int),
{
    if n > 9223372036854775807 {
        i64::MAX
    } else if n < -9223372036854775808 {
        i64::MIN
    } else {
        n as i64
    }
}

/// The counts in the rows of an answer. Rows of another form are passed over.
pub open spec fn breakdown(rows: Seq<Seq<Cell>>) -> QualityBreakdown
    decreases rows.len(),
{
    if rows.len() == 0 {
        no_albums()
    } else {
        let before = breakdown(rows.drop_last());
        match (text_at(rows.last(), 0), integer_at(rows.last(), 1)) {
            (Some(quality), Some(n)) => counted(before, quality, n),
            _ => before,
        }
    }
}

fn read_breakdown(rows: &Vec<Row>) -> (r: QualityBreakdown)
    ensures
        r == breakdown(rows_view(rows@)),
{
    let ghost all = rows_view(rows@);
    let mut b = QualityBreakdown::default();
    let mut i: usize = 0;
    while i < rows.len()
        invariant
            i <= rows.len(),
            all == rows_view(rows@),
            b == breakdown(all.take(i as int)),
        decreases rows.len() - i,
    {
        assert(all[i as int] == cells(rows@[i as int]@));
        assert(all.take(i + 1).drop_last() =~= all.take(i as int));
        match (get_text(&rows[i], 0), get_integer(&rows[i], 1)) {
            (Some(quality), Some(n)) => {
                let q = quality.as_str();
                if text::same(q, "hires") {
                    b.hires = n;
                } else if text::same(q, "lossless") {
                    b.lossless = n;
                } else if text::same(q, "lossy") {
                    b.lossy = n;
                } else if text::same(q, "mixed") {
                    b.mixed = n;
                } else {
                    b.unknown = saturate(b.unknown as i128 + n as i128);
                }
            },
            _ => {},
        }
        i = i + 1;
    }
    assert(all.take(i as int) =~= all);
    b
}

/// Seconds since the start, never less than none.
pub open spec fn uptime(facts: ServerFacts) -> i64 {
    match facts.now {
        None => 0,
        Some(now) => if now - facts.started_at < 0 {
            0
        } else {
            saturated(now - facts.started_at)
        },
    }
}

/// The questions to the database, in order.
pub open spec fn stats_questions() -> Seq<StatementView> {
    seq![
        plain_stmt(COUNT_ALBUMS_SQL@),
        plain_stmt(COUNT_TRACKS_SQL@),
        plain_stmt(DURATION_SQL@),
        plain_stmt(QUALITY_SQL@),
        plain_stmt(PLAYS_SQL@),
        plain_stmt(PLAYED_ALBUMS_SQL@),
        plain_stmt(REPLAYGAIN_SQL@),
        state_kv::get_stmt("last_scan_report"@),
        state_kv::get_stmt("system_update_id"@),
    ]
}

/// Why an answer to question `i` is of no use, if it is not.
pub open spec fn stats_failure(i: int, a: AnswerView) -> Option<ErrorView> {
    if i == 3 {
        match rows_of(a) {
            Err(e) => Some(e),
            Ok(_) => None,
        }
    } else if i >= 7 {
        match found_text(a) {
            Err(e) => Some(e),
            Ok(_) => None,
        }
    } else {
        match scalar_of(a) {
            Err(e) => Some(e),
            Ok(_) => None,
        }
    }
}

/// The first failure among the answers.
pub open spec fn first_failure(answers: Seq<AnswerView>, from: int) -> Option<ErrorView>
    decreases answers.len() - from,
{
    if from >= answers.len() || from >= stats_questions().len() {
        None
    } else {
        match stats_failure(from, answers[from]) {
            Some(e) => Some(e),
            None => first_failure(answers, from + 1),
        }
    }
}

/// Whether the response holds what the answers and the facts say.
pub open spec fn stats_hold(
    r: StatsResponse,
    facts: ServerFacts,
    last_scan: Option<LastScan>,
    answers: Seq<AnswerView>,
) -> bool {
    &&& scalar_of(answers[0]) == Ok::<i64, ErrorView>(r.albums_total)
    &&& scalar_of(answers[1]) == Ok::<i64, ErrorView>(r.tracks_total)
    &&& scalar_of(answers[2]) == Ok::<i64, ErrorView>(r.total_duration_ms)
    &&& r.quality_breakdown == breakdown(rows_of(answers[3])->Ok_0)
    &&& scalar_of(answers[4]) == Ok::<i64, ErrorView>(r.plays_total)
    &&& scalar_of(answers[5]) == Ok::<i64, ErrorView>(r.played_albums_total)
    &&& scalar_of(answers[6]) == Ok::<i64, ErrorView>(r.replaygain_tracks)
    &&& r.last_scan == match found_text(answers[7])->Ok_0 {
        Some(_) => last_scan,
        None => None,
    }
    &&& r.system_update_id == match stored_update_id(found_text(answers[8])->Ok_0) {
        Some(n) => n,
        None => 0,
    }
    &&& r.uptime_seconds == uptime(facts)
    &&& r.gena_subscribers == facts.gena_subscribers
    &&& r.ssdp_listener_active == facts.ssdp_listener_active
    &&& r.ssdp_advertiser_active == facts.ssdp_advertiser_active
    &&& r.art_cache == facts.art_cache
    &&& r.random_albums_buffered == facts.random_albums_buffered
}

/// Whether a step asks the questions in order, stops at the first failure, and ends
/// with what the answers and the facts say.
pub open spec fn is_stats_step(
    step: Step<StatsResponse>,
    facts: ServerFacts,
    last_scan: Option<LastScan>,
    answers: Seq<AnswerView>,
) -> bool {
    match first_failure(answers, 0) {
        Some(e) => step matches Step::Done(Err(x)) && x@ == e,
        None => if answers.len() < stats_questions().len() {
            step matches Step::Query(q) && q@ == stats_questions()[answers.len() as int]
        } else {
            step matches Step::Done(Ok(r)) && stats_hold(r, facts, last_scan, answers)
        },
    }
}

fn stats_question(i: usize) -> (r: crate::db::query::Statement)
    requires
        i < 9,
    ensures
        r@ == stats_questions()[i as int],
{
    match i {
        0 => plain(COUNT_ALBUMS_SQL),
        1 => plain(COUNT_TRACKS_SQL),
        2 => plain(DURATION_SQL),
        3 => plain(QUALITY_SQL),
        4 => plain(PLAYS_SQL),
        5 => plain(PLAYED_ALBUMS_SQL),
        6 => plain(REPLAYGAIN_SQL),
        7 => state_kv::get_statement("last_scan_report"),
        _ => state_kv::get_statement("system_update_id"),
    }
}

fn stats_check(i: usize, a: &Answer) -> (r: Option<Error>)
    ensures
        r is Some == stats_failure(i as int, a@) is Some,
        r matches Some(e) ==> stats_failure(i as int, a@) == Some(e@),
{
    if i == 3 {
        match a {
            Answer::Failed(e) => Some(Error::Sqlite(copy_error(e))),
            Answer::Rows(..) => None,
        }
    } else if i >= 7 {
        match optional_text(a) {
            Err(e) => Some(e),
            Ok(_) => None,
        }
    } else {
        match scalar(a) {
            Err(e) => Some(e),
            Ok(_) => None,
        }
    }
}

proof fn lemma_no_failure(answers: Seq<AnswerView>, from: int, k: int)
    requires
        0 <= from <= k < answers.len(),
        k < stats_questions().len(),
        first_failure(answers, from) is None,
    ensures
        stats_failure(k, answers[k]) is None,
    decreases k - from,
{
    if from < k {
        lemma_no_failure(answers, from + 1, k);
    }
}

fn number(a: &Answer) -> (r: i64)
    requires
        scalar_of(a@) is Ok,
    ensures
        scalar_of(a@) == Ok::<i64, ErrorView>(r),
{
    match scalar(a) {
        Ok(n) => n,
        Err(_) => 0,
    }
}

/// Gather the server's numbers. `last_scan` is what the kept report of the last scan
/// says, where it can be read; without a report there is no last scan.
pub fn stats(facts: ServerFacts, last_scan: Option<LastScan>, answers: &[Answer]) -> (r: Step<
    StatsResponse,
>)
    ensures
        is_stats_step(r, facts, last_scan, answers_view(answers@)),
{
    let ghost all = answers_view(answers@);
    let mut i: usize = 0;
    while i < answers.len() && i < 9
        invariant
            i <= answers@.len(),
            i <= 9,
            all == answers_view(answers@),
            first_failure(all, 0) == first_failure(all, i as int),
        decreases answers@.len() - i,
    {
        assert(all[i as int] == answers@[i as int]@);
        match stats_check(i, &answers[i]) {
            Some(e) => return Step::Done(Err(e)),
            None => {},
        }
        i = i + 1;
    }
    assert(first_failure(all, 0) is None);
    if i < 9 {
        return Step::Query(stats_question(i));
    }
    proof {
        lemma_no_failure(all, 0, 0);
        lemma_no_failure(all, 0, 1);
        lemma_no_failure(all, 0, 2);
        lemma_no_failure(all, 0, 3);
        lemma_no_failure(all, 0, 4);
        lemma_no_failure(all, 0, 5);
        lemma_no_failure(all, 0, 6);
        lemma_no_failure(all, 0, 7);
        lemma_no_failure(all, 0, 8);
    }
    assert(forall|k: int| 0 <= k < 9 ==> #[trigger] all[k] == answers@[k]@);
    let quality_breakdown = match &answers[3] {
        Answer::Rows(rows, _) => read_breakdown(rows),
        Answer::Failed(_) => QualityBreakdown::default(),
    };
    let kept = match optional_text(&answers[7]) {
        Ok(s) => s,
        Err(_) => None,
    };
    let last_scan = match kept {
        Some(_) => last_scan,
        None => None,
    };
    let stored = match optional_text(&answers[8]) {
        Ok(s) => s,
        Err(_) => None,
    };
    let system_update_id: u32 = match read_update_id(&stored) {
        Some(n) => n,
        None => 0,
    };
    let uptime_seconds: i64 = match facts.now {
        None => 0,
        Some(now) => {
            let passed: i128 = now as i128 - facts.started_at as i128;
            if passed < 0 {
                0
            } else {
                saturate(passed)
            }
        },
    };
    Step::Done(
        Ok(
            StatsResponse {
                albums_total: number(&answers[0]),
                tracks_total: number(&answers[1]),
                total_duration_ms: number(&answers[2]),
                quality_breakdown,
                plays_total: number(&answers[4]),
                played_albums_total: number(&answers[5]),
                replaygain_tracks: number(&answers[6]),
                last_scan,
                system_update_id,
                uptime_seconds,
                gena_subscribers: facts.gena_subscribers,
                ssdp_listener_active: facts.ssdp_listener_active,
                ssdp_advertiser_active: facts.ssdp_advertiser_active,
                art_cache: facts.art_cache,
                random_albums_buffered: facts.random_albums_buffered,
            },
        ),
    )
}

/// The last scan's report as it is kept; not found where no scan was ever run.
pub fn scan_report(kept: Option<String>) -> (r: Result<String, crate::http::HttpError>)
    ensures
        match kept {
            Some(json) => r == Ok::<String, crate::http::HttpError>(json),
            None => r == Err::<String, crate::http::HttpError>(crate::http::HttpError::NotFound),
        },
{
    match kept {
        Some(json) => Ok(json),
        None => Err(crate::http::HttpError::NotFound),
    }
}

/// How many albums of a quality are told.
pub open spec fn told_of(b: QualityBreakdown, quality: Seq<char>) -> i64 {
    if quality == "hires"@ {
        b.hires
    } else if quality == "lossless"@ {
        b.lossless
    } else if quality == "lossy"@ {
        b.lossy
    } else if quality == "mixed"@ {
        b.mixed
    } else {
        b.unknown
    }
}

proof fn lemma_qualities()
    ensures
        "hires"@ != "lossless"@,
        "hires"@ != "lossy"@,
        "hires"@ != "mixed"@,
        "lossless"@ != "lossy"@,
        "lossless"@ != "mixed"@,
        "lossy"@ != "mixed"@,
{
    reveal_strlit("hires");
    reveal_strlit("lossless");
    reveal_strlit("lossy");
    reveal_strlit("mixed");
    assert("hires"@[0] == 'h' && "lossy"@[0] == 'l' && "mixed"@[0] == 'm' && "lossless"@.len() == 8
        && "hires"@.len() == 5 && "lossy"@.len() == 5 && "mixed"@.len() == 5);
}

/// The number of albums of a quality is the one in the row of that quality, and none where
/// there is no such row.
pub proof fn qualities_are_counted_by_their_rows(
    rows: Seq<Seq<Cell>>,
    quality: Seq<char>,
    k: int,
)
    requires
        quality == "hires"@ || quality == "lossless"@ || quality == "lossy"@ || quality
            == "mixed"@,
        -1 <= k < rows.len(),
        k >= 0 ==> rows[k].len() == 2 && rows[k][0] == Cell::Text(quality) && rows[k][1] is Integer,
        forall|i: int|
            k < i < rows.len() ==> (#[trigger] rows[i]).len() > 0 && rows[i][0] != Cell::Text(
                quality,
            ),
        k == -1 ==> forall|i: int|
            0 <= i < rows.len() ==> (#[trigger] rows[i]).len() > 0 && rows[i][0] != Cell::Text(
                quality,
            ),
    ensures
        told_of(breakdown(rows), quality) == (if k >= 0 {
            rows[k][1]->Integer_0
        } else {
            0
        }),
    decreases rows.len(),
{
    lemma_qualities();
    if rows.len() > 0 {
        let front = rows.drop_last();
        if k < rows.len() - 1 {
            qualities_are_counted_by_their_rows(front, quality, k);
            assert(rows[rows.len() - 1][0] != Cell::Text(quality));
        }
    }
}

/// The numbers told are the answers to the questions asked, each to its own, and those that
/// need no question are told as they are.
pub proof fn stats_are_the_answers_to_their_questions(
    facts: ServerFacts,
    last_scan: Option<LastScan>,
    answers: &[Answer],
    r: Step<StatsResponse>,
)
    requires
        call_ensures(stats, (facts, last_scan, answers), r),
        first_failure(answers_view(answers@), 0) is None,
    ensures
        ({
            let a = answers_view(answers@);
            let n = a.len();
            let asks = |sql: Seq<char>|
                r matches Step::Query(q) && q@ == (StatementView { sql, params: Seq::empty() });
            let reads = |key: Seq<char>|
                r matches Step::Query(q) && q@ == (StatementView {
                    sql: "SELECT value FROM server_state WHERE key = ?1"@,
                    params: seq![Cell::Text(key)],
                });
            &&& n == 0 ==> asks("SELECT COUNT(*) FROM albums"@)
            &&& n == 1 ==> asks("SELECT COUNT(*) FROM tracks"@)
            &&& n == 2 ==> asks("SELECT COALESCE(SUM(duration_ms), 0) FROM tracks"@)
            &&& n == 3 ==> asks("SELECT quality, COUNT(*) FROM albums GROUP BY quality"@)
            &&& n == 4 ==> asks("SELECT COALESCE(SUM(play_count), 0) FROM tracks"@)
            &&& n == 5 ==> asks(
                "SELECT COUNT(*) FROM (\
    SELECT album_id FROM tracks WHERE last_played_at IS NOT NULL GROUP BY album_id)"@,
            )
            &&& n == 6 ==> asks("SELECT COUNT(*) FROM tracks WHERE rg_track_gain IS NOT NULL"@)
            &&& n == 7 ==> reads("last_scan_report"@)
            &&& n == 8 ==> reads("system_update_id"@)
            &&& n >= 9 ==> (r matches Step::Done(Ok(s)) && {
                &&& scalar_of(a[0]) == Ok::<i64, ErrorView>(s.albums_total)
                &&& scalar_of(a[1]) == Ok::<i64, ErrorView>(s.tracks_total)
                &&& scalar_of(a[2]) == Ok::<i64, ErrorView>(s.total_duration_ms)
                &&& scalar_of(a[4]) == Ok::<i64, ErrorView>(s.plays_total)
                &&& scalar_of(a[5]) == Ok::<i64, ErrorView>(s.played_albums_total)
                &&& scalar_of(a[6]) == Ok::<i64, ErrorView>(s.replaygain_tracks)
                &&& found_text(a[7]) == Ok::<Option<Seq<char>>, ErrorView>(None) ==> s.last_scan
                    is None
                &&& found_text(a[7]) != Ok::<Option<Seq<char>>, ErrorView>(None) ==> s.last_scan
                    == last_scan
                &&& s.gena_subscribers == facts.gena_subscribers
                &&& s.ssdp_listener_active == facts.ssdp_listener_active
                &&& s.ssdp_advertiser_active == facts.ssdp_advertiser_active
                &&& s.art_cache == facts.art_cache
                &&& s.random_albums_buffered == facts.random_albums_buffered
                &&& facts.now matches Some(now) ==> {
                    &&& now >= facts.started_at && now - facts.started_at <= i64::MAX
                        ==> s.uptime_seconds == now - facts.started_at
                    &&& now < facts.started_at ==> s.uptime_seconds == 0
                }
            })
        }),
{
    let a = answers_view(answers@);
    if a.len() >= 9 {
        lemma_no_failure(a, 0, 7);
    }
}

/// The update id told is the one that is kept.
pub proof fn stats_tell_the_update_id(
    facts: ServerFacts,
    last_scan: Option<LastScan>,
    answers: &[Answer],
    r: Step<StatsResponse>,
    n: u32,
)
    requires
        call_ensures(stats, (facts, last_scan, answers), r),
        first_failure(answers_view(answers@), 0) is None,
        answers@.len() == 9,
        found_text(answers_view(answers@)[8]) == Ok::<Option<Seq<char>>, ErrorView>(
            Some(text::decimal(n as nat)),
        ),
    ensures
        r matches Step::Done(Ok(s)) && s.system_update_id == n,
{
    text::decimal_reads_back(n as nat, u32::MAX as nat);
    assert(answers_view(answers@).len() == 9);
}

} // verus!
