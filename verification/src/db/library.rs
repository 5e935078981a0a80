//! The library as the database holds it: tracks, albums, and what the statements that
//! change them do.

use vstd::prelude::*;

use crate::db::query::{
    answers_view, plain_stmt, scalar_of, Answer, Cell, Statement, StatementView, Step, StepView,
};
use crate::db::tracks::{statements_view, temp_insert_stmt};
use crate::error::ErrorView;
use crate::http::stream::{album_of_stmt, bump_play_stats, count_play_stmt};
use crate::scan::{postprocess, postprocess_script};
use crate::text::texts;

verus! {

/// What the database knows of a track, as far as albums depend on it.
pub struct TrackFacts {
    pub album_id: i64,
    pub path: Seq<char>,
    pub codec: Seq<char>,
    pub sample_rate: Option<i64>,
    pub bit_depth: Option<i64>,
    pub duration_ms: Option<i64>,
    pub added_at: i64,
    pub play_count: int,
    pub last_played_at: Option<i64>,
}

/// What the database knows of an album, as far as it is worked out from its tracks.
pub struct AlbumFacts {
    pub track_count: int,
    pub total_duration_ms: int,
    pub quality: Seq<char>,
    pub last_added_at: Option<i64>,
    pub last_played_at: Option<i64>,
}

/// Tracks and albums by their ids, and the paths that a scan came by.
pub struct Library {
    pub tracks: Map<i64, TrackFacts>,
    pub albums: Map<i64, AlbumFacts>,
    pub seen: Set<Seq<char>>,
}

// ── What albums say of their tracks ──────────────────────────────────────

/// How well a track sounds.
pub enum Tier {
    Hires,
    Lossless,
    Lossy,
}

/// The tier of a track, where its codec is a known one: what keeps everything is better
/// than that of a CD with a rate above 48 kHz or more than 16 bits.
pub open spec fn tier(t: TrackFacts) -> Option<Tier> {
    if t.codec == "flac"@ || t.codec == "alac"@ || t.codec == "pcm"@ {
        if (t.sample_rate matches Some(rate) && rate > 48000) || (t.bit_depth matches Some(bits)
            && bits > 16) {
            Some(Tier::Hires)
        } else {
            Some(Tier::Lossless)
        }
    } else if t.codec == "mp3"@ || t.codec == "aac"@ {
        Some(Tier::Lossy)
    } else {
        None
    }
}

/// The tracks of an album.
pub open spec fn tracks_of(tracks: Map<i64, TrackFacts>, album_id: i64) -> Set<i64> {
    tracks.dom().filter(|id: i64| tracks[id].album_id == album_id)
}

/// Whether an album has a track of the tier.
pub open spec fn has_tier(tracks: Map<i64, TrackFacts>, album_id: i64, t: Tier) -> bool {
    exists|id: i64| #[trigger]
        tracks_of(tracks, album_id).contains(id) && tier(tracks[id]) == Some(t)
}

/// The quality of an album: the tier that its tracks share, `mixed` where they are of
/// several, `unknown` where none is known.
pub open spec fn quality_of(tracks: Map<i64, TrackFacts>, album_id: i64) -> Seq<char> {
    let hires = has_tier(tracks, album_id, Tier::Hires);
    let lossless = has_tier(tracks, album_id, Tier::Lossless);
    let lossy = has_tier(tracks, album_id, Tier::Lossy);
    if (hires && lossless) || (hires && lossy) || (lossless && lossy) {
        "mixed"@
    } else if hires {
        "hires"@
    } else if lossless {
        "lossless"@
    } else if lossy {
        "lossy"@
    } else {
        "unknown"@
    }
}

/// How long the given tracks are together.
pub open spec fn duration_of(tracks: Map<i64, TrackFacts>, ids: Set<i64>) -> int
    decreases ids.len(),
{
    if ids.finite() && ids.len() > 0 {
        let id = ids.choose();
        duration_of(tracks, ids.remove(id)) + match tracks[id].duration_ms {
            Some(n) => n as int,
            None => 0,
        }
    } else {
        0
    }
}

/// Whether `at` is the latest of the times that the given tracks have.
pub open spec fn is_latest(ids: Set<i64>, time: spec_fn(i64) -> Option<i64>, at: i64) -> bool {
    &&& exists|id: i64| #[trigger] ids.contains(id) && time(id) == Some(at)
    &&& forall|id: i64| #[trigger]
        ids.contains(id) ==> (time(id) matches Some(other) ==> other <= at)
}

/// The latest of the times that the given tracks have, where one has any.
pub open spec fn latest(ids: Set<i64>, time: spec_fn(i64) -> Option<i64>) -> Option<i64> {
    if exists|at: i64| is_latest(ids, time, at) {
        Some(choose|at: i64| is_latest(ids, time, at))
    } else {
        None
    }
}

pub open spec fn last_added(tracks: Map<i64, TrackFacts>, album_id: i64) -> Option<i64> {
    latest(tracks_of(tracks, album_id), |id: i64| Some(tracks[id].added_at))
}

pub open spec fn last_played(tracks: Map<i64, TrackFacts>, album_id: i64) -> Option<i64> {
    latest(tracks_of(tracks, album_id), |id: i64| tracks[id].last_played_at)
}

// ── What statements do ───────────────────────────────────────────────────

/// The library with each album changed by `f`.
pub open spec fn with_albums(lib: Library, f: spec_fn(i64, AlbumFacts) -> AlbumFacts) -> Library {
    Library {
        albums: Map::new(|id: i64| lib.albums.contains_key(id), |id: i64| f(id, lib.albums[id])),
        ..lib
    }
}

/// Whether a statement, by its text, turns one library into the other.
pub open spec fn turns(before: Library, stmt: StatementView, after: Library) -> bool {
    &&& stmt.sql == "CREATE TEMP TABLE IF NOT EXISTS enumerated_paths (path TEXT PRIMARY KEY)"@
        ==> after == before
    &&& stmt.sql == "DELETE FROM enumerated_paths"@ ==> after == (Library {
        seen: Set::empty(),
        ..before
    })
    &&& stmt.sql == "INSERT OR IGNORE INTO enumerated_paths (path) VALUES (?1)"@ ==> (
    stmt.params[0] matches Cell::Text(path) ==> after == (Library {
        seen: before.seen.insert(path),
        ..before
    }))
    &&& stmt.sql == "DELETE FROM tracks WHERE path NOT IN (SELECT path FROM enumerated_paths)"@
        ==> after == (Library {
        tracks: before.tracks.restrict(
            before.tracks.dom().filter(|id: i64| before.seen.contains(before.tracks[id].path)),
        ),
        ..before
    })
    &&& stmt.sql == "DELETE FROM albums WHERE id NOT IN (SELECT DISTINCT album_id FROM tracks)"@
        ==> after == (Library {
        albums: before.albums.restrict(
            before.albums.dom().filter(
                |id: i64| exists|t: i64| #[trigger] tracks_of(before.tracks, id).contains(t),
            ),
        ),
        ..before
    })
    &&& stmt.sql == "UPDATE albums SET \
    track_count = (SELECT COUNT(*) FROM tracks WHERE tracks.album_id = albums.id), \
    total_duration_ms = COALESCE(\
    (SELECT SUM(duration_ms) FROM tracks WHERE tracks.album_id = albums.id), 0)"@ ==> after
        == with_albums(
        before,
        |id: i64, a: AlbumFacts|
            AlbumFacts {
                track_count: tracks_of(before.tracks, id).len() as int,
                total_duration_ms: duration_of(before.tracks, tracks_of(before.tracks, id)),
                ..a
            },
    )
    &&& stmt.sql == "UPDATE albums SET quality = COALESCE((\
    SELECT CASE WHEN COUNT(DISTINCT tier) > 1 THEN 'mixed' ELSE MAX(tier) END FROM (\
    SELECT CASE \
    WHEN codec IN ('flac','alac','pcm') \
    AND (COALESCE(sample_rate,0) > 48000 OR COALESCE(bit_depth,0) > 16) THEN 'hires' \
    WHEN codec IN ('flac','alac','pcm') THEN 'lossless' \
    WHEN codec IN ('mp3','aac') THEN 'lossy' \
    END AS tier FROM tracks \
    WHERE album_id = albums.id AND codec IN ('flac','alac','pcm','mp3','aac'))), 'unknown')"@
        ==> after == with_albums(
        before,
        |id: i64, a: AlbumFacts| AlbumFacts { quality: quality_of(before.tracks, id), ..a },
    )
    &&& stmt.sql == "UPDATE albums SET last_added_at = (\
    SELECT MAX(added_at) FROM tracks WHERE tracks.album_id = albums.id)"@ ==> after
        == with_albums(
        before,
        |id: i64, a: AlbumFacts| AlbumFacts { last_added_at: last_added(before.tracks, id), ..a },
    )
    &&& stmt.sql == "UPDATE albums SET last_played_at = (\
    SELECT MAX(last_played_at) FROM tracks WHERE tracks.album_id = albums.id)"@ ==> after
        == with_albums(
        before,
        |id: i64, a: AlbumFacts| AlbumFacts { last_played_at: last_played(before.tracks, id), ..a },
    )
    &&& stmt.sql
        == "UPDATE tracks SET play_count = play_count + 1, last_played_at = ?1 WHERE id = ?2"@ ==> (
    stmt.params.len() == 2 ==> (stmt.params[0] matches Cell::Integer(now) ==> (
    stmt.params[1] matches Cell::Integer(track) ==> after == (Library {
        tracks: if before.tracks.contains_key(track) {
            before.tracks.insert(
                track,
                TrackFacts {
                    play_count: before.tracks[track].play_count + 1,
                    last_played_at: Some(now),
                    ..before.tracks[track]
                },
            )
        } else {
            before.tracks
        },
        ..before
    }))))
    &&& stmt.sql == "UPDATE albums SET last_played_at = ?1 WHERE id = ?2"@ ==> (
    stmt.params.len() == 2 ==> (stmt.params[0] matches Cell::Integer(now) ==> (
    stmt.params[1] matches Cell::Integer(album) ==> after == (Library {
        albums: if before.albums.contains_key(album) {
            before.albums.insert(
                album,
                AlbumFacts { last_played_at: Some(now), ..before.albums[album] },
            )
        } else {
            before.albums
        },
        ..before
    }))))
}

/// Whether the statements, one after the other, turn the first library into the last.
pub open spec fn turns_by(libs: Seq<Library>, script: Seq<StatementView>) -> bool {
    &&& libs.len() == script.len() + 1
    &&& forall|i: int| 0 <= i < script.len() ==> turns(libs[i], #[trigger] script[i], libs[i + 1])
}

// ── Laws ─────────────────────────────────────────────────────────────────

proof fn lemma_paths_are_noted(paths: Seq<Seq<char>>, libs: Seq<Library>, n: int)
    requires
        turns_by(libs, postprocess_script(paths)),
        0 <= n <= paths.len(),
    ensures
        libs[n + 2].tracks == libs[0].tracks,
        libs[n + 2].albums == libs[0].albums,
        forall|p: Seq<char>| #[trigger]
            libs[n + 2].seen.contains(p) <==> paths.take(n).contains(p),
    decreases n,
{
    let script = postprocess_script(paths);
    assert(script[0] == plain_stmt(crate::db::tracks::TEMP_TABLE_SQL@));
    assert(script[1] == plain_stmt(crate::db::tracks::TEMP_CLEAR_SQL@));
    assert(turns(libs[0], script[0], libs[1]));
    assert(turns(libs[1], script[1], libs[2]));
    if n > 0 {
        lemma_paths_are_noted(paths, libs, n - 1);
        assert(script[n + 1] == temp_insert_stmt(paths[n - 1]));
        assert(turns(libs[n + 1], script[n + 1], libs[n + 2]));
        assert(libs[n + 2].seen == libs[n + 1].seen.insert(paths[n - 1]));
        let now = paths.take(n);
        let before = paths.take(n - 1);
        assert(now =~= before.push(paths[n - 1]));
        assert forall|p: Seq<char>| #[trigger] libs[n + 2].seen.contains(p) <==> now.contains(p) by {
            if now.contains(p) {
                let i = now.lemma_contains_to_index(p);
                assert(i < n - 1 ==> before[i] == p);
            }
            if before.contains(p) {
                let i = before.lemma_contains_to_index(p);
                assert(now[i] == p);
            }
            assert(now[n - 1] == paths[n - 1]);
        }
    } else {
        assert(paths.take(0) =~= Seq::empty());
    }
}

/// The end of a scan keeps the tracks whose paths it came by and drops the others, drops
/// the albums that have no track left, and works out of each album's remaining tracks
/// their number and duration, their quality, and when one was last added and played.
pub proof fn scans_end_with_albums_worked_out(
    paths: &Vec<String>,
    r: Vec<Statement>,
    libs: Seq<Library>,
)
    requires
        call_ensures(postprocess, (paths,), r),
        turns_by(libs, statements_view(r@)),
    ensures
        forall|id: i64| #[trigger]
            libs.last().tracks.contains_key(id) <==> libs[0].tracks.contains_key(id) && texts(
                paths@,
            ).contains(libs[0].tracks[id].path),
        forall|id: i64| #[trigger]
            libs.last().tracks.contains_key(id) ==> libs.last().tracks[id] == libs[0].tracks[id],
        forall|id: i64| #[trigger]
            libs.last().albums.contains_key(id) <==> libs[0].albums.contains_key(id) && exists|
                t: i64,
            | #[trigger]
                libs.last().tracks.contains_key(t) && libs.last().tracks[t].album_id == id,
        forall|id: i64| #[trigger]
            libs.last().albums.contains_key(id) ==> {
                let album = libs.last().albums[id];
                let tracks = libs.last().tracks;
                &&& album.track_count == tracks_of(tracks, id).len()
                &&& album.total_duration_ms == duration_of(tracks, tracks_of(tracks, id))
                &&& album.quality == quality_of(tracks, id)
                &&& album.last_added_at == last_added(tracks, id)
                &&& album.last_played_at == last_played(tracks, id)
            },
{
    let given = texts(paths@);
    let n = given.len() as int;
    let script = postprocess_script(given);
    assert(script == statements_view(r@));
    lemma_paths_are_noted(given, libs, n);
    assert(given.take(n) =~= given);
    assert(script.len() == n + 8);
    assert(script[n + 2] == plain_stmt(crate::db::tracks::DELETE_MISSING_SQL@));
    assert(script[n + 3] == plain_stmt(crate::db::albums::DELETE_ORPHANS_SQL@));
    assert(turns(libs[n + 2], script[n + 2], libs[n + 3]));
    assert(turns(libs[n + 3], script[n + 3], libs[n + 4]));
    assert(turns(libs[n + 4], script[n + 4], libs[n + 5]));
    assert(turns(libs[n + 5], script[n + 5], libs[n + 6]));
    assert(turns(libs[n + 6], script[n + 6], libs[n + 7]));
    assert(turns(libs[n + 7], script[n + 7], libs[n + 8]));
    let end = libs[n + 8];
    assert(libs.last() == end);
    assert(end.tracks == libs[n + 3].tracks);
    assert forall|id: i64| #[trigger] end.albums.contains_key(id) <==> libs[0].albums.contains_key(
        id,
    ) && exists|t: i64| #[trigger] end.tracks.contains_key(t) && end.tracks[t].album_id == id by {
        let kept = libs[n + 4].albums.contains_key(id);
        if kept {
            let t = choose|t: i64| #[trigger] tracks_of(end.tracks, id).contains(t);
            assert(end.tracks.contains_key(t));
        }
        if exists|t: i64| #[trigger] end.tracks.contains_key(t) && end.tracks[t].album_id == id {
            let t = choose|t: i64| #[trigger]
                end.tracks.contains_key(t) && end.tracks[t].album_id == id;
            assert(tracks_of(end.tracks, id).contains(t));
        }
    }
}

/// A play adds one to the plays of its track and sets the time at which the track and its
/// album were last played; every other track and album stays as it is.
pub proof fn plays_are_counted(
    track_id: i64,
    now: i64,
    none: &[Answer],
    one: &[Answer],
    two: &[Answer],
    first: Step<()>,
    second: Step<()>,
    third: Step<()>,
    libs: Seq<Library>,
)
    requires
        call_ensures(bump_play_stats, (track_id, now, none), first),
        call_ensures(bump_play_stats, (track_id, now, one), second),
        call_ensures(bump_play_stats, (track_id, now, two), third),
        none@.len() == 0,
        one@.len() == 1 && one@[0] is Rows,
        two@.len() == 2 && two@[0] is Rows,
        libs.len() == 3,
        libs[0].tracks.contains_key(track_id),
        libs[0].albums.contains_key(libs[0].tracks[track_id].album_id),
        first matches Step::Execute(s) ==> turns(libs[0], s@, libs[1]),
        second matches Step::Query(s) ==> (s@ == (StatementView {
            sql: "SELECT album_id FROM tracks WHERE id = ?1"@,
            params: seq![Cell::Integer(track_id)],
        }) ==> scalar_of(two@[1]@) == Ok::<i64, ErrorView>(libs[1].tracks[track_id].album_id)),
        third matches Step::Execute(s) ==> turns(libs[1], s@, libs[2]),
    ensures
        first is Execute,
        second is Query,
        third is Execute,
        libs[2].tracks.dom() == libs[0].tracks.dom(),
        libs[2].albums.dom() == libs[0].albums.dom(),
        libs[2].tracks[track_id].play_count == libs[0].tracks[track_id].play_count + 1,
        libs[2].tracks[track_id].last_played_at == Some(now),
        libs[2].albums[libs[0].tracks[track_id].album_id].last_played_at == Some(now),
        forall|id: i64| #[trigger]
            libs[0].tracks.contains_key(id) && id != track_id ==> libs[2].tracks[id]
                == libs[0].tracks[id],
        forall|id: i64| #[trigger]
            libs[0].albums.contains_key(id) && id != libs[0].tracks[track_id].album_id
                ==> libs[2].albums[id] == libs[0].albums[id],
{
    assert(answers_view(none@).len() == 0);
    let a = answers_view(one@);
    let b = answers_view(two@);
    assert(a.len() == 1 && a[0] == one@[0]@);
    assert(b.len() == 2 && b[0] == two@[0]@ && b[1] == two@[1]@);
    assert(first@ == StepView::<()>::Execute(count_play_stmt(track_id, now)));
    assert(second@ == StepView::<()>::Query(album_of_stmt(track_id)));
    assert(libs[2].tracks.dom() =~= libs[0].tracks.dom());
    assert(libs[2].albums.dom() =~= libs[0].albums.dom());
}

} // verus!
