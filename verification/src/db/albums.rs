//! The albums table.

use vstd::prelude::*;

use crate::db::query::{
    answers_view, asked_once, bound, cells, changed_once, changes, check, found_text,
    opt_text_cell, opt_text_param, optional_text, plain, plain_stmt, ran, scalar, scalar_of,
    step_as, text_param, touched, Answer, AnswerView, Cell, SqlValue, Statement, StatementView,
    Step,
};
use crate::normalize::{for_search, search_form};
use crate::text::{opt_str, opt_text};

verus! {

/// What makes an album: two tracks with the same key are on the same album.
pub struct AlbumKey<'a> {
    pub effective_album_artist: &'a str,
    pub album: &'a str,
    pub compilation: bool,
}

pub const UPSERT_SQL: &'static str = "INSERT INTO albums (\
    effective_album_artist, album, compilation, album_artist_raw, first_seen_at, \
    album_norm, effective_album_artist_norm) \
    VALUES (?1, ?2, ?3, ?4, ?5, ?6, ?7) \
    ON CONFLICT(effective_album_artist, album, compilation) DO UPDATE SET \
    album_artist_raw = excluded.album_artist_raw, \
    album_norm = excluded.album_norm, \
    effective_album_artist_norm = excluded.effective_album_artist_norm \
    RETURNING id";

pub const REPRESENTATIVE_SQL: &'static str = "SELECT path FROM tracks WHERE album_id = ?1 \
    ORDER BY disc_num, track_num, path LIMIT 1";

pub const DELETE_ORPHANS_SQL: &'static str =
    "DELETE FROM albums WHERE id NOT IN (SELECT DISTINCT album_id FROM tracks)";

pub const RECALC_QUALITY_SQL: &'static str = "UPDATE albums SET quality = COALESCE((\
    SELECT CASE WHEN COUNT(DISTINCT tier) > 1 THEN 'mixed' ELSE MAX(tier) END FROM (\
    SELECT CASE \
    WHEN codec IN ('flac','alac','pcm') \
    AND (COALESCE(sample_rate,0) > 48000 OR COALESCE(bit_depth,0) > 16) THEN 'hires' \
    WHEN codec IN ('flac','alac','pcm') THEN 'lossless' \
    WHEN codec IN ('mp3','aac') THEN 'lossy' \
    END AS tier FROM tracks \
    WHERE album_id = albums.id AND codec IN ('flac','alac','pcm','mp3','aac'))), 'unknown')";

pub const RECALC_COUNTS_SQL: &'static str = "UPDATE albums SET \
    track_count = (SELECT COUNT(*) FROM tracks WHERE tracks.album_id = albums.id), \
    total_duration_ms = COALESCE(\
    (SELECT SUM(duration_ms) FROM tracks WHERE tracks.album_id = albums.id), 0)";

pub const RECALC_LAST_ADDED_SQL: &'static str = "UPDATE albums SET last_added_at = (\
    SELECT MAX(added_at) FROM tracks WHERE tracks.album_id = albums.id)";

pub const RECALC_LAST_PLAYED_SQL: &'static str = "UPDATE albums SET last_played_at = (\
    SELECT MAX(last_played_at) FROM tracks WHERE tracks.album_id = albums.id)";

pub const BUMP_LAST_PLAYED_SQL: &'static str =
    "UPDATE albums SET last_played_at = ?1 WHERE id = ?2";

/// A truth value as the database keeps it.
pub open spec fn flag_cell(b: bool) -> Cell {
    Cell::Integer(
        if b {
            1
        } else {
            0
        },
    )
}

/// The album with its search forms. What is there already keeps its id and the
/// time it was first seen.
pub open spec fn upsert_stmt(
    artist: Seq<char>,
    album: Seq<char>,
    compilation: bool,
    raw: Option<Seq<char>>,
    first_seen_at: i64,
) -> StatementView {
    StatementView {
        sql: UPSERT_SQL@,
        params: seq![
            Cell::Text(artist),
            Cell::Text(album),
            flag_cell(compilation),
            opt_text_cell(raw),
            Cell::Integer(first_seen_at),
            Cell::Text(search_form(album)),
            Cell::Text(search_form(artist)),
        ],
    }
}

pub fn upsert_statement(key: &AlbumKey, album_artist_raw: Option<&str>, first_seen_at: i64) -> (r:
    Statement)
    ensures
        r@ == upsert_stmt(
            key.effective_album_artist@,
            key.album@,
            key.compilation,
            opt_str(album_artist_raw),
            first_seen_at,
        ),
{
    let album_norm = for_search(key.album);
    let artist_norm = for_search(key.effective_album_artist);
    let params = vec![
        text_param(key.effective_album_artist),
        text_param(key.album),
        SqlValue::Integer(if key.compilation { 1 } else { 0 }),
        opt_text_param(album_artist_raw),
        SqlValue::Integer(first_seen_at),
        SqlValue::Text(album_norm),
        SqlValue::Text(artist_norm),
    ];
    assert(cells(params@) =~= upsert_stmt(
        key.effective_album_artist@,
        key.album@,
        key.compilation,
        opt_str(album_artist_raw),
        first_seen_at,
    ).params);
    bound(UPSERT_SQL, params)
}

/// Find or make the album with the given key. The result is its id.
pub fn upsert(
    key: &AlbumKey,
    album_artist_raw: Option<&str>,
    first_seen_at: i64,
    answers: &[Answer],
) -> (r: Step<i64>)
    ensures
        r@ == asked_once(
            upsert_stmt(
                key.effective_album_artist@,
                key.album@,
                key.compilation,
                opt_str(album_artist_raw),
                first_seen_at,
            ),
            answers_view(answers@),
            |a: AnswerView| scalar_of(a),
        ),
{
    if answers.len() == 0 {
        return Step::Query(upsert_statement(key, album_artist_raw, first_seen_at));
    }
    Step::Done(scalar(&answers[0]))
}

/// The track whose file is searched for the album's cover: the first by disc,
/// number and path. The result is its path.
pub fn get_representative_track_path(album_id: i64, answers: &[Answer]) -> (r: Step<
    Option<String>,
>)
    ensures
        step_as(r, |o: Option<String>| opt_text(o)) == asked_once(
            StatementView { sql: REPRESENTATIVE_SQL@, params: seq![Cell::Integer(album_id)] },
            answers_view(answers@),
            |a: AnswerView| found_text(a),
        ),
{
    if answers.len() == 0 {
        let params = vec![SqlValue::Integer(album_id)];
        assert(cells(params@) =~= seq![Cell::Integer(album_id)]);
        return Step::Query(bound(REPRESENTATIVE_SQL, params));
    }
    Step::Done(optional_text(&answers[0]))
}

/// Drop albums that have no track left. The result is their number.
pub fn delete_orphans(answers: &[Answer]) -> (r: Step<usize>)
    ensures
        r@ == changed_once(
            plain_stmt(DELETE_ORPHANS_SQL@),
            answers_view(answers@),
            |a: AnswerView| touched(a),
        ),
{
    if answers.len() == 0 {
        return Step::Execute(plain(DELETE_ORPHANS_SQL));
    }
    Step::Done(changes(&answers[0]))
}

/// Run one statement that takes no parameters.
fn run_plain(sql: &str, answers: &[Answer]) -> (r: Step<()>)
    ensures
        r@ == changed_once(plain_stmt(sql@), answers_view(answers@), |a: AnswerView| ran(a)),
{
    if answers.len() == 0 {
        return Step::Execute(plain(sql));
    }
    Step::Done(check(&answers[0]))
}

/// Work out every album's quality from its tracks: the tier they share, `mixed`
/// where they differ, `unknown` where none is known.
pub fn recalc_quality(answers: &[Answer]) -> (r: Step<()>)
    ensures
        r@ == changed_once(
            plain_stmt(RECALC_QUALITY_SQL@),
            answers_view(answers@),
            |a: AnswerView| ran(a),
        ),
{
    run_plain(RECALC_QUALITY_SQL, answers)
}

/// Count every album's tracks and add up their duration.
pub fn recalc_counts(answers: &[Answer]) -> (r: Step<()>)
    ensures
        r@ == changed_once(
            plain_stmt(RECALC_COUNTS_SQL@),
            answers_view(answers@),
            |a: AnswerView| ran(a),
        ),
{
    run_plain(RECALC_COUNTS_SQL, answers)
}

/// Work out when each album was last added to.
pub fn recalc_last_added_at(answers: &[Answer]) -> (r: Step<()>)
    ensures
        r@ == changed_once(
            plain_stmt(RECALC_LAST_ADDED_SQL@),
            answers_view(answers@),
            |a: AnswerView| ran(a),
        ),
{
    run_plain(RECALC_LAST_ADDED_SQL, answers)
}

/// Work out when each album was last played.
pub fn recalc_last_played_at(answers: &[Answer]) -> (r: Step<()>)
    ensures
        r@ == changed_once(
            plain_stmt(RECALC_LAST_PLAYED_SQL@),
            answers_view(answers@),
            |a: AnswerView| ran(a),
        ),
{
    run_plain(RECALC_LAST_PLAYED_SQL, answers)
}

pub open spec fn bump_stmt(album_id: i64, now: i64) -> StatementView {
    StatementView {
        sql: BUMP_LAST_PLAYED_SQL@,
        params: seq![Cell::Integer(now), Cell::Integer(album_id)],
    }
}

/// The album was played at `now`.
pub fn bump_album_last_played_at(album_id: i64, now: i64, answers: &[Answer]) -> (r: Step<()>)
    ensures
        r@ == changed_once(
            bump_stmt(album_id, now),
            answers_view(answers@),
            |a: AnswerView| ran(a),
        ),
{
    if answers.len() == 0 {
        let params = vec![SqlValue::Integer(now), SqlValue::Integer(album_id)];
        assert(cells(params@) =~= bump_stmt(album_id, now).params);
        return Step::Execute(bound(BUMP_LAST_PLAYED_SQL, params));
    }
    Step::Done(check(&answers[0]))
}

} // verus!
