use std::collections::HashSet;

use revolver::config::{default_top_level, Browse, Config, Library, Scan, Server};
use revolver::config_catalog::{
    build_browse_settings, effective_value, precompute_defaults, DefaultsMap,
};
use revolver::db::albums::{self, AlbumKey};
use revolver::db::config_overrides;
use revolver::db::query::{Answer, SqlValue, Statement, Step};
use revolver::db::schema::{
    self, backfill, ensure_column, record_version, Task, SCHEMA_VERSION,
};
use revolver::db::state_kv;
use revolver::db::tracks::{self, Mtimes, TrackRow, UpsertOutcome};
use revolver::db::udf::jaccard_trigram;
use revolver::error::{Error, SqliteError};
use revolver::http::admin_config::{get_config, post_config, Change, ConfigUpdateError};
use revolver::http::admin::{self, ArtCacheStats, LastScan, ServerFacts};
use revolver::http::stream::bump_play_stats;
use revolver::identity::establish;
use revolver::json::JsonValue;
use revolver::random::RandomState;
use revolver::scan::report::ScanReport;
use revolver::scan::schedule::{schedule, Task as ScanTask};
use revolver::scan::tagger::TrackTags;
use revolver::scan::walker::WalkResult;
use revolver::scan::{
    complete, dropped, ingest, postprocess, settle_update_id, survey, EnumeratedTrack,
    ScanFindings, TaggedTrack, COUNT_ALBUMS_SQL,
};
use revolver::state::BrowseSettings;
use revolver::upnp::object_id::{encode, ObjectId};
use rusqlite::functions::FunctionFlags;
use rusqlite::types::{Value, ValueRef};
use rusqlite::{params_from_iter, Connection};
use serde_json::Value as Json;

fn to_sqlite(value: &SqlValue) -> Value {
    match value {
        SqlValue::Null => Value::Null,
        SqlValue::Integer(n) => Value::Integer(*n),
        SqlValue::Text(s) => Value::Text(s.clone()),
        SqlValue::Real | SqlValue::Blob | SqlValue::Garbled(_) => Value::Null,
    }
}

fn from_sqlite(value: ValueRef<'_>) -> SqlValue {
    match value {
        ValueRef::Null => SqlValue::Null,
        ValueRef::Integer(n) => SqlValue::Integer(n),
        ValueRef::Text(bytes) => match std::str::from_utf8(bytes) {
            Ok(s) => SqlValue::Text(s.to_string()),
            Err(e) => SqlValue::Garbled(e.to_string()),
        },
        ValueRef::Real(_) => SqlValue::Real,
        ValueRef::Blob(_) => SqlValue::Blob,
    }
}

fn failed(e: rusqlite::Error) -> Answer {
    Answer::Failed(SqliteError::Failure(e.to_string()))
}

fn ask(conn: &Connection, s: &Statement) -> rusqlite::Result<Answer> {
    let mut stmt = conn.prepare(&s.sql)?;
    let columns: Vec<String> = stmt.column_names().iter().map(|n| n.to_string()).collect();
    let mut found = stmt.query(params_from_iter(s.params.iter().map(to_sqlite)))?;
    let mut rows = Vec::new();
    while let Some(row) = found.next()? {
        let mut cells = Vec::new();
        for i in 0..columns.len() {
            cells.push(from_sqlite(row.get_ref(i)?));
        }
        rows.push(cells);
    }
    Ok(Answer::Rows(rows, columns))
}

fn change(conn: &Connection, s: &Statement) -> Answer {
    match conn.execute(&s.sql, params_from_iter(s.params.iter().map(to_sqlite))) {
        Ok(n) => Answer::Rows(vec![vec![SqlValue::Integer(n as i64)]], Vec::new()),
        Err(e) => failed(e),
    }
}

fn run<T>(conn: &Connection, mut work: impl FnMut(&[Answer]) -> Step<T>) -> Result<T, Error> {
    let mut answers: Vec<Answer> = Vec::new();
    loop {
        match work(&answers) {
            Step::Query(s) => answers.push(match ask(conn, &s) {
                Ok(answer) => answer,
                Err(e) => failed(e),
            }),
            Step::Execute(s) => answers.push(change(conn, &s)),
            Step::Batch(sql) => answers.push(match conn.execute_batch(sql) {
                Ok(()) => Answer::Rows(Vec::new(), Vec::new()),
                Err(e) => failed(e),
            }),
            Step::Done(result) => return result,
        }
    }
}

fn ratio(a: &str, b: &str) -> f64 {
    let s = jaccard_trigram(a, b);
    if s.total == 0 {
        0.0
    } else {
        s.shared as f64 / s.total as f64
    }
}

fn register(conn: &Connection) -> rusqlite::Result<()> {
    conn.create_scalar_function(
        "jaccard_trigram",
        2,
        FunctionFlags::SQLITE_UTF8 | FunctionFlags::SQLITE_DETERMINISTIC,
        |ctx| {
            let a: Option<String> = ctx.get(0)?;
            let b: Option<String> = ctx.get(1)?;
            match (a, b) {
                (Some(a), Some(b)) => Ok(ratio(&a, &b)),
                _ => Ok(0.0),
            }
        },
    )
}

fn migrate(conn: &Connection) -> Result<(), Error> {
    for task in schema::migrate() {
        match task {
            Task::Script(sql) => conn.execute_batch(sql).unwrap(),
            Task::Column(c) => {
                run(conn, |a| ensure_column(c.table, c.column, c.definition, a))?;
            }
            Task::Run(sql) => {
                conn.execute(sql, []).unwrap();
            }
            Task::Backfill(table) => {
                for s in run(conn, |a| backfill(table, a))? {
                    assert!(matches!(change(conn, &s), Answer::Rows(..)));
                }
            }
            Task::RegisterFunctions => register(conn).unwrap(),
            Task::RecordVersion => {
                assert!(matches!(change(conn, &record_version()), Answer::Rows(..)));
            }
        }
    }
    Ok(())
}

fn open() -> Connection {
    let conn = Connection::open_in_memory().unwrap();
    migrate(&conn).unwrap();
    conn
}

fn open_with_fk() -> Connection {
    let conn = Connection::open_in_memory().unwrap();
    conn.execute_batch("PRAGMA foreign_keys = ON;").unwrap();
    migrate(&conn).unwrap();
    conn
}

// ── Albums ───────────────────────────────────────────────────────────────

fn upsert_album(
    conn: &Connection,
    key: &AlbumKey,
    raw: Option<&str>,
    first_seen_at: i64,
) -> Result<i64, Error> {
    run(conn, |a| albums::upsert(key, raw, first_seen_at, a))
}

fn delete_orphans(conn: &Connection) -> Result<usize, Error> {
    run(conn, albums::delete_orphans)
}

fn recalc_counts(conn: &Connection) -> Result<(), Error> {
    run(conn, albums::recalc_counts)
}

fn recalc_quality(conn: &Connection) -> Result<(), Error> {
    run(conn, albums::recalc_quality)
}

fn recalc_last_added_at(conn: &Connection) -> Result<(), Error> {
    run(conn, albums::recalc_last_added_at)
}

fn bump_album_last_played_at(conn: &Connection, id: i64, now: i64) -> Result<(), Error> {
    run(conn, |a| albums::bump_album_last_played_at(id, now, a))
}

fn get_representative_track_path(conn: &Connection, id: i64) -> Result<Option<String>, Error> {
    run(conn, |a| albums::get_representative_track_path(id, a))
}

#[test]
fn a1_insert_returns_positive_id() {
    let conn = open();
    let id = upsert_album(
        &conn,
        &AlbumKey {
            effective_album_artist: "AA",
            album: "Alb",
            compilation: false,
        },
        Some("AA"),
        100,
    )
    .unwrap();
    assert!(id > 0);
}

#[test]
fn a2_same_key_returns_same_id() {
    let conn = open();
    let id1 = upsert_album(
        &conn,
        &AlbumKey {
            effective_album_artist: "AA",
            album: "Alb",
            compilation: false,
        },
        Some("AA"),
        100,
    )
    .unwrap();
    let id2 = upsert_album(
        &conn,
        &AlbumKey {
            effective_album_artist: "AA",
            album: "Alb",
            compilation: false,
        },
        Some("AA-updated"),
        200,
    )
    .unwrap();
    assert_eq!(id1, id2);
}

#[test]
fn a3_compilation_flag_differentiates_albums() {
    let conn = open();
    let id1 = upsert_album(
        &conn,
        &AlbumKey {
            effective_album_artist: "Various Artists",
            album: "Hits",
            compilation: true,
        },
        None,
        100,
    )
    .unwrap();
    let id2 = upsert_album(
        &conn,
        &AlbumKey {
            effective_album_artist: "Various Artists",
            album: "Hits",
            compilation: false,
        },
        None,
        100,
    )
    .unwrap();
    assert_ne!(id1, id2);
}

fn insert_track(conn: &Connection, album_id: i64, path: &str, duration_ms: i64) {
    conn.execute(
        "INSERT INTO tracks
           (album_id, path, duration_ms, added_at, mtime, codec, mime_type, file_size)
         VALUES (?1, ?2, ?3, 0, 0, 'flac', 'audio/flac', 0)",
        (album_id, path, duration_ms),
    )
    .unwrap();
}

#[test]
fn o1_delete_orphans_removes_albums_without_tracks() {
    let conn = open();
    let with_tracks = upsert_album(
        &conn,
        &AlbumKey {
            effective_album_artist: "AA",
            album: "Has",
            compilation: false,
        },
        None,
        0,
    )
    .unwrap();
    let orphan = upsert_album(
        &conn,
        &AlbumKey {
            effective_album_artist: "AA",
            album: "Empty",
            compilation: false,
        },
        None,
        0,
    )
    .unwrap();
    insert_track(&conn, with_tracks, "/m/a.flac", 1000);

    let deleted = delete_orphans(&conn).unwrap();
    assert_eq!(deleted, 1);

    let exists: i64 = conn
        .query_row(
            "SELECT COUNT(*) FROM albums WHERE id = ?1",
            [with_tracks],
            |r| r.get(0),
        )
        .unwrap();
    assert_eq!(exists, 1, "album with tracks must survive");

    let gone: i64 = conn
        .query_row(
            "SELECT COUNT(*) FROM albums WHERE id = ?1",
            [orphan],
            |r| r.get(0),
        )
        .unwrap();
    assert_eq!(gone, 0, "orphan album must be gone");
}

#[test]
fn o2_delete_orphans_keeps_everything_when_all_have_tracks() {
    let conn = open();
    let aid = upsert_album(
        &conn,
        &AlbumKey {
            effective_album_artist: "AA",
            album: "Alb",
            compilation: false,
        },
        None,
        0,
    )
    .unwrap();
    insert_track(&conn, aid, "/m/a.flac", 1000);

    let deleted = delete_orphans(&conn).unwrap();
    assert_eq!(deleted, 0);
}

#[test]
fn r1_recalc_counts_sets_track_count() {
    let conn = open();
    let aid = upsert_album(
        &conn,
        &AlbumKey {
            effective_album_artist: "AA",
            album: "Alb",
            compilation: false,
        },
        None,
        0,
    )
    .unwrap();
    insert_track(&conn, aid, "/m/a.flac", 1000);
    insert_track(&conn, aid, "/m/b.flac", 2000);

    recalc_counts(&conn).unwrap();

    let count: i64 = conn
        .query_row(
            "SELECT track_count FROM albums WHERE id = ?1",
            [aid],
            |r| r.get(0),
        )
        .unwrap();
    assert_eq!(count, 2);
}

#[test]
fn r2_recalc_counts_sets_total_duration_ms() {
    let conn = open();
    let aid = upsert_album(
        &conn,
        &AlbumKey {
            effective_album_artist: "AA",
            album: "Alb",
            compilation: false,
        },
        None,
        0,
    )
    .unwrap();
    insert_track(&conn, aid, "/m/a.flac", 1000);
    insert_track(&conn, aid, "/m/b.flac", 2500);

    recalc_counts(&conn).unwrap();

    let total: i64 = conn
        .query_row(
            "SELECT total_duration_ms FROM albums WHERE id = ?1",
            [aid],
            |r| r.get(0),
        )
        .unwrap();
    assert_eq!(total, 3500);
}

fn insert_track_with_audio(
    conn: &Connection,
    album_id: i64,
    path: &str,
    codec: &str,
    sample_rate: u32,
    bit_depth: u32,
) {
    conn.execute(
        "INSERT INTO tracks
           (album_id, path, codec, sample_rate, bit_depth, duration_ms,
            added_at, mtime, mime_type, file_size)
         VALUES (?1, ?2, ?3, ?4, ?5, 0, 0, 0, 'x', 0)",
        (album_id, path, codec, sample_rate, bit_depth),
    )
    .unwrap();
}

fn quality_of(conn: &Connection, album_id: i64) -> String {
    conn.query_row(
        "SELECT quality FROM albums WHERE id = ?1",
        [album_id],
        |r| r.get(0),
    )
    .unwrap()
}

#[test]
fn q1_all_lossless_cd_quality_is_lossless() {
    let conn = open();
    let aid = upsert_album(
        &conn,
        &AlbumKey {
            effective_album_artist: "AA",
            album: "CD",
            compilation: false,
        },
        None,
        0,
    )
    .unwrap();
    insert_track_with_audio(&conn, aid, "/m/a.flac", "flac", 44100, 16);
    insert_track_with_audio(&conn, aid, "/m/b.flac", "flac", 44100, 16);
    recalc_quality(&conn).unwrap();
    assert_eq!(quality_of(&conn, aid), "lossless");
}

#[test]
fn q2_all_hires_24_96_quality_is_hires() {
    let conn = open();
    let aid = upsert_album(
        &conn,
        &AlbumKey {
            effective_album_artist: "AA",
            album: "HD",
            compilation: false,
        },
        None,
        0,
    )
    .unwrap();
    insert_track_with_audio(&conn, aid, "/m/a.flac", "flac", 96000, 24);
    insert_track_with_audio(&conn, aid, "/m/b.flac", "flac", 96000, 24);
    recalc_quality(&conn).unwrap();
    assert_eq!(quality_of(&conn, aid), "hires");
}

#[test]
fn q3_all_mp3_quality_is_lossy() {
    let conn = open();
    let aid = upsert_album(
        &conn,
        &AlbumKey {
            effective_album_artist: "AA",
            album: "Pop",
            compilation: false,
        },
        None,
        0,
    )
    .unwrap();
    insert_track_with_audio(&conn, aid, "/m/a.mp3", "mp3", 44100, 0);
    insert_track_with_audio(&conn, aid, "/m/b.mp3", "mp3", 44100, 0);
    recalc_quality(&conn).unwrap();
    assert_eq!(quality_of(&conn, aid), "lossy");
}

#[test]
fn q4_flac_plus_mp3_is_mixed() {
    let conn = open();
    let aid = upsert_album(
        &conn,
        &AlbumKey {
            effective_album_artist: "AA",
            album: "Bonus",
            compilation: false,
        },
        None,
        0,
    )
    .unwrap();
    insert_track_with_audio(&conn, aid, "/m/a.flac", "flac", 44100, 16);
    insert_track_with_audio(&conn, aid, "/m/b.mp3", "mp3", 44100, 0);
    recalc_quality(&conn).unwrap();
    assert_eq!(quality_of(&conn, aid), "mixed");
}

#[test]
fn q5_hires_plus_lossless_is_mixed() {
    // A mix of 24/96 and 16/44.1 is also `mixed` (remaster-mixed releases)
    let conn = open();
    let aid = upsert_album(
        &conn,
        &AlbumKey {
            effective_album_artist: "AA",
            album: "Mix",
            compilation: false,
        },
        None,
        0,
    )
    .unwrap();
    insert_track_with_audio(&conn, aid, "/m/a.flac", "flac", 96000, 24);
    insert_track_with_audio(&conn, aid, "/m/b.flac", "flac", 44100, 16);
    recalc_quality(&conn).unwrap();
    assert_eq!(quality_of(&conn, aid), "mixed");
}

#[test]
fn q6_unknown_codec_only_falls_back_to_unknown() {
    let conn = open();
    let aid = upsert_album(
        &conn,
        &AlbumKey {
            effective_album_artist: "AA",
            album: "Weird",
            compilation: false,
        },
        None,
        0,
    )
    .unwrap();
    insert_track_with_audio(&conn, aid, "/m/a.dsf", "dsf", 0, 0);
    recalc_quality(&conn).unwrap();
    assert_eq!(quality_of(&conn, aid), "unknown");
}

#[test]
fn rep1_get_representative_track_path_returns_lowest_disc_track() {
    let (conn, aid) = {
        let conn = Connection::open_in_memory().unwrap();
        migrate(&conn).unwrap();
        let aid = upsert_album(
            &conn,
            &AlbumKey {
                effective_album_artist: "AA",
                album: "Alb",
                compilation: false,
            },
            None,
            0,
        )
        .unwrap();
        (conn, aid)
    };
    // Insert disc=1 track=2 / disc=1 track=1 / disc=2 track=1
    conn.execute(
        "INSERT INTO tracks (album_id, path, disc_num, track_num, duration_ms,
                             added_at, mtime, codec, mime_type, file_size)
         VALUES (?1, '/m/d2t1.flac', 2, 1, 0, 0, 0, 'flac', 'audio/flac', 0)",
        [aid],
    )
    .unwrap();
    conn.execute(
        "INSERT INTO tracks (album_id, path, disc_num, track_num, duration_ms,
                             added_at, mtime, codec, mime_type, file_size)
         VALUES (?1, '/m/d1t2.flac', 1, 2, 0, 0, 0, 'flac', 'audio/flac', 0)",
        [aid],
    )
    .unwrap();
    conn.execute(
        "INSERT INTO tracks (album_id, path, disc_num, track_num, duration_ms,
                             added_at, mtime, codec, mime_type, file_size)
         VALUES (?1, '/m/d1t1.flac', 1, 1, 0, 0, 0, 'flac', 'audio/flac', 0)",
        [aid],
    )
    .unwrap();
    let p = get_representative_track_path(&conn, aid).unwrap().unwrap();
    assert_eq!(p, "/m/d1t1.flac");
}

#[test]
fn rep2_get_representative_track_path_unknown_album_returns_none() {
    let conn = open();
    assert!(get_representative_track_path(&conn, 9999)
        .unwrap()
        .is_none());
}

#[test]
fn la1_recalc_last_added_at_uses_max_of_tracks() {
    let conn = open();
    let aid = upsert_album(
        &conn,
        &AlbumKey {
            effective_album_artist: "AA",
            album: "Alb",
            compilation: false,
        },
        None,
        0,
    )
    .unwrap();
    // 3 tracks with added_at = 100, 500, 300
    for (path, added) in [("/m/a.flac", 100i64), ("/m/b.flac", 500), ("/m/c.flac", 300)] {
        conn.execute(
            "INSERT INTO tracks (album_id, path, added_at, mtime, codec, mime_type, file_size,
                                 duration_ms)
             VALUES (?1, ?2, ?3, 0, 'flac', 'audio/flac', 0, 0)",
            (aid, path, added),
        )
        .unwrap();
    }
    recalc_last_added_at(&conn).unwrap();
    let max: i64 = conn
        .query_row(
            "SELECT last_added_at FROM albums WHERE id = ?1",
            [aid],
            |r| r.get(0),
        )
        .unwrap();
    assert_eq!(max, 500);
}

#[test]
fn la2_recalc_last_added_at_is_null_for_album_without_tracks() {
    let conn = open();
    let aid = upsert_album(
        &conn,
        &AlbumKey {
            effective_album_artist: "AA",
            album: "Empty",
            compilation: false,
        },
        None,
        0,
    )
    .unwrap();
    recalc_last_added_at(&conn).unwrap();
    let v: Option<i64> = conn
        .query_row(
            "SELECT last_added_at FROM albums WHERE id = ?1",
            [aid],
            |r| r.get(0),
        )
        .unwrap();
    assert!(v.is_none());
}

#[test]
fn lp1_bump_album_last_played_at_sets_value() {
    let conn = open();
    let aid = upsert_album(
        &conn,
        &AlbumKey {
            effective_album_artist: "AA",
            album: "Alb",
            compilation: false,
        },
        None,
        0,
    )
    .unwrap();
    bump_album_last_played_at(&conn, aid, 9999).unwrap();
    let v: i64 = conn
        .query_row(
            "SELECT last_played_at FROM albums WHERE id = ?1",
            [aid],
            |r| r.get(0),
        )
        .unwrap();
    assert_eq!(v, 9999);
}

// ── ObjectID stability: re-upsert with the same key keeps the id
#[test]
fn os1_album_and_track_ids_stable_across_rescan() {
    let conn = open();
    let key = AlbumKey {
        effective_album_artist: "AA",
        album: "Alb",
        compilation: false,
    };
    let aid1 = upsert_album(&conn, &key, None, 100).unwrap();
    conn.execute(
        "INSERT INTO tracks (album_id, path, added_at, mtime, codec, mime_type, file_size,
                             duration_ms)
         VALUES (?1, '/m/stable.flac', 100, 100, 'flac', 'audio/flac', 0, 0)
         ON CONFLICT(path) DO UPDATE SET mtime = excluded.mtime",
        [aid1],
    )
    .unwrap();
    let tid1: i64 = conn
        .query_row(
            "SELECT id FROM tracks WHERE path = '/m/stable.flac'",
            [],
            |r| r.get(0),
        )
        .unwrap();

    // Simulate a second rescan
    let aid2 = upsert_album(&conn, &key, None, 999).unwrap();
    conn.execute(
        "INSERT INTO tracks (album_id, path, added_at, mtime, codec, mime_type, file_size,
                             duration_ms)
         VALUES (?1, '/m/stable.flac', 100, 200, 'flac', 'audio/flac', 0, 0)
         ON CONFLICT(path) DO UPDATE SET mtime = excluded.mtime",
        [aid2],
    )
    .unwrap();
    let tid2: i64 = conn
        .query_row(
            "SELECT id FROM tracks WHERE path = '/m/stable.flac'",
            [],
            |r| r.get(0),
        )
        .unwrap();

    assert_eq!(aid1, aid2, "album.id must survive rescan (ObjectId alb:N)");
    assert_eq!(tid1, tid2, "track.id must survive rescan (ObjectId trk:N)");

    // The ids under which both are browsed stay the same too.
    assert_eq!(
        encode(&ObjectId::Album(aid1)),
        encode(&ObjectId::Album(aid2))
    );
    assert_eq!(
        encode(&ObjectId::Track(tid1)),
        encode(&ObjectId::Track(tid2))
    );
}

#[test]
fn a4_first_seen_at_is_preserved_across_upserts() {
    let conn = open();
    upsert_album(
        &conn,
        &AlbumKey {
            effective_album_artist: "AA",
            album: "Alb",
            compilation: false,
        },
        None,
        100,
    )
    .unwrap();
    upsert_album(
        &conn,
        &AlbumKey {
            effective_album_artist: "AA",
            album: "Alb",
            compilation: false,
        },
        None,
        999,
    )
    .unwrap();
    let first_seen: i64 = conn
        .query_row(
            "SELECT first_seen_at FROM albums WHERE album = 'Alb'",
            [],
            |row| row.get(0),
        )
        .unwrap();
    assert_eq!(
        first_seen, 100,
        "first_seen_at must not be overwritten on conflict"
    );
}

// ── State ────────────────────────────────────────────────────────────────

fn get_state(conn: &Connection, key: &str) -> Result<Option<String>, Error> {
    run(conn, |a| state_kv::get(key, a))
}

fn set_state(conn: &Connection, key: &str, value: &str) -> Result<(), Error> {
    run(conn, |a| state_kv::set(key, value, a))
}

#[test]
fn k1_get_missing_returns_none() {
    let conn = open();
    assert_eq!(get_state(&conn, "nope").unwrap(), None);
}

#[test]
fn k2_set_then_get() {
    let conn = open();
    set_state(&conn, "uuid", "abc").unwrap();
    assert_eq!(get_state(&conn, "uuid").unwrap().as_deref(), Some("abc"));
}

#[test]
fn k3_set_overwrites() {
    let conn = open();
    set_state(&conn, "k", "v1").unwrap();
    set_state(&conn, "k", "v2").unwrap();
    assert_eq!(get_state(&conn, "k").unwrap().as_deref(), Some("v2"));
}

// ── Saved settings ───────────────────────────────────────────────────────

fn get_override(conn: &Connection, key: &str) -> Result<Option<String>, Error> {
    run(conn, |a| config_overrides::get(key, a))
}

fn set_override(conn: &Connection, key: &str, value: &str, now: i64) -> Result<(), Error> {
    run(conn, |a| config_overrides::set(key, value, now, a))
}

fn delete_override(conn: &Connection, key: &str) -> Result<bool, Error> {
    run(conn, |a| config_overrides::delete(key, a))
}

fn list_overrides(conn: &Connection) -> Result<Vec<(String, String)>, Error> {
    run(conn, config_overrides::list_all)
}

#[test]
fn co1_get_missing_returns_none() {
    let conn = open();
    assert_eq!(get_override(&conn, "browse.recently_added_limit").unwrap(), None);
}

#[test]
fn co2_set_then_get() {
    let conn = open();
    set_override(&conn, "browse.recently_added_limit", "75", 100).unwrap();
    assert_eq!(
        get_override(&conn, "browse.recently_added_limit")
            .unwrap()
            .as_deref(),
        Some("75")
    );
}

#[test]
fn co3_set_overwrites_and_updates_timestamp() {
    let conn = open();
    set_override(&conn, "k", "v1", 100).unwrap();
    set_override(&conn, "k", "v2", 200).unwrap();
    assert_eq!(get_override(&conn, "k").unwrap().as_deref(), Some("v2"));
    let updated_at: i64 = conn
        .query_row(
            "SELECT updated_at FROM config_overrides WHERE key = 'k'",
            [],
            |r| r.get(0),
        )
        .unwrap();
    assert_eq!(updated_at, 200);
}

#[test]
fn co4_delete_returns_true_when_present() {
    let conn = open();
    set_override(&conn, "k", "v", 0).unwrap();
    assert!(delete_override(&conn, "k").unwrap());
    assert_eq!(get_override(&conn, "k").unwrap(), None);
}

#[test]
fn co5_delete_returns_false_when_missing() {
    let conn = open();
    assert!(!delete_override(&conn, "nope").unwrap());
}

#[test]
fn co6_list_all_returns_all_rows() {
    let conn = open();
    set_override(&conn, "a", "1", 0).unwrap();
    set_override(&conn, "b", "2", 0).unwrap();
    let mut rows = list_overrides(&conn).unwrap();
    rows.sort();
    assert_eq!(
        rows,
        vec![
            ("a".to_string(), "1".to_string()),
            ("b".to_string(), "2".to_string())
        ]
    );
}

// ── Tracks ───────────────────────────────────────────────────────────────

fn open_with_album() -> (Connection, i64) {
    let conn = open_with_fk();
    let aid = upsert_album(
        &conn,
        &AlbumKey {
            effective_album_artist: "AA",
            album: "Alb",
            compilation: false,
        },
        None,
        100,
    )
    .unwrap();
    (conn, aid)
}

fn upsert_track(conn: &Connection, row: &TrackRow) -> Result<UpsertOutcome, Error> {
    run(conn, |a| tracks::upsert(row, a))
}

fn detect_deleted(conn: &Connection, enumerated: &HashSet<&str>) -> Result<i64, Error> {
    let paths: Vec<String> = enumerated.iter().map(|p| p.to_string()).collect();
    let mut touched = 0;
    for s in tracks::detect_deleted(&paths) {
        match change(conn, &s) {
            Answer::Rows(rows, _) => {
                if let SqlValue::Integer(n) = rows[0][0] {
                    touched = n;
                }
            }
            Answer::Failed(e) => return Err(Error::Sqlite(e)),
        }
    }
    Ok(touched)
}

fn get_mtimes(conn: &Connection) -> Result<Mtimes, Error> {
    run(conn, tracks::get_mtimes)
}

fn sample(album_id: i64, path: &str, added_at: i64, mtime: i64) -> TrackRow<'_> {
    TrackRow {
        album_id,
        path,
        title: Some("T"),
        artist: Some("A"),
        genre: None,
        track_num: Some(1),
        disc_num: None,
        duration_ms: Some(180_000),
        sample_rate: Some(44100),
        bit_depth: Some(16),
        channels: Some(2),
        bitrate: Some(1411),
        codec: "flac",
        mime_type: "audio/flac",
        file_size: 1234,
        added_at,
        mtime,
        composer: None,
        conductor: None,
        performer: None,
        year: None,
        rg_track_gain: None,
        rg_track_peak: None,
        rg_album_gain: None,
        rg_album_peak: None,
        artist_sort: None,
        album_artist_sort: None,
        album_sort: None,
        title_sort: None,
        composer_sort: None,
        original_year: None,
        mb_recording_id: None,
        mb_release_id: None,
        mb_release_group_id: None,
        mb_artist_id: None,
        mb_release_artist_id: None,
    }
}

#[test]
fn t1_insert_new() {
    let (conn, aid) = open_with_album();
    upsert_track(&conn, &sample(aid, "/m/a.flac", 100, 200)).unwrap();
    let n: i64 = conn
        .query_row("SELECT COUNT(*) FROM tracks", [], |r| r.get(0))
        .unwrap();
    assert_eq!(n, 1);
}

#[test]
fn t2_added_at_is_preserved_on_conflict() {
    let (conn, aid) = open_with_album();
    upsert_track(&conn, &sample(aid, "/m/a.flac", 100, 200)).unwrap();
    upsert_track(&conn, &sample(aid, "/m/a.flac", 999, 300)).unwrap();
    let added_at: i64 = conn
        .query_row(
            "SELECT added_at FROM tracks WHERE path = '/m/a.flac'",
            [],
            |r| r.get(0),
        )
        .unwrap();
    assert_eq!(added_at, 100, "added_at must never be overwritten");
}

#[test]
fn t3_tag_and_mtime_updated_on_conflict() {
    let (conn, aid) = open_with_album();
    upsert_track(&conn, &sample(aid, "/m/a.flac", 100, 200)).unwrap();
    let mut row = sample(aid, "/m/a.flac", 999, 300);
    row.title = Some("NewTitle");
    upsert_track(&conn, &row).unwrap();
    let (title, mtime): (String, i64) = conn
        .query_row(
            "SELECT title, mtime FROM tracks WHERE path = '/m/a.flac'",
            [],
            |r| Ok((r.get(0)?, r.get(1)?)),
        )
        .unwrap();
    assert_eq!(title, "NewTitle");
    assert_eq!(mtime, 300);
}

#[test]
fn t4_album_id_can_change_on_conflict() {
    let (conn, aid1) = open_with_album();
    let aid2 = upsert_album(
        &conn,
        &AlbumKey {
            effective_album_artist: "AA2",
            album: "Alb2",
            compilation: false,
        },
        None,
        100,
    )
    .unwrap();
    assert_ne!(aid1, aid2);

    upsert_track(&conn, &sample(aid1, "/m/a.flac", 100, 200)).unwrap();
    upsert_track(&conn, &sample(aid2, "/m/a.flac", 999, 300)).unwrap();

    let aid: i64 = conn
        .query_row(
            "SELECT album_id FROM tracks WHERE path = '/m/a.flac'",
            [],
            |r| r.get(0),
        )
        .unwrap();
    assert_eq!(aid, aid2);
}

#[test]
fn u1_first_upsert_returns_inserted() {
    let (conn, aid) = open_with_album();
    let outcome = upsert_track(&conn, &sample(aid, "/m/a.flac", 100, 200)).unwrap();
    assert_eq!(outcome, UpsertOutcome::Inserted);
}

#[test]
fn u2_second_upsert_on_same_path_returns_updated() {
    let (conn, aid) = open_with_album();
    upsert_track(&conn, &sample(aid, "/m/a.flac", 100, 200)).unwrap();
    let outcome = upsert_track(&conn, &sample(aid, "/m/a.flac", 999, 300)).unwrap();
    assert_eq!(outcome, UpsertOutcome::Updated);
}

#[test]
fn d1_detect_deleted_removes_paths_not_in_enumerated() {
    let (conn, aid) = open_with_album();
    upsert_track(&conn, &sample(aid, "/m/keep.flac", 100, 200)).unwrap();
    upsert_track(&conn, &sample(aid, "/m/gone.flac", 100, 200)).unwrap();

    let mut enumerated = HashSet::new();
    enumerated.insert("/m/keep.flac");

    let deleted = detect_deleted(&conn, &enumerated).unwrap();
    assert_eq!(deleted, 1);

    let remaining: i64 = conn
        .query_row("SELECT COUNT(*) FROM tracks", [], |r| r.get(0))
        .unwrap();
    assert_eq!(remaining, 1);
}

#[test]
fn d2_detect_deleted_keeps_everything_when_all_enumerated() {
    let (conn, aid) = open_with_album();
    upsert_track(&conn, &sample(aid, "/m/a.flac", 100, 200)).unwrap();
    upsert_track(&conn, &sample(aid, "/m/b.flac", 100, 200)).unwrap();

    let enumerated: HashSet<&str> = ["/m/a.flac", "/m/b.flac"].into_iter().collect();
    let deleted = detect_deleted(&conn, &enumerated).unwrap();
    assert_eq!(deleted, 0);
}

#[test]
fn d3_detect_deleted_handles_large_enumerated_set() {
    // Regression check for the TEMP TABLE path: even at 1000 rows, a single DELETE suffices
    let (conn, aid) = open_with_album();
    for i in 0..1000 {
        upsert_track(
            &conn,
            &sample(
                aid,
                Box::leak(format!("/m/file{}.flac", i).into_boxed_str()),
                100,
                200,
            ),
        )
        .unwrap();
    }
    // Keep only half in `enumerated`
    let kept: Vec<String> = (0..500).map(|i| format!("/m/file{}.flac", i)).collect();
    let enumerated: HashSet<&str> = kept.iter().map(|s| s.as_str()).collect();
    let deleted = detect_deleted(&conn, &enumerated).unwrap();
    assert_eq!(deleted, 500);
    let remaining: i64 = conn
        .query_row("SELECT COUNT(*) FROM tracks", [], |r| r.get(0))
        .unwrap();
    assert_eq!(remaining, 500);
}

// A file move is treated as a path change, becoming DELETE + INSERT.
// The new path's `added_at` is "when the server first saw this path" = now.
#[test]
fn fm1_file_move_is_delete_plus_insert_with_fresh_added_at() {
    let (conn, aid) = open_with_album();
    // Insert a track at the original path (added_at=100)
    upsert_track(&conn, &sample(aid, "/m/old.flac", 100, 200)).unwrap();
    let original_id: i64 = conn
        .query_row(
            "SELECT id FROM tracks WHERE path = '/m/old.flac'",
            [],
            |r| r.get(0),
        )
        .unwrap();

    // Scan now sees /m/new.flac instead of /m/old.flac (a move)
    let enumerated: HashSet<&str> = ["/m/new.flac"].into_iter().collect();
    let deleted = detect_deleted(&conn, &enumerated).unwrap();
    assert_eq!(deleted, 1, "old path must be deleted");

    // Upsert at the new path (added_at=999 = "now")
    upsert_track(&conn, &sample(aid, "/m/new.flac", 999, 200)).unwrap();

    // New row has a new id, added_at = 999 (treated as a new addition)
    let (new_id, new_added): (i64, i64) = conn
        .query_row(
            "SELECT id, added_at FROM tracks WHERE path = '/m/new.flac'",
            [],
            |r| Ok((r.get(0)?, r.get(1)?)),
        )
        .unwrap();
    assert_ne!(new_id, original_id, "moved file gets new track.id");
    assert_eq!(
        new_added, 999,
        "moved file's added_at is the new-scan time"
    );
}

#[test]
fn g1_get_mtimes_returns_path_to_mtime_map() {
    let (conn, aid) = open_with_album();
    upsert_track(&conn, &sample(aid, "/m/a.flac", 100, 222)).unwrap();
    upsert_track(&conn, &sample(aid, "/m/b.flac", 100, 333)).unwrap();

    let map = get_mtimes(&conn).unwrap();
    assert_eq!(map.len(), 2);
    assert_eq!(map.get("/m/a.flac"), Some(222));
    assert_eq!(map.get("/m/b.flac"), Some(333));
}

// ── Schema ───────────────────────────────────────────────────────────────

fn ensure_compatible_or_err(conn: &Connection) -> Result<(), Error> {
    run(conn, schema::ensure_compatible_or_err)
}

#[test]
fn s1_tables_created() {
    let conn = open_with_fk();
    let mut stmt = conn
        .prepare("SELECT name FROM sqlite_master WHERE type='table' ORDER BY name")
        .unwrap();
    let names: Vec<String> = stmt
        .query_map([], |row| row.get::<_, String>(0))
        .unwrap()
        .map(|r| r.unwrap())
        .collect();
    assert!(names.contains(&"albums".to_string()));
    assert!(names.contains(&"tracks".to_string()));
    assert!(names.contains(&"server_state".to_string()));
}

#[test]
fn s2_migrate_is_idempotent() {
    let conn = Connection::open_in_memory().unwrap();
    migrate(&conn).unwrap();
    migrate(&conn).unwrap();
}

#[test]
fn s4_play_count_and_last_played_at_columns_exist() {
    // migrate() creates play_count / last_played_at on a fresh DB
    let conn = open_with_fk();
    let mut stmt = conn.prepare("PRAGMA table_info(tracks)").unwrap();
    let cols: Vec<String> = stmt
        .query_map([], |row| row.get::<_, String>(1))
        .unwrap()
        .filter_map(|r| r.ok())
        .collect();
    assert!(cols.contains(&"play_count".to_string()), "got: {:?}", cols);
    assert!(
        cols.contains(&"last_played_at".to_string()),
        "got: {:?}",
        cols
    );
}

#[test]
fn s6_albums_denormalized_columns_exist() {
    // migrate() creates albums.last_added_at / last_played_at on a fresh DB
    let conn = open_with_fk();
    let mut stmt = conn.prepare("PRAGMA table_info(albums)").unwrap();
    let cols: Vec<String> = stmt
        .query_map([], |row| row.get::<_, String>(1))
        .unwrap()
        .filter_map(|r| r.ok())
        .collect();
    assert!(
        cols.contains(&"last_added_at".to_string()),
        "albums.last_added_at missing: {:?}",
        cols
    );
    assert!(
        cols.contains(&"last_played_at".to_string()),
        "albums.last_played_at missing: {:?}",
        cols
    );
}

#[test]
fn s7_migrate_upgrades_existing_pre_denormalize_db() {
    // Old schema (albums without last_added_at / last_played_at): migrate() adds them via ALTER
    let conn = Connection::open_in_memory().unwrap();
    conn.execute_batch(
        "CREATE TABLE albums (
           id INTEGER PRIMARY KEY,
           effective_album_artist TEXT NOT NULL,
           album TEXT NOT NULL,
           compilation INTEGER NOT NULL DEFAULT 0,
           album_artist_raw TEXT,
           first_seen_at INTEGER NOT NULL,
           track_count INTEGER NOT NULL DEFAULT 0,
           total_duration_ms INTEGER NOT NULL DEFAULT 0,
           quality TEXT NOT NULL DEFAULT 'unknown'
         );
         CREATE TABLE tracks (
           id INTEGER PRIMARY KEY,
           album_id INTEGER NOT NULL,
           path TEXT NOT NULL UNIQUE,
           title TEXT, artist TEXT, genre TEXT,
           track_num INTEGER, disc_num INTEGER, duration_ms INTEGER,
           sample_rate INTEGER, bit_depth INTEGER, channels INTEGER,
           bitrate INTEGER, codec TEXT, mime_type TEXT, file_size INTEGER,
           added_at INTEGER NOT NULL,
           mtime INTEGER NOT NULL
         );",
    )
    .unwrap();
    migrate(&conn).unwrap();
    // New columns were added by ALTER (NULL-able)
    conn.execute(
        "INSERT INTO albums (id, effective_album_artist, album, first_seen_at, last_added_at)
         VALUES (1, 'AA', 'Alb', 0, 12345)",
        [],
    )
    .unwrap();
    let (la, lp): (i64, Option<i64>) = conn
        .query_row(
            "SELECT last_added_at, last_played_at FROM albums WHERE id = 1",
            [],
            |r| Ok((r.get(0)?, r.get(1)?)),
        )
        .unwrap();
    assert_eq!(la, 12345);
    assert_eq!(lp, None);
}

#[test]
fn s5_migrate_upgrades_existing_pre_play_count_db() {
    // Hand-build a schema (no play_count / last_played_at) and verify
    // migrate() adds them via ALTER TABLE.
    let conn = Connection::open_in_memory().unwrap();
    conn.execute_batch(
        "CREATE TABLE albums (
           id INTEGER PRIMARY KEY,
           effective_album_artist TEXT NOT NULL,
           album TEXT NOT NULL,
           compilation INTEGER NOT NULL DEFAULT 0,
           album_artist_raw TEXT,
           first_seen_at INTEGER NOT NULL,
           track_count INTEGER NOT NULL DEFAULT 0,
           total_duration_ms INTEGER NOT NULL DEFAULT 0,
           quality TEXT NOT NULL DEFAULT 'unknown'
         );
         CREATE TABLE tracks (
           id INTEGER PRIMARY KEY,
           album_id INTEGER NOT NULL,
           path TEXT NOT NULL UNIQUE,
           title TEXT, artist TEXT, genre TEXT,
           track_num INTEGER, disc_num INTEGER, duration_ms INTEGER,
           sample_rate INTEGER, bit_depth INTEGER, channels INTEGER,
           bitrate INTEGER, codec TEXT, mime_type TEXT, file_size INTEGER,
           added_at INTEGER NOT NULL,
           mtime INTEGER NOT NULL
         );",
    )
    .unwrap();

    migrate(&conn).unwrap();

    // Existing rows are preserved (play_count=0, last_played_at=NULL)
    conn.execute(
        "INSERT INTO albums (id, effective_album_artist, album, first_seen_at) VALUES (1, 'AA', 'Alb', 0)",
        [],
    ).unwrap();
    conn.execute(
        "INSERT INTO tracks (album_id, path, added_at, mtime) VALUES (1, '/m/a', 0, 0)",
        [],
    )
    .unwrap();

    let (pc, lp): (i64, Option<i64>) = conn
        .query_row("SELECT play_count, last_played_at FROM tracks", [], |r| {
            Ok((r.get(0)?, r.get(1)?))
        })
        .unwrap();
    assert_eq!(pc, 0);
    assert_eq!(lp, None);
}

#[test]
fn sv1_migrate_writes_schema_version() {
    let conn = open_with_fk();
    let v = get_state(&conn, "schema_version").unwrap().unwrap();
    assert_eq!(v.parse::<u32>().unwrap(), SCHEMA_VERSION);
}

#[test]
fn sv2_ensure_compatible_passes_on_fresh_db() {
    let conn = open_with_fk();
    ensure_compatible_or_err(&conn).expect("fresh DB should be compatible");
}

#[test]
fn sv3_ensure_compatible_passes_when_recorded_is_missing() {
    // Empty DB without running migrate (just hand-create the server_state table)
    // → schema_version unrecorded → treated as compatible (migrate will follow).
    let conn = Connection::open_in_memory().unwrap();
    conn.execute(
        "CREATE TABLE server_state (key TEXT PRIMARY KEY, value TEXT NOT NULL)",
        [],
    )
    .unwrap();
    ensure_compatible_or_err(&conn).expect("missing schema_version should pass");
}

#[test]
fn sv4_ensure_compatible_rejects_newer_db() {
    // Simulate opening a DB written by a future binary with an older one:
    // schema_version exceeds ours, so reject .
    let conn = open_with_fk();
    set_state(&conn, "schema_version", &(SCHEMA_VERSION + 1).to_string()).unwrap();
    let err = ensure_compatible_or_err(&conn).expect_err("must reject newer schema");
    assert!(err.message().contains("newer"));
}

#[test]
fn s3_foreign_key_enforced() {
    let conn = open_with_fk();
    let result = conn.execute(
        "INSERT INTO tracks (album_id, path, added_at, mtime) VALUES (?1, ?2, ?3, ?4)",
        (999i64, "/tmp/x.flac", 0i64, 0i64),
    );
    assert!(result.is_err(), "FK violation should error");
}

// ── NFKD shadow columns + backfill ──────────────────────────────

#[test]
fn s8_norm_columns_exist_after_migrate() {
    let conn = open_with_fk();
    for (table, column) in [
        ("tracks", "title_norm"),
        ("tracks", "artist_norm"),
        ("tracks", "genre_norm"),
        ("tracks", "composer_norm"),
        ("tracks", "conductor_norm"),
        ("tracks", "performer_norm"),
        ("albums", "album_norm"),
        ("albums", "effective_album_artist_norm"),
    ] {
        let mut stmt = conn
            .prepare(&format!("PRAGMA table_info({table})"))
            .unwrap();
        let cols: Vec<String> = stmt
            .query_map([], |r| r.get::<_, String>(1))
            .unwrap()
            .filter_map(|r| r.ok())
            .collect();
        assert!(
            cols.contains(&column.to_string()),
            "{table}.{column} missing: {cols:?}"
        );
    }
}

#[test]
fn s9_backfill_populates_norm_from_existing_rows() {
    // Hand-build a DB (no *_norm), insert data, then migrate.
    // The backfill should fill the shadow columns from the source values.
    let conn = Connection::open_in_memory().unwrap();
    conn.execute_batch(
        "CREATE TABLE albums (
           id INTEGER PRIMARY KEY,
           effective_album_artist TEXT NOT NULL,
           album TEXT NOT NULL,
           compilation INTEGER NOT NULL DEFAULT 0,
           album_artist_raw TEXT,
           first_seen_at INTEGER NOT NULL,
           track_count INTEGER NOT NULL DEFAULT 0,
           total_duration_ms INTEGER NOT NULL DEFAULT 0,
           quality TEXT NOT NULL DEFAULT 'unknown'
         );
         CREATE TABLE tracks (
           id INTEGER PRIMARY KEY,
           album_id INTEGER NOT NULL,
           path TEXT NOT NULL UNIQUE,
           title TEXT, artist TEXT, genre TEXT,
           track_num INTEGER, disc_num INTEGER, duration_ms INTEGER,
           sample_rate INTEGER, bit_depth INTEGER, channels INTEGER,
           bitrate INTEGER, codec TEXT, mime_type TEXT, file_size INTEGER,
           added_at INTEGER NOT NULL,
           mtime INTEGER NOT NULL
         );
         INSERT INTO albums (id, effective_album_artist, album, first_seen_at)
           VALUES (1, 'Björk', 'Café', 0);
         INSERT INTO tracks
           (album_id, path, title, artist, added_at, mtime)
           VALUES (1, '/m/a.flac', 'Ｈｉｔ', 'ミユキ', 0, 0);",
    )
    .unwrap();

    migrate(&conn).unwrap();

    let (album_norm, aa_norm): (String, String) = conn
        .query_row(
            "SELECT album_norm, effective_album_artist_norm FROM albums WHERE id = 1",
            [],
            |r| Ok((r.get(0)?, r.get(1)?)),
        )
        .unwrap();
    assert_eq!(album_norm, "cafe");
    assert_eq!(aa_norm, "bjork");

    let (title_norm, artist_norm): (String, String) = conn
        .query_row(
            "SELECT title_norm, artist_norm FROM tracks WHERE path = '/m/a.flac'",
            [],
            |r| Ok((r.get(0)?, r.get(1)?)),
        )
        .unwrap();
    assert_eq!(title_norm, "hit");
    assert_eq!(artist_norm, "みゆき");
}

#[test]
fn s12_v8_capture_only_columns_exist_after_migrate() {
    // v8 added sort / original_year / MusicBrainz columns on tracks.
    // All nullable; verify they exist with the expected affinity.
    let conn = open_with_fk();
    let mut stmt = conn.prepare("PRAGMA table_info(tracks)").unwrap();
    let cols: Vec<(String, String)> = stmt
        .query_map([], |r| Ok((r.get::<_, String>(1)?, r.get::<_, String>(2)?)))
        .unwrap()
        .filter_map(|r| r.ok())
        .collect();
    for (name, ty) in [
        ("artist_sort", "TEXT"),
        ("album_artist_sort", "TEXT"),
        ("album_sort", "TEXT"),
        ("title_sort", "TEXT"),
        ("composer_sort", "TEXT"),
        ("original_year", "INTEGER"),
        ("mb_recording_id", "TEXT"),
        ("mb_release_id", "TEXT"),
        ("mb_release_group_id", "TEXT"),
        ("mb_artist_id", "TEXT"),
        ("mb_release_artist_id", "TEXT"),
    ] {
        let row = cols.iter().find(|(n, _)| n == name);
        assert!(row.is_some(), "tracks.{name} missing");
        assert_eq!(row.unwrap().1, ty, "{name} affinity mismatch");
    }
}

#[test]
fn s13_v8_columns_added_to_pre_v8_db_via_alter() {
    // Hand-build a pre-v8 schema (one without the capture-only columns) and
    // verify migrate() adds them via ALTER, preserving existing rows.
    let conn = Connection::open_in_memory().unwrap();
    conn.execute_batch(
        "CREATE TABLE albums (
           id INTEGER PRIMARY KEY,
           effective_album_artist TEXT NOT NULL,
           album TEXT NOT NULL,
           compilation INTEGER NOT NULL DEFAULT 0,
           album_artist_raw TEXT,
           first_seen_at INTEGER NOT NULL,
           track_count INTEGER NOT NULL DEFAULT 0,
           total_duration_ms INTEGER NOT NULL DEFAULT 0,
           quality TEXT NOT NULL DEFAULT 'unknown'
         );
         CREATE TABLE tracks (
           id INTEGER PRIMARY KEY,
           album_id INTEGER NOT NULL,
           path TEXT NOT NULL UNIQUE,
           title TEXT, artist TEXT, genre TEXT,
           track_num INTEGER, disc_num INTEGER, duration_ms INTEGER,
           sample_rate INTEGER, bit_depth INTEGER, channels INTEGER,
           bitrate INTEGER, codec TEXT, mime_type TEXT, file_size INTEGER,
           added_at INTEGER NOT NULL,
           mtime INTEGER NOT NULL
         );
         INSERT INTO albums (id, effective_album_artist, album, first_seen_at)
           VALUES (1, 'AA', 'Alb', 0);
         INSERT INTO tracks (album_id, path, added_at, mtime)
           VALUES (1, '/m/a.flac', 0, 0);",
    )
    .unwrap();
    migrate(&conn).unwrap();
    // New columns exist and existing row reads them back as NULL.
    let (asort, oy, mb_rec): (Option<String>, Option<i32>, Option<String>) = conn
        .query_row(
            "SELECT artist_sort, original_year, mb_recording_id FROM tracks WHERE id = 1",
            [],
            |r| Ok((r.get(0)?, r.get(1)?, r.get(2)?)),
        )
        .unwrap();
    assert_eq!(asort, None);
    assert_eq!(oy, None);
    assert_eq!(mb_rec, None);
}

#[test]
fn s11_rg_columns_exist_after_migrate() {
    // tracks gains 4 nullable REAL columns for ReplayGain values.
    let conn = open_with_fk();
    let mut stmt = conn.prepare("PRAGMA table_info(tracks)").unwrap();
    let cols: Vec<(String, String)> = stmt
        .query_map([], |r| Ok((r.get::<_, String>(1)?, r.get::<_, String>(2)?)))
        .unwrap()
        .filter_map(|r| r.ok())
        .collect();
    for expected in [
        "rg_track_gain",
        "rg_track_peak",
        "rg_album_gain",
        "rg_album_peak",
    ] {
        let row = cols.iter().find(|(n, _)| n == expected);
        assert!(row.is_some(), "tracks.{expected} missing");
        assert_eq!(row.unwrap().1, "REAL", "{expected} should be REAL");
    }
}

#[test]
fn s10_backfill_is_idempotent_and_skips_already_set() {
    // Second migrate() call must not overwrite — guarantees a future binary
    // can swap in a different normalize variant by re-running backfill only
    // for the new column without disturbing the others.
    let conn = open_with_fk();
    conn.execute(
        "INSERT INTO albums (effective_album_artist, album, first_seen_at)
         VALUES ('AA', 'Alb', 0)",
        [],
    )
    .unwrap();
    // Manually trample one norm value to simulate a custom override; the
    // backfill should leave it alone (filter is `WHERE *_norm IS NULL`).
    conn.execute(
        "UPDATE albums SET album_norm = 'CUSTOM' WHERE album = 'Alb'",
        [],
    )
    .unwrap();
    // Re-run.
    migrate(&conn).unwrap();
    let v: String = conn
        .query_row(
            "SELECT album_norm FROM albums WHERE album = 'Alb'",
            [],
            |r| r.get(0),
        )
        .unwrap();
    assert_eq!(v, "CUSTOM");
}

// ── Similarity ───────────────────────────────────────────────────────────

#[test]
fn j1_identical_strings_score_one() {
    assert_eq!(ratio("beatles", "beatles"), 1.0);
}

#[test]
fn j2_disjoint_strings_score_zero() {
    // "abc" and "xyz" share no trigram.
    assert_eq!(ratio("abc", "xyz"), 0.0);
}

#[test]
fn j3_typo_swap_scores_high_enough_for_default_threshold() {
    // "beatles" vs "beatlse" (adjacent-letter swap) — common pg_trgm
    // default threshold is 0.3. Should clear.
    let s = ratio("beatles", "beatlse");
    assert!(s >= 0.3, "expected ≥ 0.3, got {s}");
}

#[test]
fn j4_one_trigram_overlap_scores_below_threshold() {
    // The bucket-4 noise case that motivated the threshold: only `atl`
    // is shared between these two strings. Must score well under 0.3.
    let s = ratio("beatles", "atlas");
    assert!(s < 0.3, "expected < 0.3, got {s}");
}

#[test]
fn j5_substring_relationship_scores_well() {
    // The trade-off the Levenshtein approach would have broken:
    // "beatles" as substring of "the beatles" must still pass.
    let s = ratio("beatles", "the beatles");
    assert!(s >= 0.3, "expected ≥ 0.3, got {s}");
}

#[test]
fn j6_short_input_returns_zero() {
    // Fewer than 3 chars has no trigram; we return 0 instead of NaN.
    assert_eq!(ratio("ab", "abc"), 0.0);
    assert_eq!(ratio("", ""), 0.0);
}

#[test]
fn j7_repeated_trigrams_dedupe_in_union() {
    // "aaaa" has trigrams {"aaa"} (after dedup) → Jaccard with itself = 1.0,
    // and with "aaab" = 1/2 (shared "aaa", "aab" unique).
    assert_eq!(ratio("aaaa", "aaaa"), 1.0);
    let s = ratio("aaaa", "aaab");
    assert!((s - 0.5).abs() < f64::EPSILON, "got {s}");
}

// ── Random selections ────────────────────────────────────────────────────

fn draw(conn: &Connection, s: &mut RandomState, limit: Option<usize>) -> Result<usize, Error> {
    run(conn, |a| s.reshuffle(limit, 0, a))
}

fn seed_n_albums(conn: &Connection, n: usize) {
    for i in 0..n {
        upsert_album(
            conn,
            &AlbumKey {
                effective_album_artist: &format!("AA{}", i),
                album: &format!("Alb{}", i),
                compilation: false,
            },
            None,
            0,
        )
        .unwrap();
    }
}

#[test]
fn ra2_after_reshuffle_page_contains_all_ids() {
    let conn = open_with_fk();
    seed_n_albums(&conn, 5);
    let mut s = RandomState::new();
    let n = draw(&conn, &mut s, Some(1000)).unwrap();
    assert_eq!(n, 5);
    let mut got = s.page(0, 100);
    got.sort();
    assert_eq!(got, vec![1, 2, 3, 4, 5]);
}

#[test]
fn ra3_reshuffle_produces_different_order_with_high_probability() {
    // For 100 items, two shuffles producing the same order has probability 1/100! ≈ 0.
    let conn = open_with_fk();
    seed_n_albums(&conn, 100);
    let mut s = RandomState::new();
    draw(&conn, &mut s, Some(1000)).unwrap();
    let first = s.page(0, 100);
    draw(&conn, &mut s, Some(1000)).unwrap();
    let second = s.page(0, 100);
    assert_ne!(first, second, "two shuffles should differ");
}

#[test]
fn ra4_page_out_of_range_returns_empty_no_panic() {
    let conn = open_with_fk();
    seed_n_albums(&conn, 3);
    let mut s = RandomState::new();
    draw(&conn, &mut s, Some(1000)).unwrap();
    assert_eq!(s.page(100, 10), Vec::<i64>::new());
    // Partial out-of-range is fine (start+count > len).
    let partial = s.page(1, 100);
    assert_eq!(partial.len(), 2);
}

#[test]
fn ra5_empty_library_reshuffle_returns_zero() {
    let conn = open_with_fk();
    let mut s = RandomState::new();
    let n = draw(&conn, &mut s, Some(1000)).unwrap();
    assert_eq!(n, 0);
    assert!(s.is_empty());
}

#[test]
fn ra6_reshuffle_truncates_to_limit() {
    // 10 albums in DB, limit = 3 → state holds exactly 3 ids, drawn from the
    // shuffled population. `len()` reports the truncated size so `cat:random`
    // total_matches surfaces the cap.
    let conn = open_with_fk();
    seed_n_albums(&conn, 10);
    let mut s = RandomState::new();
    let n = draw(&conn, &mut s, Some(3)).unwrap();
    assert_eq!(n, 3);
    assert_eq!(s.len(), 3);
    let ids = s.page(0, 100);
    assert_eq!(ids.len(), 3);
    // All retained ids must be valid album_ids (1..=10).
    for id in &ids {
        assert!((1..=10).contains(id), "stray id {} not in [1,10]", id);
    }
}

#[test]
fn ra7_limit_greater_than_population_returns_full_population() {
    // Limit >> library size → just returns everything (no padding, no panic).
    let conn = open_with_fk();
    seed_n_albums(&conn, 4);
    let mut s = RandomState::new();
    let n = draw(&conn, &mut s, Some(1000)).unwrap();
    assert_eq!(n, 4);
}

#[test]
fn ra8_none_limit_keeps_full_population() {
    // None = no cap; the full shuffled set should be retained.
    let conn = open_with_fk();
    seed_n_albums(&conn, 7);
    let mut s = RandomState::new();
    let n = draw(&conn, &mut s, None).unwrap();
    assert_eq!(n, 7);
    assert_eq!(s.len(), 7);
}

#[test]
fn selection_is_drawn_again_when_it_is_old() {
    let conn = open_with_fk();
    seed_n_albums(&conn, 3);
    let mut s = RandomState::new();
    assert!(s.maybe_reshuffle(None, Some(1), 10_000, &[]).is_none());
    draw(&conn, &mut s, None).unwrap();
    assert!(s.maybe_reshuffle(None, Some(1), 3_599, &[]).is_none());
    assert!(s.maybe_reshuffle(None, None, 1_000_000, &[]).is_none());
    assert!(matches!(
        s.maybe_reshuffle(None, Some(1), 3_600, &[]),
        Some(Step::Query(_))
    ));
    let n = run(&conn, |a| s.maybe_reshuffle(Some(2), Some(1), 3_600, a).unwrap()).unwrap();
    assert_eq!(n, 2);
    assert!(!s.due(Some(1), 7_199));
    assert!(s.due(Some(1), 7_200));
}

#[test]
fn selection_stays_where_albums_cannot_be_had() {
    let conn = open_with_fk();
    seed_n_albums(&conn, 3);
    let mut s = RandomState::new();
    draw(&conn, &mut s, None).unwrap();
    let before = s.page(0, 10);
    let r = s.reshuffle(None, 1, &[Answer::Failed(SqliteError::Failure("gone".to_string()))]);
    assert!(matches!(r, Step::Done(Err(Error::Sqlite(SqliteError::Failure(_))))));
    assert_eq!(s.page(0, 10), before);
}

// ── Identity ─────────────────────────────────────────────────────────────

#[test]
fn identity_is_settled_once() {
    let conn = open();
    let first = run(&conn, |a| establish("auto", "fresh-1", a)).unwrap();
    assert_eq!(first, "fresh-1");
    assert_eq!(
        get_state(&conn, "system_update_id").unwrap().as_deref(),
        Some("1")
    );
    set_state(&conn, "system_update_id", "7").unwrap();
    let second = run(&conn, |a| establish("configured", "fresh-2", a)).unwrap();
    assert_eq!(second, "fresh-1");
    assert_eq!(
        get_state(&conn, "system_update_id").unwrap().as_deref(),
        Some("7")
    );
}

#[test]
fn configured_identity_is_taken_over() {
    let conn = open();
    let id = run(&conn, |a| establish("my-id", "fresh", a)).unwrap();
    assert_eq!(id, "my-id");
    assert_eq!(get_state(&conn, "uuid").unwrap().as_deref(), Some("my-id"));
}

// ── Settings in effect ───────────────────────────────────────────────────

fn sample_config() -> Config {
    Config {
        server: Server {
            friendly_name: "X".to_string(),
            http_port: 8200,
            uuid: "auto".to_string(),
            db_path: "revolver.db".to_string(),
            bind_address: "0.0.0.0".to_string(),
        },
        library: Library {
            root: "/x".to_string(),
            extensions: vec!["flac".to_string()],
        },
        scan: Scan {
            on_startup: false,
            parallel: 1,
        },
        browse: Browse {
            recently_added_limit: 50,
            recently_added_max_age_days: None,
            random_albums_limit: 100,
            quality_categories: true,
            top_level: default_top_level(),
            quality_in_title: false,
            quality_in_title_format: "[{q}]".to_string(),
            quality_in_title_include: Vec::new(),
            quality_in_title_show_specs: false,
        },
    }
}

fn effective(conn: &Connection, defaults: &DefaultsMap, key: &str) -> String {
    run(conn, |a| effective_value(defaults, key, a)).unwrap().write()
}

fn settings(conn: &Connection, defaults: &DefaultsMap) -> BrowseSettings {
    run(conn, |a| build_browse_settings(defaults, a)).unwrap()
}

#[test]
fn cc5_effective_value_falls_back_to_default_when_no_override() {
    let conn = open();
    let defaults = precompute_defaults(&sample_config());
    assert_eq!(
        effective(&conn, &defaults, "browse.recently_added_limit"),
        "50"
    );
}

#[test]
fn cc6_effective_value_uses_override_when_present() {
    let conn = open();
    let defaults = precompute_defaults(&sample_config());
    set_override(&conn, "browse.recently_added_limit", "75", 0).unwrap();
    assert_eq!(
        effective(&conn, &defaults, "browse.recently_added_limit"),
        "75"
    );
}

#[test]
fn cc7_build_browse_settings_applies_overrides() {
    let conn = open();
    let defaults = precompute_defaults(&sample_config());
    set_override(&conn, "browse.recently_added_limit", "200", 0).unwrap();
    set_override(&conn, "browse.quality_categories", "false", 0).unwrap();
    let s = settings(&conn, &defaults);
    assert_eq!(s.recently_added_limit, 200);
    assert_eq!(s.random_albums_limit, 100); // toml default
    assert!(!s.quality_categories);
}

#[test]
fn cc8_build_browse_settings_uses_toml_defaults_when_no_overrides() {
    let conn = open();
    let defaults = precompute_defaults(&sample_config());
    let s = settings(&conn, &defaults);
    assert_eq!(s.recently_added_limit, 50);
    assert_eq!(s.random_albums_limit, 100);
    assert!(s.quality_categories);
    assert_eq!(s.top_level, default_top_level());
}

#[test]
fn cc12_top_level_override_picked_up() {
    let conn = open();
    let defaults = precompute_defaults(&sample_config());
    set_override(&conn, "browse.top_level", r#"["cat:aa","cat:played"]"#, 0).unwrap();
    let s = settings(&conn, &defaults);
    assert_eq!(s.top_level, vec!["cat:aa", "cat:played"]);
}

#[test]
fn limits_can_be_lifted() {
    let conn = open();
    let defaults = precompute_defaults(&sample_config());
    let plan = post_config(
        &vec![
            change_of("browse.recently_added_limit", "null"),
            change_of("browse.random_albums_limit", "null"),
        ],
        1,
    )
    .unwrap();
    assert!(plan.reshuffle);
    for s in &plan.statements {
        assert!(matches!(change(&conn, s), Answer::Rows(..)));
    }
    let s = settings(&conn, &defaults);
    assert_eq!(s.recently_added_limit, usize::MAX);
    assert_eq!(s.random_albums_limit, usize::MAX);
}

// ── Configuration requests ───────────────────────────────────────────────

fn change_of(key: &str, value: &str) -> Change {
    Change {
        key: key.to_string(),
        value: JsonValue::parse(value).unwrap(),
    }
}

#[test]
fn accepted_changes_take_effect() {
    let conn = open();
    let defaults = precompute_defaults(&sample_config());
    let plan = post_config(
        &vec![
            change_of("browse.recently_added_limit", "7"),
            change_of("browse.quality_categories", "false"),
        ],
        123,
    )
    .unwrap();
    for s in &plan.statements {
        assert!(matches!(change(&conn, s), Answer::Rows(..)));
    }
    let s = settings(&conn, &defaults);
    assert_eq!(s.recently_added_limit, 7);
    assert!(!s.quality_categories);
    let entries = run(&conn, |a| get_config(&defaults, a)).unwrap();
    assert_eq!(entries.len(), 5);
    assert_eq!(entries[0].value.write(), "7");
    assert_eq!(entries[0].default.write(), "50");
}

#[test]
fn one_bad_change_refuses_them_all() {
    let refused = post_config(
        &vec![
            change_of("browse.recently_added_limit", "7"),
            change_of("nope", "1"),
        ],
        123,
    );
    assert!(matches!(refused, Err(ConfigUpdateError::UnknownKey(_))));
    let refused = post_config(
        &vec![
            change_of("browse.recently_added_limit", "0"),
            change_of("browse.quality_categories", "false"),
        ],
        123,
    );
    assert!(matches!(refused, Err(ConfigUpdateError::Invalid { .. })));
}

// ── Scans ────────────────────────────────────────────────────────────────

fn seed_db_with_one_track(conn: &Connection) -> i64 {
    let aid = upsert_album(
        conn,
        &AlbumKey {
            effective_album_artist: "AA",
            album: "Alb",
            compilation: false,
        },
        None,
        100,
    )
    .unwrap();
    conn.execute(
        "INSERT INTO tracks
           (album_id, path, duration_ms, added_at, mtime, codec, mime_type, file_size)
         VALUES (?1, '/nonexistent/orphan.flac', 100000, 50, 60, 'flac', 'audio/flac', 0)",
        [aid],
    )
    .unwrap();
    aid
}

fn tags_of(title: &str, album: Option<&str>) -> TrackTags {
    TrackTags {
        title: Some(title.to_string()),
        artist: Some("A".to_string()),
        album_artist: Some("AA".to_string()),
        album: album.map(|s| s.to_string()),
        genre: None,
        track_num: Some(1),
        disc_num: None,
        compilation: false,
        duration_ms: Some(1000),
        sample_rate: Some(44100),
        bit_depth: Some(16),
        channels: Some(2),
        bitrate: Some(1000),
        codec: "flac".to_string(),
        mime_type: "audio/flac".to_string(),
        file_size: 1,
        composer: None,
        conductor: None,
        performer: None,
        year: None,
        rg_track_gain: None,
        rg_track_peak: None,
        rg_album_gain: None,
        rg_album_peak: None,
        artist_sort: None,
        album_artist_sort: None,
        album_sort: None,
        title_sort: None,
        composer_sort: None,
        original_year: None,
        mb_recording_id: None,
        mb_release_id: None,
        mb_release_group_id: None,
        mb_artist_id: None,
        mb_release_artist_id: None,
    }
}

fn count(conn: &Connection, sql: &str) -> i64 {
    conn.query_row(sql, [], |r| r.get(0)).unwrap()
}

/// Scan a library that holds the given files. Tags are had from `read`, which has
/// none for a file that cannot be read.
fn scan_library(
    conn: &Connection,
    files: &[(&str, i64)],
    read: impl Fn(&str) -> Option<TrackTags>,
) -> Result<ScanReport, Error> {
    let walk = WalkResult {
        audio_files: files.iter().map(|(p, _)| p.to_string()).collect(),
        skipped: Vec::new(),
        companion_files_seen: 0,
    };
    let enumerated: Vec<EnumeratedTrack> = files
        .iter()
        .map(|(p, t)| EnumeratedTrack {
            path: p.to_string(),
            btime: None,
            mtime: *t,
        })
        .collect();
    let found = run(conn, |a| survey(&enumerated, a))?;
    let is_initial = found.is_initial;
    let mut tagged: Vec<TaggedTrack> = Vec::new();
    for &i in &found.needs {
        if let Some(tags) = read(&enumerated[i].path) {
            tagged.push(TaggedTrack {
                path: enumerated[i].path.clone(),
                btime: enumerated[i].btime,
                mtime: enumerated[i].mtime,
                tags,
            });
        }
    }
    let paths: Vec<String> = files.iter().map(|(p, _)| p.to_string()).collect();
    let tidy = postprocess(&paths);
    let mut touched: Vec<usize> = Vec::new();
    let mut counts: Vec<i64> = Vec::new();
    let mut findings = ScanFindings::new(walk, found);
    for task in schedule(tagged.len(), tidy.len()) {
        match task {
            ScanTask::CountAlbums => counts.push(count(conn, COUNT_ALBUMS_SQL)),
            ScanTask::Enter(_, _) => {}
            ScanTask::Begin => conn.execute_batch("BEGIN").unwrap(),
            ScanTask::Keep(i) => {
                let outcome = run(conn, |a| ingest(&tagged[i], is_initial, 500, a))?;
                findings.note_kept(&tagged[i], "/m", outcome);
            }
            ScanTask::Tidy(i) => match change(conn, &tidy[i]) {
                Answer::Rows(rows, _) => match rows[0][0] {
                    SqlValue::Integer(n) => touched.push(n as usize),
                    _ => unreachable!(),
                },
                Answer::Failed(e) => return Err(Error::Sqlite(e)),
            },
            ScanTask::Commit(_) => conn.execute_batch("COMMIT").unwrap(),
        }
    }
    assert_eq!(touched.len(), tidy.len());
    let (tracks_deleted, albums_deleted) = dropped(&paths, &touched);
    findings.tracks_deleted = tracks_deleted;
    findings.albums_deleted = albums_deleted;
    findings.albums_before = counts[0];
    findings.albums_after = counts[1];
    assert!(findings.is_whole());
    let report = complete(findings, "/m", "scan-1", 500, 501, 1000);
    run(conn, |a| settle_update_id(&report.stats, a))?;
    set_state(conn, "last_scan_report", &report_text(&report))?;
    Ok(report)
}

/// A report as it is kept: without an `error` where there was none.
fn report_text(r: &ScanReport) -> String {
    let object = |fields: Vec<(&str, Json)>| -> Json {
        fields
            .into_iter()
            .map(|(k, v)| (k.to_string(), v))
            .collect::<serde_json::Map<String, Json>>()
            .into()
    };
    let stats = object(vec![
        ("files_enumerated", r.stats.files_enumerated.into()),
        ("tracks_inserted", r.stats.tracks_inserted.into()),
        ("tracks_updated", r.stats.tracks_updated.into()),
        ("tracks_unchanged", r.stats.tracks_unchanged.into()),
        ("tracks_deleted", r.stats.tracks_deleted.into()),
        ("albums_inserted", r.stats.albums_inserted.into()),
        ("albums_deleted", r.stats.albums_deleted.into()),
        ("tag_read_failed", r.stats.tag_read_failed.into()),
        ("companion_files_seen", r.stats.companion_files_seen.into()),
    ]);
    let issues: Vec<Json> = (r.issues.iter())
        .map(|i| object(vec![("path", i.path.as_str().into()), ("issue", i.issue.into())]))
        .collect();
    let skipped: Vec<Json> = (r.skipped.iter())
        .map(|e| object(vec![("path", e.path.as_str().into()), ("reason", e.reason.into())]))
        .collect();
    let mut fields: Vec<(&str, Json)> = vec![
        ("scan_id", r.scan_id.as_str().into()),
        ("started_at", r.started_at.into()),
        ("completed_at", r.completed_at.into()),
        ("duration_ms", r.duration_ms.into()),
        ("is_initial", r.is_initial.into()),
        ("stats", stats),
        ("issues", issues.into()),
        ("skipped", skipped.into()),
    ];
    if let Some(e) = &r.error {
        fields.push(("error", e.as_str().into()));
    }
    object(fields).to_string()
}

#[test]
fn pf1_write_failure_report_persists_error() {
    let conn = open();
    // Pre-seed a "successful scan" report
    set_state(&conn, "last_scan_report", r#"{"scan_id":"old","ok":true}"#).unwrap();

    let report = ScanReport::failure("scan-xyz", 10, 12, 2000, "boom!");
    set_state(&conn, "last_scan_report", &report_text(&report)).unwrap();

    let json = get_state(&conn, "last_scan_report").unwrap().unwrap();
    assert!(json.contains(r#""scan_id":"scan-xyz""#));
    assert!(json.contains(r#""error":"boom!""#));
    assert!(
        !json.contains("\"ok\":true"),
        "old report must be overwritten"
    );
}

#[test]
fn pf2_successful_scan_does_not_write_error_field() {
    // Success path: error is None and is omitted from the JSON.
    let conn = open();
    let report = scan_library(&conn, &[], |_| None).unwrap();
    assert!(report.error.is_none());
    let json = get_state(&conn, "last_scan_report").unwrap().unwrap();
    assert!(!json.contains("\"error\""));
}

#[test]
fn i1_orchestrator_deletes_orphaned_tracks_and_albums() {
    let conn = open_with_fk();
    seed_db_with_one_track(&conn);
    let report = scan_library(&conn, &[], |_| None).unwrap();

    assert_eq!(report.stats.tracks_deleted, 1);
    assert_eq!(report.stats.albums_deleted, 1);
    assert_eq!(report.stats.tracks_inserted, 0);
    assert_eq!(report.stats.tracks_updated, 0);

    assert_eq!(count(&conn, "SELECT COUNT(*) FROM tracks"), 0);
    assert_eq!(count(&conn, "SELECT COUNT(*) FROM albums"), 0);

    // last_scan_report has been persisted to server_state
    let json = get_state(&conn, "last_scan_report").unwrap();
    assert!(json.is_some(), "scan report should be persisted");
    let json = json.unwrap();
    assert!(json.contains("\"tracks_deleted\":1"));
    assert!(json.contains("\"albums_deleted\":1"));
}

#[test]
fn b6_scan_with_deletion_bumps_system_update_id() {
    let conn = open_with_fk();
    seed_db_with_one_track(&conn);
    set_state(&conn, "system_update_id", "1").unwrap();
    let report = scan_library(&conn, &[], |_| None).unwrap();
    assert_eq!(report.stats.tracks_deleted, 1);

    let id: u32 = get_state(&conn, "system_update_id")
        .unwrap()
        .unwrap()
        .parse()
        .unwrap();
    assert_eq!(id, 2);
}

#[test]
fn b7_no_op_scan_does_not_bump_system_update_id() {
    let conn = open_with_fk();
    set_state(&conn, "system_update_id", "7").unwrap();
    let report = scan_library(&conn, &[], |_| None).unwrap();
    assert_eq!(report.stats.tracks_inserted, 0);
    assert_eq!(report.stats.tracks_deleted, 0);
    assert_eq!(report.stats.tracks_updated, 0);

    let id: u32 = get_state(&conn, "system_update_id")
        .unwrap()
        .unwrap()
        .parse()
        .unwrap();
    assert_eq!(id, 7, "system_update_id must not change on no-op scan");
}

#[test]
fn second_scan_reads_only_what_changed() {
    let conn = open_with_fk();
    let first = scan_library(&conn, &[("/m/a.flac", 1), ("/m/b.flac", 2)], |p| {
        Some(tags_of(p, Some("Alb")))
    })
    .unwrap();
    assert!(first.is_initial);
    assert_eq!(first.stats.tracks_inserted, 2);
    assert_eq!(first.stats.albums_inserted, 1);
    assert!(first.issues.is_empty());
    let second = scan_library(
        &conn,
        &[("/m/a.flac", 1), ("/m/b.flac", 9), ("/m/c.flac", 3), ("/m/d.flac", 4)],
        |p| match p {
            "/m/a.flac" => panic!("read again"),
            "/m/d.flac" => None,
            _ => Some(tags_of(p, None)),
        },
    )
    .unwrap();
    assert!(!second.is_initial);
    assert_eq!(second.stats.files_enumerated, 4);
    assert_eq!(second.stats.tracks_unchanged, 1);
    assert_eq!(second.stats.tracks_updated, 1);
    assert_eq!(second.stats.tracks_inserted, 1);
    assert_eq!(second.stats.tag_read_failed, 1);
    assert_eq!(second.stats.albums_inserted, 1);
    let told: Vec<(&str, &str)> = second
        .issues
        .iter()
        .map(|i| (i.path.as_str(), i.issue))
        .collect();
    assert_eq!(
        told,
        vec![("b.flac", "missing_album"), ("c.flac", "missing_album")]
    );
    assert_eq!(
        count(&conn, "SELECT COUNT(*) FROM albums WHERE album = 'Unknown Album'"),
        1
    );
}

#[test]
fn failed_scan_is_reported_with_its_reason() {
    let r = ScanReport::failure("scan-xyz", 10, 12, 2000, "boom!");
    assert_eq!(r.scan_id, "scan-xyz");
    assert_eq!(r.error.as_deref(), Some("boom!"));
    assert_eq!(r.started_at, 10);
    assert_eq!(r.completed_at, 12);
    assert_eq!(r.duration_ms, 2000);
    assert_eq!(r.stats.files_enumerated, 0);
}

// ── Playing ──────────────────────────────────────────────────────────────

#[test]
fn last_play_of_an_album_is_that_of_its_tracks() {
    let (conn, aid) = open_with_album();
    upsert_track(&conn, &sample(aid, "/m/a.flac", 100, 200)).unwrap();
    upsert_track(&conn, &sample(aid, "/m/b.flac", 100, 200)).unwrap();
    conn.execute(
        "UPDATE tracks SET last_played_at = 50 WHERE path = '/m/b.flac'",
        [],
    )
    .unwrap();
    run(&conn, albums::recalc_last_played_at).unwrap();
    assert_eq!(count(&conn, "SELECT last_played_at FROM albums"), 50);
}

#[test]
fn playing_a_track_is_counted() {
    let (conn, aid) = open_with_album();
    upsert_track(&conn, &sample(aid, "/m/a.flac", 100, 200)).unwrap();
    let id = count(&conn, "SELECT id FROM tracks");
    run(&conn, |a| bump_play_stats(id, 777, a)).unwrap();
    run(&conn, |a| bump_play_stats(id, 888, a)).unwrap();
    assert_eq!(count(&conn, "SELECT play_count FROM tracks"), 2);
    assert_eq!(count(&conn, "SELECT last_played_at FROM tracks"), 888);
    assert_eq!(count(&conn, "SELECT last_played_at FROM albums"), 888);
}

#[test]
fn known_tracks_are_looked_up() {
    let (conn, aid) = open_with_album();
    upsert_track(&conn, &sample(aid, "/m/a.flac", 100, 200)).unwrap();
    let id = count(&conn, "SELECT id FROM tracks");
    let found = run(&conn, |a| tracks::lookup_by_id(id, a)).unwrap().unwrap();
    assert_eq!(found.path, "/m/a.flac");
    assert_eq!(found.mime_type, "audio/flac");
    assert_eq!(found.file_size, 1234);
    assert!(run(&conn, |a| tracks::lookup_by_id(id + 1, a))
        .unwrap()
        .is_none());
}

#[test]
fn captured_tags_are_kept() {
    let (conn, aid) = open_with_album();
    let mut row = sample(aid, "/m/a.flac", 100, 200);
    row.rg_track_gain = Some("-7.30");
    row.rg_track_peak = Some("1");
    row.title_sort = Some("Song, The");
    row.original_year = Some(1969);
    row.mb_artist_id = Some("mb");
    upsert_track(&conn, &row).unwrap();
    let kept: (f64, f64, String, i64, String) = conn
        .query_row(
            "SELECT rg_track_gain, rg_track_peak, title_sort, original_year, mb_artist_id
             FROM tracks",
            [],
            |r| Ok((r.get(0)?, r.get(1)?, r.get(2)?, r.get(3)?, r.get(4)?)),
        )
        .unwrap();
    assert_eq!(
        kept,
        (-7.3, 1.0, "Song, The".to_string(), 1969, "mb".to_string())
    );
    row.rg_track_gain = None;
    row.mb_artist_id = Some("other");
    upsert_track(&conn, &row).unwrap();
    let kept: (Option<f64>, String) = conn
        .query_row("SELECT rg_track_gain, mb_artist_id FROM tracks", [], |r| {
            Ok((r.get(0)?, r.get(1)?))
        })
        .unwrap();
    assert_eq!(kept, (None, "other".to_string()));
}

#[test]
fn second_migration_leaves_everything_as_it_is() {
    let (conn, aid) = open_with_album();
    upsert_track(&conn, &sample(aid, "/m/a.flac", 100, 200)).unwrap();
    conn.execute("UPDATE tracks SET title_norm = NULL, artist_norm = 'pinned'", [])
        .unwrap();
    let seen = |conn: &Connection| -> (String, String, String) {
        conn.query_row(
            "SELECT title_norm, artist_norm, (SELECT value FROM server_state
             WHERE key = 'schema_version') FROM tracks",
            [],
            |r| Ok((r.get(0)?, r.get(1)?, r.get(2)?)),
        )
        .unwrap()
    };
    migrate(&conn).unwrap();
    let once = seen(&conn);
    assert_eq!(
        once,
        ("t".to_string(), "pinned".to_string(), "9".to_string())
    );
    migrate(&conn).unwrap();
    assert_eq!(seen(&conn), once);
}

#[test]
fn last_scan_is_told_only_where_a_report_is_kept() {
    let (conn, aid) = open_with_album();
    upsert_track(&conn, &sample(aid, "/m/a.flac", 100, 200)).unwrap();
    let facts = ServerFacts {
        started_at: 100,
        now: Some(160),
        gena_subscribers: 2,
        ssdp_listener_active: true,
        ssdp_advertiser_active: false,
        art_cache: ArtCacheStats { entries: 1, bytes: 3 },
        random_albums_buffered: 4,
    };
    let last = || {
        Some(LastScan {
            scan_id: "x".to_string(),
            completed_at: 5,
        })
    };
    let r = run(&conn, |a| admin::stats(facts, last(), a)).unwrap();
    assert!(r.last_scan.is_none());
    assert_eq!((r.albums_total, r.tracks_total), (1, 1));
    assert_eq!(r.total_duration_ms, 180_000);
    assert_eq!(r.uptime_seconds, 60);
    assert_eq!(r.system_update_id, 0);
    set_state(&conn, "last_scan_report", "{}").unwrap();
    set_state(&conn, "system_update_id", "7").unwrap();
    let r = run(&conn, |a| admin::stats(facts, last(), a)).unwrap();
    assert_eq!(r.last_scan.unwrap().scan_id, "x");
    assert_eq!(r.system_update_id, 7);
    assert_eq!(r.replaygain_tracks, 0);
    conn.execute("UPDATE tracks SET rg_track_gain = -7.5", []).unwrap();
    let r = run(&conn, |a| admin::stats(facts, None, a)).unwrap();
    assert_eq!(r.replaygain_tracks, 1);
}

#[test]
fn overrides_of_any_kind_are_shown_as_they_are() {
    let conn = open();
    let defaults = precompute_defaults(&sample_config());
    for raw in [r#"{"a":1}"#, "-3", "0.5"] {
        set_override(&conn, "browse.recently_added_limit", raw, 0).unwrap();
        let v = run(&conn, |a| effective_value(&defaults, "browse.recently_added_limit", a)).unwrap();
        assert!(matches!(v, JsonValue::Further(s) if s == raw));
    }
}

#[test]
fn misread_columns_are_named() {
    let (conn, aid) = open_with_album();
    upsert_track(&conn, &sample(aid, "/m/a.flac", 100, 200)).unwrap();
    let id = count(&conn, "SELECT id FROM tracks");
    conn.execute("UPDATE tracks SET file_size = x'00', mime_type = x'01'", [])
        .unwrap();
    let message = |conn: &Connection| {
        run(conn, |a| tracks::lookup_by_id(id, a))
            .unwrap_err()
            .message()
    };
    // What the database's own reader says of the same column.
    let own = conn
        .query_row("SELECT path, file_size FROM tracks", [], |r| r.get::<_, i64>(1))
        .unwrap_err();
    assert_eq!(message(&conn), format!("sqlite error: {own}"));
    assert_eq!(
        message(&conn),
        "sqlite error: Invalid column type Blob at index: 1, name: file_size"
    );
    conn.execute("UPDATE tracks SET file_size = 1, mime_type = NULL", [])
        .unwrap();
    assert_eq!(
        message(&conn),
        "sqlite error: Invalid column type Null at index: 2, name: mime_type"
    );
    conn.execute("UPDATE tracks SET mime_type = CAST(x'ff' AS TEXT)", [])
        .unwrap();
    let own = conn
        .query_row("SELECT path, file_size, mime_type FROM tracks", [], |r| {
            r.get::<_, String>(2)
        })
        .unwrap_err();
    assert_eq!(message(&conn), format!("sqlite error: {own}"));
}

#[test]
fn update_id_is_raised_only_for_changes() {
    let conn = open();
    set_state(&conn, "system_update_id", "4").unwrap();
    let mut stats = ScanReport::failure("x", 0, 0, 0, "e").stats;
    assert_eq!(run(&conn, |a| settle_update_id(&stats, a)).unwrap(), None);
    stats.tracks_updated = 1;
    assert_eq!(run(&conn, |a| settle_update_id(&stats, a)).unwrap(), Some(5));
    assert_eq!(get_state(&conn, "system_update_id").unwrap().as_deref(), Some("5"));
}
