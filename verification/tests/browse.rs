use revolver::browse::albums::{
    albums_by_unknown_decade_children, albums_by_unknown_genre_children,
    albums_by_unknown_year_children,
};
use revolver::browse::artist_tracks;
use revolver::browse::categories;
use revolver::browse::played;
use revolver::browse::quality;
use revolver::browse::random;
use revolver::browse::recent::{self, DAY_SECS};
use revolver::browse::tracks::{self as album_tracks, disc_layout_statement};
use revolver::browse::{self, BrowseContext, ChildrenResult, DidlOutput};
use revolver::db::albums::{self, AlbumKey};
use revolver::db::query::{Answer, SqlValue, Statement, Step};
use revolver::db::schema::{self, backfill, ensure_column, record_version, Task};
use revolver::db::tracks::{self, TrackRow, UpsertOutcome};
use revolver::db::udf::jaccard_trigram;
use revolver::error::{Error, SqliteError};
use revolver::random::RandomState;
use revolver::state::BrowseSettings;
use revolver::upnp::object_id::ObjectId;
use rusqlite::functions::FunctionFlags;
use rusqlite::types::{Value, ValueRef};
use rusqlite::{params_from_iter, Connection};

fn to_sqlite(value: &SqlValue) -> Value {
    match value {
        SqlValue::Null => Value::Null,
        SqlValue::Integer(n) => Value::Integer(*n),
        SqlValue::Text(s) => Value::Text(s.clone()),
        SqlValue::Real | SqlValue::Blob | SqlValue::Garbled(_) => Value::Null,
    }
}

fn from_sqlite(value: ValueRef<'_>) -> SqlValue {
    match value {
        ValueRef::Null => SqlValue::Null,
        ValueRef::Integer(n) => SqlValue::Integer(n),
        ValueRef::Text(bytes) => match std::str::from_utf8(bytes) {
            Ok(s) => SqlValue::Text(s.to_string()),
            Err(e) => SqlValue::Garbled(e.to_string()),
        },
        ValueRef::Real(_) => SqlValue::Real,
        ValueRef::Blob(_) => SqlValue::Blob,
    }
}

fn failed(e: rusqlite::Error) -> Answer {
    Answer::Failed(SqliteError::Failure(e.to_string()))
}

fn ask(conn: &Connection, s: &Statement) -> rusqlite::Result<Answer> {
    let mut stmt = conn.prepare(&s.sql)?;
    let columns: Vec<String> = stmt.column_names().iter().map(|n| n.to_string()).collect();
    let mut found = stmt.query(params_from_iter(s.params.iter().map(to_sqlite)))?;
    let mut rows = Vec::new();
    while let Some(row) = found.next()? {
        let mut cells = Vec::new();
        for i in 0..columns.len() {
            cells.push(from_sqlite(row.get_ref(i)?));
        }
        rows.push(cells);
    }
    Ok(Answer::Rows(rows, columns))
}

fn change(conn: &Connection, s: &Statement) -> Answer {
    match conn.execute(&s.sql, params_from_iter(s.params.iter().map(to_sqlite))) {
        Ok(n) => Answer::Rows(vec![vec![SqlValue::Integer(n as i64)]], Vec::new()),
        Err(e) => failed(e),
    }
}

fn run<T>(conn: &Connection, mut work: impl FnMut(&[Answer]) -> Step<T>) -> Result<T, Error> {
    let mut answers: Vec<Answer> = Vec::new();
    loop {
        match work(&answers) {
            Step::Query(s) => answers.push(match ask(conn, &s) {
                Ok(answer) => answer,
                Err(e) => failed(e),
            }),
            Step::Execute(s) => answers.push(change(conn, &s)),
            Step::Batch(sql) => answers.push(match conn.execute_batch(sql) {
                Ok(()) => Answer::Rows(Vec::new(), Vec::new()),
                Err(e) => failed(e),
            }),
            Step::Done(result) => return result,
        }
    }
}

fn ratio(a: &str, b: &str) -> f64 {
    let s = jaccard_trigram(a, b);
    if s.total == 0 {
        0.0
    } else {
        s.shared as f64 / s.total as f64
    }
}

fn register(conn: &Connection) -> rusqlite::Result<()> {
    conn.create_scalar_function(
        "jaccard_trigram",
        2,
        FunctionFlags::SQLITE_UTF8 | FunctionFlags::SQLITE_DETERMINISTIC,
        |ctx| {
            let a: Option<String> = ctx.get(0)?;
            let b: Option<String> = ctx.get(1)?;
            match (a, b) {
                (Some(a), Some(b)) => Ok(ratio(&a, &b)),
                _ => Ok(0.0),
            }
        },
    )
}

fn migrate(conn: &Connection) -> Result<(), Error> {
    for task in schema::migrate() {
        match task {
            Task::Script(sql) => conn.execute_batch(sql).unwrap(),
            Task::Column(c) => {
                run(conn, |a| ensure_column(c.table, c.column, c.definition, a))?;
            }
            Task::Run(sql) => {
                conn.execute(sql, []).unwrap();
            }
            Task::Backfill(table) => {
                for s in run(conn, |a| backfill(table, a))? {
                    assert!(matches!(change(conn, &s), Answer::Rows(..)));
                }
            }
            Task::RegisterFunctions => register(conn).unwrap(),
            Task::RecordVersion => {
                assert!(matches!(change(conn, &record_version()), Answer::Rows(..)));
            }
        }
    }
    Ok(())
}

fn open_in_memory_migrated() -> Connection {
    let conn = Connection::open_in_memory().unwrap();
    conn.execute_batch("PRAGMA foreign_keys = ON;").unwrap();
    migrate(&conn).unwrap();
    conn
}

fn upsert_album(
    conn: &Connection,
    key: &AlbumKey,
    raw: Option<&str>,
    first_seen_at: i64,
) -> Result<i64, Error> {
    run(conn, |a| albums::upsert(key, raw, first_seen_at, a))
}

fn upsert_track(conn: &Connection, row: &TrackRow) -> Result<UpsertOutcome, Error> {
    run(conn, |a| tracks::upsert(row, a))
}

fn recalc_counts(conn: &Connection) -> Result<(), Error> {
    run(conn, albums::recalc_counts)
}

/// A context, and the database that it is used with.
struct Ctx<'a> {
    conn: &'a Connection,
    browse: BrowseContext<'a>,
}

fn default_ctx<'a>(
    conn: &'a Connection,
    random_state: &'a RandomState,
    settings: &'a BrowseSettings,
    now_secs: i64,
) -> Ctx<'a> {
    Ctx {
        conn,
        browse: BrowseContext {
            art_base_url: "http://x/art",
            stream_base_url: "http://x/stream",
            random_state,
            now_secs,
            settings,
        },
    }
}

fn ctx(conn: &Connection) -> Ctx<'_> {
    default_ctx(
        conn,
        Box::leak(Box::new(RandomState::new())),
        Box::leak(Box::new(BrowseSettings::default())),
        0,
    )
}

fn recalc_quality(conn: &Connection) -> Result<(), Error> {
    run(conn, albums::recalc_quality)
}

fn recalc_last_added_at(conn: &Connection) -> Result<(), Error> {
    run(conn, albums::recalc_last_added_at)
}

fn delete_orphans(conn: &Connection) -> Result<usize, Error> {
    run(conn, albums::delete_orphans)
}

fn bump_album_last_played_at(conn: &Connection, id: i64, now: i64) -> Result<(), Error> {
    run(conn, |a| albums::bump_album_last_played_at(id, now, a))
}

/// A track as it mostly is: 44.1 kHz, 16 bit FLAC of three minutes.
fn default_track_row<'a>(album_id: i64, path: &'a str, added_at: i64) -> TrackRow<'a> {
    TrackRow {
        album_id,
        path,
        title: Some("T"),
        artist: Some("AA"),
        genre: None,
        track_num: Some(1),
        disc_num: Some(1),
        duration_ms: Some(180_000),
        sample_rate: Some(44100),
        bit_depth: Some(16),
        channels: Some(2),
        bitrate: Some(1000),
        codec: "flac",
        mime_type: "audio/flac",
        file_size: 1,
        added_at,
        mtime: 0,
        composer: None,
        conductor: None,
        performer: None,
        year: None,
        rg_track_gain: None,
        rg_track_peak: None,
        rg_album_gain: None,
        rg_album_peak: None,
        artist_sort: None,
        album_artist_sort: None,
        album_sort: None,
        title_sort: None,
        composer_sort: None,
        original_year: None,
        mb_recording_id: None,
        mb_release_id: None,
        mb_release_group_id: None,
        mb_artist_id: None,
        mb_release_artist_id: None,
    }
}

fn browse_children(
    ctx: &Ctx,
    id: &ObjectId,
    start: usize,
    count: usize,
) -> Result<ChildrenResult, Error> {
    run(ctx.conn, |a| {
        browse::browse_children(&ctx.browse, id, start, count, a)
    })
}

fn browse_metadata(ctx: &Ctx, id: &ObjectId) -> Result<DidlOutput, Error> {
    run(ctx.conn, |a| browse::browse_metadata(&ctx.browse, id, a))
}

// ── Objects ──────────────────────────────────────────────────────────────

fn seed_db() -> Connection {
    let conn = open_in_memory_migrated();

    let beatles_id = upsert_album(
        &conn,
        &AlbumKey {
            effective_album_artist: "The Beatles",
            album: "Abbey Road",
            compilation: false,
        },
        Some("The Beatles"),
        100,
    )
    .unwrap();
    let va_id = upsert_album(
        &conn,
        &AlbumKey {
            effective_album_artist: "Various Artists",
            album: "Hits",
            compilation: true,
        },
        None,
        100,
    )
    .unwrap();

    upsert_track(
        &conn,
        &TrackRow {
            album_id: beatles_id,
            path: "/m/come_together.flac",
            title: Some("Come Together"),
            artist: Some("The Beatles"),
            genre: Some("Rock"),
            track_num: Some(1),
            disc_num: Some(1),
            duration_ms: Some(259_000),
            sample_rate: Some(44100),
            bit_depth: Some(16),
            channels: Some(2),
            bitrate: Some(1000),
            codec: "flac",
            mime_type: "audio/flac",
            file_size: 1234,
            added_at: 100,
            mtime: 200,
            composer: None,
            conductor: None,
            performer: None,
            year: Some(1969),
            rg_track_gain: None,
            rg_track_peak: None,
            rg_album_gain: None,
            rg_album_peak: None,
            artist_sort: None,
            album_artist_sort: None,
            album_sort: None,
            title_sort: None,
            composer_sort: None,
            original_year: None,
            mb_recording_id: None,
            mb_release_id: None,
            mb_release_group_id: None,
            mb_artist_id: None,
            mb_release_artist_id: None,
        },
    )
    .unwrap();
    upsert_track(
        &conn,
        &TrackRow {
            album_id: beatles_id,
            path: "/m/something.flac",
            title: Some("Something"),
            artist: Some("The Beatles"),
            genre: Some("Rock"),
            track_num: Some(2),
            disc_num: Some(1),
            duration_ms: Some(183_000),
            sample_rate: Some(44100),
            bit_depth: Some(16),
            channels: Some(2),
            bitrate: Some(1000),
            codec: "flac",
            mime_type: "audio/flac",
            file_size: 1234,
            added_at: 100,
            mtime: 200,
            composer: None,
            conductor: None,
            performer: None,
            year: Some(1969),
            rg_track_gain: None,
            rg_track_peak: None,
            rg_album_gain: None,
            rg_album_peak: None,
            artist_sort: None,
            album_artist_sort: None,
            album_sort: None,
            title_sort: None,
            composer_sort: None,
            original_year: None,
            mb_recording_id: None,
            mb_release_id: None,
            mb_release_group_id: None,
            mb_artist_id: None,
            mb_release_artist_id: None,
        },
    )
    .unwrap();
    upsert_track(
        &conn,
        &TrackRow {
            album_id: va_id,
            path: "/m/va_track.mp3",
            title: Some("VA Track"),
            artist: Some("Some Singer"),
            genre: Some("Pop"),
            track_num: Some(1),
            disc_num: Some(1),
            duration_ms: Some(200_000),
            sample_rate: Some(44100),
            bit_depth: None,
            channels: Some(2),
            bitrate: Some(320),
            codec: "mp3",
            mime_type: "audio/mpeg",
            file_size: 4567,
            added_at: 100,
            mtime: 200,
            composer: None,
            conductor: None,
            performer: None,
            year: Some(2001),
            rg_track_gain: None,
            rg_track_peak: None,
            rg_album_gain: None,
            rg_album_peak: None,
            artist_sort: None,
            album_artist_sort: None,
            album_sort: None,
            title_sort: None,
            composer_sort: None,
            original_year: None,
            mb_recording_id: None,
            mb_release_id: None,
            mb_release_group_id: None,
            mb_artist_id: None,
            mb_release_artist_id: None,
        },
    )
    .unwrap();

    recalc_counts(&conn).unwrap();
    conn
}

#[test]
fn br1_root_children_returns_twelve_categories() {
    // Seed has track years (Beatles 1969 + VA 2001) so cat:yr / cat:dec
    // self-show; plus 10 non-classical / non-year facets = 12 total.
    let conn = seed_db();
    let result = browse_children(&ctx(&conn), &ObjectId::Root, 0, 100).unwrap();
    assert_eq!(result.total_matches, 12);
    assert_eq!(result.didl.containers.len(), 12);
    let ids: Vec<String> = result
        .didl
        .containers
        .iter()
        .map(|c| c.id.clone())
        .collect();
    for expected in [
        "cat:aa",
        "cat:ar",
        "cat:al",
        "cat:gn",
        "cat:recent",
        "cat:played",
        "cat:random",
        "cat:hires",
        "cat:lossy",
        "cat:mixed",
        "cat:yr",
        "cat:dec",
    ] {
        assert!(ids.contains(&expected.to_string()), "missing {}", expected);
    }
}

#[test]
fn br2_cat_aa_children_returns_distinct_album_artists() {
    let conn = seed_db();
    let result = browse_children(&ctx(&conn), &ObjectId::CatAa, 0, 100).unwrap();
    assert_eq!(result.total_matches, 2);
    let titles: Vec<&str> = result
        .didl
        .containers
        .iter()
        .map(|c| c.title.as_str())
        .collect();
    assert!(titles.contains(&"The Beatles"));
    assert!(titles.contains(&"Various Artists"));
}

#[test]
fn br3_aa_name_children_returns_artist_albums() {
    // An `at:{X}` synthetic container precedes the album list when
    // the artist has track-level rows. Beatles has 2 tracks tagged with
    // artist=The Beatles, so total = 1 album + 1 shortcut.
    let conn = seed_db();
    let result = browse_children(
        &ctx(&conn),
        &ObjectId::AlbumArtist("The Beatles".to_string()),
        0,
        100,
    )
    .unwrap();
    assert_eq!(result.total_matches, 2);
    assert_eq!(result.didl.containers.len(), 2);
    assert!(result.didl.containers[0].id.starts_with("at:"));
    assert_eq!(result.didl.containers[0].title, "All tracks (2)");
    assert_eq!(result.didl.containers[1].title, "Abbey Road");
    assert_eq!(result.didl.containers[1].child_count, Some(2));
}

#[test]
fn br3b_ar_name_children_also_prepends_at_shortcut() {
    // ar:{Some Singer} → 1 album (Hits) preceded by `at:{Some Singer}`.
    let conn = seed_db();
    let result = browse_children(
        &ctx(&conn),
        &ObjectId::Artist("Some Singer".to_string()),
        0,
        100,
    )
    .unwrap();
    assert_eq!(result.total_matches, 2);
    assert!(result.didl.containers[0].id.starts_with("at:"));
    assert_eq!(result.didl.containers[0].title, "All tracks (1)");
    assert_eq!(result.didl.containers[1].title, "Hits");
}

#[test]
fn br3c_aa_name_pagination_start_one_skips_shortcut() {
    // start=1 means the shortcut is treated as the consumed slot 0; the
    // album page begins at the same offset it would have without the
    // shortcut. total_matches still reflects the synthetic slot.
    let conn = seed_db();
    let result = browse_children(
        &ctx(&conn),
        &ObjectId::AlbumArtist("The Beatles".to_string()),
        1,
        100,
    )
    .unwrap();
    assert_eq!(result.total_matches, 2);
    assert_eq!(result.didl.containers.len(), 1);
    assert_eq!(result.didl.containers[0].title, "Abbey Road");
}

#[test]
fn br3d_aa_name_count_one_returns_shortcut_only() {
    // Tight count budget at the head of the list shows just the
    // shortcut; the album is left for the next page.
    let conn = seed_db();
    let result = browse_children(
        &ctx(&conn),
        &ObjectId::AlbumArtist("The Beatles".to_string()),
        0,
        1,
    )
    .unwrap();
    assert_eq!(result.total_matches, 2);
    assert_eq!(result.didl.containers.len(), 1);
    assert!(result.didl.containers[0].id.starts_with("at:"));
}

#[test]
fn br4_alb_id_children_returns_tracks_in_order() {
    let conn = seed_db();
    let album_id: i64 = conn
        .query_row(
            "SELECT id FROM albums WHERE album = 'Abbey Road'",
            [],
            |r| r.get(0),
        )
        .unwrap();
    let result = browse_children(&ctx(&conn), &ObjectId::Album(album_id), 0, 100).unwrap();
    assert_eq!(result.total_matches, 2);
    assert_eq!(result.didl.items.len(), 2);
    assert_eq!(result.didl.items[0].title, "Come Together");
    assert_eq!(result.didl.items[1].title, "Something");
    assert!(result.didl.items[0].res.url.contains("/stream/"));
}

#[test]
fn br5_cat_al_children_returns_all_albums() {
    let conn = seed_db();
    let result = browse_children(&ctx(&conn), &ObjectId::CatAl, 0, 100).unwrap();
    assert_eq!(result.total_matches, 2);
    let titles: Vec<&str> = result
        .didl
        .containers
        .iter()
        .map(|c| c.title.as_str())
        .collect();
    assert!(titles.contains(&"Abbey Road"));
    assert!(titles.contains(&"Hits"));
}

#[test]
fn br6_browse_metadata_for_root() {
    let conn = seed_db();
    let result = browse_metadata(&ctx(&conn), &ObjectId::Root).unwrap();
    assert_eq!(result.containers.len(), 1);
    assert_eq!(result.containers[0].id, "0");
    assert_eq!(result.containers[0].title, "Music Library");
}

#[test]
fn br7_empty_db_categories_return_zero_total() {
    // Browsing each cat:* on a 0-item library returns empty, not an error.
    let conn = open_in_memory_migrated();
    for id in [
        ObjectId::CatAa,
        ObjectId::CatAr,
        ObjectId::CatAl,
        ObjectId::CatGn,
    ] {
        let r = browse_children(&ctx(&conn), &id, 0, 100).unwrap();
        assert_eq!(r.total_matches, 0, "category {:?} should be empty", id);
        assert!(r.didl.containers.is_empty());
        assert!(r.didl.items.is_empty());
    }
}

#[test]
fn br8_unknown_album_metadata_returns_not_found() {
    // A nonexistent album_id surfaces as `Error::NotFound` so the SOAP
    // handler can map it to UPnP `701 NoSuchObject` (vs `500 InternalError`
    // for genuine DB failures).
    let conn = open_in_memory_migrated();
    let Err(err) = browse_metadata(&ctx(&conn), &ObjectId::Album(99999)) else {
        panic!("expected NotFound, got Ok");
    };
    assert!(
        matches!(err, Error::NotFound { kind: "album", .. }),
        "expected NotFound{{kind=album}}, got {err:?}",
    );
}

#[test]
fn br9_unknown_track_metadata_returns_not_found() {
    let conn = open_in_memory_migrated();
    let Err(err) = browse_metadata(&ctx(&conn), &ObjectId::Track(99999)) else {
        panic!("expected NotFound, got Ok");
    };
    assert!(
        matches!(err, Error::NotFound { kind: "track", .. }),
        "expected NotFound{{kind=track}}, got {err:?}",
    );
}

#[test]
fn br10_unknown_aa_name_children_returns_zero() {
    // Browsing a nonexistent AA name: SQL returns 0 rows, not an error.
    let conn = seed_db();
    let r = browse_children(
        &ctx(&conn),
        &ObjectId::AlbumArtist("Nobody".to_string()),
        0,
        100,
    )
    .unwrap();
    assert_eq!(r.total_matches, 0);
}

#[test]
fn br11_browse_track_object_returns_empty_children() {
    // Per spec, DirectChildren of ObjectId::Track is 0 (Track is a leaf).
    let conn = seed_db();
    let r = browse_children(&ctx(&conn), &ObjectId::Track(1), 0, 100).unwrap();
    assert_eq!(r.total_matches, 0);
    assert!(r.didl.containers.is_empty());
    assert!(r.didl.items.is_empty());
}

// ── Year / Decade dispatch ──────────────────────────────────────

#[test]
fn br12_cat_yr_returns_both_distinct_years() {
    // Seed has Beatles 1969 + VA 2001 → cat:yr enumerates both, newest first.
    let conn = seed_db();
    let r = browse_children(&ctx(&conn), &ObjectId::CatYr, 0, 100).unwrap();
    assert_eq!(r.total_matches, 2);
    let titles: Vec<&str> = r.didl.containers.iter().map(|c| c.title.as_str()).collect();
    assert_eq!(titles, vec!["2001", "1969"]);
}

#[test]
fn br13_year_children_filters_to_matching_album() {
    // yr:1969 returns Abbey Road only; yr:2001 returns Hits only.
    let conn = seed_db();
    let r = browse_children(&ctx(&conn), &ObjectId::Year(1969), 0, 100).unwrap();
    assert_eq!(r.total_matches, 1);
    assert_eq!(r.didl.containers[0].title, "Abbey Road");
    let r2 = browse_children(&ctx(&conn), &ObjectId::Year(2001), 0, 100).unwrap();
    assert_eq!(r2.total_matches, 1);
    assert_eq!(r2.didl.containers[0].title, "Hits");
}

#[test]
fn br14_decade_children_bucketizes_by_ten_years() {
    // dec:1960 picks up 1969; dec:2000 picks up 2001.
    let conn = seed_db();
    let r = browse_children(&ctx(&conn), &ObjectId::Decade(1960), 0, 100).unwrap();
    assert_eq!(r.total_matches, 1);
    assert_eq!(r.didl.containers[0].title, "Abbey Road");
    let r2 = browse_children(&ctx(&conn), &ObjectId::Decade(2000), 0, 100).unwrap();
    assert_eq!(r2.total_matches, 1);
    assert_eq!(r2.didl.containers[0].title, "Hits");
}

#[test]
fn br15_year_with_no_matches_returns_zero() {
    let conn = seed_db();
    let r = browse_children(&ctx(&conn), &ObjectId::Year(1500), 0, 100).unwrap();
    assert_eq!(r.total_matches, 0);
    assert!(r.didl.containers.is_empty());
}

// ── Categories ───────────────────────────────────────────────────────────

fn root_children(ctx: &Ctx) -> ChildrenResult {
    run(ctx.conn, |a| categories::root_children(&ctx.browse, a)).unwrap()
}

#[test]
fn cr1_root_children_with_quality_default_returns_10() {
    let conn = open_in_memory_migrated();
    let rs = RandomState::new();
    let s = BrowseSettings::default(); // quality_categories = true
    let r = root_children(&default_ctx(&conn, &rs, &s, 0));
    assert_eq!(r.total_matches, 10);
    let ids: Vec<&str> = r.didl.containers.iter().map(|c| c.id.as_str()).collect();
    assert!(ids.contains(&"cat:hires"));
    assert!(ids.contains(&"cat:lossy"));
    assert!(ids.contains(&"cat:mixed"));
}

#[test]
fn cr2_root_children_with_quality_off_omits_quality_categories() {
    let conn = open_in_memory_migrated();
    let rs = RandomState::new();
    let s = BrowseSettings::from_parts(50, None, 100, false); // quality_categories = false
    let r = root_children(&default_ctx(&conn, &rs, &s, 0));
    assert_eq!(r.total_matches, 7);
    let ids: Vec<&str> = r.didl.containers.iter().map(|c| c.id.as_str()).collect();
    assert!(!ids.contains(&"cat:hires"));
    assert!(!ids.contains(&"cat:lossy"));
    assert!(!ids.contains(&"cat:mixed"));
    // The remaining 7 are required.
    for expected in [
        "cat:aa",
        "cat:ar",
        "cat:al",
        "cat:gn",
        "cat:recent",
        "cat:played",
        "cat:random",
    ] {
        assert!(ids.contains(&expected), "missing {}", expected);
    }
}

// ── Recently played ──────────────────────────────────────────────────────

fn played_albums_children(
    ctx: &Ctx,
    start: usize,
    count: usize,
) -> Result<ChildrenResult, Error> {
    run(ctx.conn, |a| {
        played::played_albums_children(&ctx.browse, start, count, a)
    })
}

fn seed_with_play_history(history: &[(&str, Option<i64>)]) -> Connection {
    let conn = open_in_memory_migrated();
    for (name, last_played) in history {
        let aid = upsert_album(
            &conn,
            &AlbumKey {
                effective_album_artist: "AA",
                album: name,
                compilation: false,
            },
            None,
            0,
        )
        .unwrap();
        let path = format!("/m/{}.flac", name);
        upsert_track(&conn, &default_track_row(aid, &path, 0)).unwrap();
        if let Some(lp) = last_played {
            conn.execute(
                "UPDATE tracks SET last_played_at = ?1, play_count = 1
                 WHERE album_id = ?2",
                (lp, aid),
            )
            .unwrap();
            // denormalize: in production this happens in the hot path via
            // bump_album_last_played_at. Batch recalc in tests yields the same result.
            bump_album_last_played_at(&conn, aid, *lp).unwrap();
        }
    }
    recalc_counts(&conn).unwrap();
    conn
}

#[test]
fn pb1_orders_by_max_last_played_at_desc() {
    let conn = seed_with_play_history(&[
        ("Old", Some(100)),
        ("Newest", Some(300)),
        ("Middle", Some(200)),
    ]);
    let r = played_albums_children(&ctx(&conn), 0, 100).unwrap();
    assert_eq!(r.total_matches, 3);
    let titles: Vec<&str> = r.didl.containers.iter().map(|c| c.title.as_str()).collect();
    assert_eq!(titles, vec!["Newest", "Middle", "Old"]);
}

#[test]
fn pb2_unplayed_albums_are_excluded() {
    let conn = seed_with_play_history(&[("Played", Some(100)), ("NeverPlayed", None)]);
    let r = played_albums_children(&ctx(&conn), 0, 100).unwrap();
    assert_eq!(r.total_matches, 1);
    assert_eq!(r.didl.containers[0].title, "Played");
}

#[test]
fn pb3_pagination() {
    let conn = seed_with_play_history(&[("A", Some(100)), ("B", Some(200)), ("C", Some(300))]);
    let r = played_albums_children(&ctx(&conn), 1, 1).unwrap();
    assert_eq!(r.total_matches, 3);
    assert_eq!(r.didl.containers.len(), 1);
    // DESC [C, B, A] with offset=1 → B
    assert_eq!(r.didl.containers[0].title, "B");
}

#[test]
fn pb4_parent_id_is_cat_played() {
    let conn = seed_with_play_history(&[("X", Some(100))]);
    let r = played_albums_children(&ctx(&conn), 0, 100).unwrap();
    for c in &r.didl.containers {
        assert_eq!(c.parent_id, "cat:played");
    }
}

#[test]
fn pb5_empty_history_returns_zero() {
    let conn = open_in_memory_migrated();
    let r = played_albums_children(&ctx(&conn), 0, 100).unwrap();
    assert_eq!(r.total_matches, 0);
    assert!(r.didl.containers.is_empty());
}

// ── Quality ──────────────────────────────────────────────────────────────

fn ctx_random<'a>(conn: &'a Connection, rs: &'a RandomState) -> Ctx<'a> {
    default_ctx(conn, rs, Box::leak(Box::new(BrowseSettings::default())), 0)
}

fn quality_albums_children(
    ctx: &Ctx,
    quality: &str,
    parent: &str,
    start: usize,
    count: usize,
) -> Result<ChildrenResult, Error> {
    run(ctx.conn, |a| {
        quality::quality_albums_children(&ctx.browse, quality, parent, start, count, a)
    })
}

/// Build a DB containing one each of hires/lossless/lossy/mixed/unknown.
/// Quality detection needs per-track codec / sample_rate / bit_depth, so
/// we set rows via raw SQL instead of `default_track_row` (different shape
/// from other views is acceptable here).
fn seed_mixed_quality() -> Connection {
    let conn = open_in_memory_migrated();

    let make = |aa: &str, album: &str| -> i64 {
        upsert_album(
            &conn,
            &AlbumKey {
                effective_album_artist: aa,
                album,
                compilation: false,
            },
            None,
            0,
        )
        .unwrap()
    };
    let insert = |aid: i64, path: &str, codec: &str, sr: u32, bd: u32| {
        conn.execute(
            "INSERT INTO tracks (album_id, path, codec, sample_rate, bit_depth,
                                 duration_ms, added_at, mtime, mime_type, file_size)
             VALUES (?1, ?2, ?3, ?4, ?5, 0, 0, 0, 'x', 0)",
            (aid, path, codec, sr, bd),
        )
        .unwrap();
    };

    // hires
    let hd = make("AA1", "HD");
    insert(hd, "/m/hd.flac", "flac", 96000, 24);
    // lossless
    let cd = make("AA2", "CD");
    insert(cd, "/m/cd.flac", "flac", 44100, 16);
    // lossy
    let mp3 = make("AA3", "Pop");
    insert(mp3, "/m/p.mp3", "mp3", 44100, 0);
    // mixed (flac + mp3)
    let mix = make("AA4", "Mix");
    insert(mix, "/m/m1.flac", "flac", 44100, 16);
    insert(mix, "/m/m2.mp3", "mp3", 44100, 0);

    recalc_counts(&conn).unwrap();
    recalc_quality(&conn).unwrap();
    conn
}

#[test]
fn qb1_hires_returns_only_hires_albums() {
    let conn = seed_mixed_quality();
    let rs = RandomState::new();
    let r =
        quality_albums_children(&ctx_random(&conn, &rs), "hires", "cat:hires", 0, 100).unwrap();
    assert_eq!(r.total_matches, 1);
    assert_eq!(r.didl.containers[0].title, "HD");
    assert_eq!(r.didl.containers[0].parent_id, "cat:hires");
}

#[test]
fn qb2_lossy_returns_only_lossy_albums() {
    let conn = seed_mixed_quality();
    let rs = RandomState::new();
    let r =
        quality_albums_children(&ctx_random(&conn, &rs), "lossy", "cat:lossy", 0, 100).unwrap();
    assert_eq!(r.total_matches, 1);
    assert_eq!(r.didl.containers[0].title, "Pop");
}

#[test]
fn qb3_mixed_returns_only_mixed_albums() {
    let conn = seed_mixed_quality();
    let rs = RandomState::new();
    let r =
        quality_albums_children(&ctx_random(&conn, &rs), "mixed", "cat:mixed", 0, 100).unwrap();
    assert_eq!(r.total_matches, 1);
    assert_eq!(r.didl.containers[0].title, "Mix");
}

#[test]
fn qb4_pagination_offset_and_count() {
    let conn = seed_mixed_quality();
    // Add one more hires album to reach 2 entries.
    let hd2 = upsert_album(
        &conn,
        &AlbumKey {
            effective_album_artist: "AA0",
            album: "HD2",
            compilation: false,
        },
        None,
        0,
    )
    .unwrap();
    conn.execute(
        "INSERT INTO tracks (album_id, path, codec, sample_rate, bit_depth,
                             duration_ms, added_at, mtime, mime_type, file_size)
         VALUES (?1, '/m/hd2.flac', 'flac', 192000, 24, 0, 0, 0, 'x', 0)",
        [hd2],
    )
    .unwrap();
    recalc_quality(&conn).unwrap();

    let rs = RandomState::new();
    let r = quality_albums_children(&ctx_random(&conn, &rs), "hires", "cat:hires", 1, 1).unwrap();
    assert_eq!(r.total_matches, 2);
    assert_eq!(r.didl.containers.len(), 1);
    // AA0 < AA1, so AA0(HD2) comes first; offset=1 returns AA1(HD).
    assert_eq!(r.didl.containers[0].title, "HD");
}

#[test]
fn qb5_empty_quality_returns_zero() {
    let conn = open_in_memory_migrated();
    let rs = RandomState::new();
    let r =
        quality_albums_children(&ctx_random(&conn, &rs), "hires", "cat:hires", 0, 100).unwrap();
    assert_eq!(r.total_matches, 0);
    assert!(r.didl.containers.is_empty());
}

// ── Random albums ────────────────────────────────────────────────────────

fn draw(conn: &Connection, s: &mut RandomState, limit: Option<usize>) -> Result<usize, Error> {
    run(conn, |a| s.reshuffle(limit, 0, a))
}

fn random_albums_children(
    ctx: &Ctx,
    start: usize,
    count: usize,
) -> Result<ChildrenResult, Error> {
    run(ctx.conn, |a| {
        random::random_albums_children(&ctx.browse, start, count, a)
    })
}

fn seed_three_albums() -> Connection {
    let conn = open_in_memory_migrated();
    for name in ["A", "B", "C"] {
        let aid = upsert_album(
            &conn,
            &AlbumKey {
                effective_album_artist: "AA",
                album: name,
                compilation: false,
            },
            None,
            0,
        )
        .unwrap();
        let path = format!("/m/{}.flac", name);
        upsert_track(&conn, &default_track_row(aid, &path, 0)).unwrap();
    }
    recalc_counts(&conn).unwrap();
    conn
}

#[test]
fn rb1_random_follows_state_order() {
    let conn = seed_three_albums();
    let mut rs = RandomState::new();
    draw(&conn, &mut rs, Some(1000)).unwrap();

    let r = random_albums_children(&ctx_random(&conn, &rs), 0, 100).unwrap();
    assert_eq!(r.total_matches, 3);
    assert_eq!(r.didl.containers.len(), 3);
    // Order must match page(0,100) (reshuffle result and DB-fetched result are consistent).
    let got_ids: Vec<i64> = r
        .didl
        .containers
        .iter()
        .map(|c| c.id.strip_prefix("alb:").unwrap().parse().unwrap())
        .collect();
    let expected = rs.page(0, 100);
    assert_eq!(got_ids, expected);
}

#[test]
fn rb2_pagination_offset_and_count() {
    let conn = seed_three_albums();
    let mut rs = RandomState::new();
    draw(&conn, &mut rs, Some(1000)).unwrap();

    let r = random_albums_children(&ctx_random(&conn, &rs), 1, 1).unwrap();
    assert_eq!(r.total_matches, 3);
    assert_eq!(r.didl.containers.len(), 1);
    let got_id: i64 = r.didl.containers[0]
        .id
        .strip_prefix("alb:")
        .unwrap()
        .parse()
        .unwrap();
    assert_eq!(got_id, rs.page(1, 1)[0]);
}

#[test]
fn rb3_empty_state_returns_zero() {
    let conn = seed_three_albums();
    // Un-reshuffled RandomState → empty array.
    let rs = RandomState::new();
    let r = random_albums_children(&ctx_random(&conn, &rs), 0, 100).unwrap();
    assert_eq!(r.total_matches, 0);
    assert!(r.didl.containers.is_empty());
}

#[test]
fn rb4_parent_id_is_cat_random() {
    let conn = seed_three_albums();
    let mut rs = RandomState::new();
    draw(&conn, &mut rs, Some(1000)).unwrap();
    let r = random_albums_children(&ctx_random(&conn, &rs), 0, 100).unwrap();
    for c in &r.didl.containers {
        assert_eq!(c.parent_id, "cat:random");
    }
}

#[test]
fn rb5_stale_album_id_in_state_is_skipped() {
    // Stale album_ids in state that no longer exist are skipped without panic.
    let conn = seed_three_albums();
    let mut rs = RandomState::new();
    draw(&conn, &mut rs, Some(1000)).unwrap();
    // Delete all tracks then delete_orphans on albums → only state retains stale ids.
    conn.execute("DELETE FROM tracks", []).unwrap();
    delete_orphans(&conn).unwrap();

    let r = random_albums_children(&ctx_random(&conn, &rs), 0, 100).unwrap();
    // total is state-based (3); containers is 0 since rows are missing in DB.
    assert_eq!(r.total_matches, 3);
    assert_eq!(r.didl.containers.len(), 0);
}

#[test]
fn rb6_total_matches_respects_reshuffle_limit() {
    // 3 albums in DB, but reshuffle was called with limit=2 → cat:random
    // surfaces only 2, and `total_matches` reflects the cap (so Linn does
    // not page beyond it).
    let conn = seed_three_albums();
    let mut rs = RandomState::new();
    draw(&conn, &mut rs, Some(2)).unwrap();
    let r = random_albums_children(&ctx_random(&conn, &rs), 0, 100).unwrap();
    assert_eq!(r.total_matches, 2);
    assert_eq!(r.didl.containers.len(), 2);
}

// ── Recently added ───────────────────────────────────────────────────────

fn ctx_at(conn: &Connection, now_secs: i64) -> Ctx<'_> {
    default_ctx(
        conn,
        Box::leak(Box::new(RandomState::new())),
        Box::leak(Box::new(BrowseSettings::default())),
        now_secs,
    )
}

fn ctx_with_max_age(conn: &Connection, now_secs: i64, max_age_days: u32) -> Ctx<'_> {
    let settings = BrowseSettings {
        recently_added_max_age_days: Some(max_age_days),
        ..BrowseSettings::default()
    };
    default_ctx(
        conn,
        Box::leak(Box::new(RandomState::new())),
        Box::leak(Box::new(settings)),
        now_secs,
    )
}

fn ctx_with_limit(conn: &Connection, now_secs: i64, limit: usize) -> Ctx<'_> {
    let settings = BrowseSettings {
        recently_added_limit: limit,
        ..BrowseSettings::default()
    };
    default_ctx(
        conn,
        Box::leak(Box::new(RandomState::new())),
        Box::leak(Box::new(settings)),
        now_secs,
    )
}

fn recent_root_children(ctx: &Ctx, start: usize, count: usize) -> Result<ChildrenResult, Error> {
    run(ctx.conn, |a| {
        recent::recent_root_children(&ctx.browse, start, count, a)
    })
}

/// Create albums with arbitrary `added_at` values. Each album has 1 track.
fn seed_with_added_at(added_ats: &[(&str, i64)]) -> Connection {
    let conn = open_in_memory_migrated();
    for (name, added) in added_ats {
        let aid = upsert_album(
            &conn,
            &AlbumKey {
                effective_album_artist: "AA",
                album: name,
                compilation: false,
            },
            None,
            0,
        )
        .unwrap();
        let path = format!("/m/{}.flac", name);
        upsert_track(&conn, &default_track_row(aid, &path, *added)).unwrap();
    }
    recalc_counts(&conn).unwrap();
    recalc_last_added_at(&conn).unwrap();
    conn
}

// Use 2024-01-01 00:00:00 UTC as the reference time (fixed for reproducible tests).
const NOW_2024_01_01: i64 = 1704067200;

#[test]
fn rr1_no_age_cap_returns_all_albums_in_recency_order() {
    let conn = seed_with_added_at(&[
        ("Old", NOW_2024_01_01 - 2 * 365 * DAY_SECS),
        ("Recent", NOW_2024_01_01 - DAY_SECS),
    ]);
    let r = recent_root_children(&ctx_at(&conn, NOW_2024_01_01), 0, 100).unwrap();
    assert_eq!(r.total_matches, 2);
    assert_eq!(r.didl.containers[0].title, "Recent");
    assert_eq!(r.didl.containers[1].title, "Old");
}

#[test]
fn rr2_age_cap_excludes_older_albums() {
    let conn = seed_with_added_at(&[
        ("InsideWindow", NOW_2024_01_01 - 3 * DAY_SECS),
        ("OutsideWindow", NOW_2024_01_01 - 10 * DAY_SECS),
    ]);
    // 5-day cap: only InsideWindow qualifies.
    let ctx = ctx_with_max_age(&conn, NOW_2024_01_01, 5);
    let r = recent_root_children(&ctx, 0, 100).unwrap();
    assert_eq!(r.total_matches, 1);
    assert_eq!(r.didl.containers[0].title, "InsideWindow");
}

#[test]
fn rr3_parent_id_is_cat_recent() {
    let conn = seed_with_added_at(&[("A", NOW_2024_01_01 - DAY_SECS)]);
    let r = recent_root_children(&ctx_at(&conn, NOW_2024_01_01), 0, 100).unwrap();
    assert_eq!(r.didl.containers[0].parent_id, "cat:recent");
}

#[test]
fn rr4_pagination_offset_and_count() {
    let conn = seed_with_added_at(&[
        ("A", NOW_2024_01_01 - 3),
        ("B", NOW_2024_01_01 - 2),
        ("C", NOW_2024_01_01 - 1),
    ]);
    let r = recent_root_children(&ctx_at(&conn, NOW_2024_01_01), 1, 1).unwrap();
    assert_eq!(r.total_matches, 3);
    assert_eq!(r.didl.containers.len(), 1);
    // DESC [C, B, A] with offset=1 → B
    assert_eq!(r.didl.containers[0].title, "B");
}

#[test]
fn rr5_empty_library_returns_empty() {
    let conn = open_in_memory_migrated();
    let r = recent_root_children(&ctx_at(&conn, NOW_2024_01_01), 0, 100).unwrap();
    assert_eq!(r.total_matches, 0);
    assert!(r.didl.containers.is_empty());
}

#[test]
fn rr7_limit_caps_total_matches_and_rows() {
    // 5 albums in window, limit=2 → total_matches clamps to 2 so Linn does
    // not paginate past the cap; subsequent pages return empty.
    let conn = seed_with_added_at(&[
        ("A", NOW_2024_01_01 - 5),
        ("B", NOW_2024_01_01 - 4),
        ("C", NOW_2024_01_01 - 3),
        ("D", NOW_2024_01_01 - 2),
        ("E", NOW_2024_01_01 - 1),
    ]);
    let ctx = ctx_with_limit(&conn, NOW_2024_01_01, 2);
    let page1 = recent_root_children(&ctx, 0, 100).unwrap();
    assert_eq!(page1.total_matches, 2);
    assert_eq!(page1.didl.containers.len(), 2);
    // DESC by recency → E, D
    assert_eq!(page1.didl.containers[0].title, "E");
    assert_eq!(page1.didl.containers[1].title, "D");

    let page2 = recent_root_children(&ctx, 2, 100).unwrap();
    assert_eq!(page2.total_matches, 2);
    assert!(page2.didl.containers.is_empty());
}

#[test]
fn rr6_existing_album_with_new_track_resurfaces() {
    // Adding a new track to an existing album updates MAX(added_at), so the
    // album re-floats to the top of cat:recent.
    let conn = seed_with_added_at(&[("Old", NOW_2024_01_01 - 30 * DAY_SECS)]);
    let old_id: i64 = conn
        .query_row("SELECT id FROM albums WHERE album = 'Old'", [], |r| {
            r.get(0)
        })
        .unwrap();
    conn.execute(
        "INSERT INTO tracks (album_id, path, added_at, mtime, codec, mime_type, file_size,
                             duration_ms)
         VALUES (?1, '/m/Old_bonus.flac', ?2, 0, 'flac', 'audio/flac', 0, 0)",
        (old_id, NOW_2024_01_01 - 3600),
    )
    .unwrap();
    recalc_last_added_at(&conn).unwrap();

    // With a 1-day age cap the album now qualifies because its latest track
    // is 1 hour old (the album itself was originally seeded 30d back).
    let ctx = ctx_with_max_age(&conn, NOW_2024_01_01, 1);
    let r = recent_root_children(&ctx, 0, 100).unwrap();
    assert_eq!(r.total_matches, 1);
    assert_eq!(r.didl.containers[0].title, "Old");
}

// ── Tracks and discs ─────────────────────────────────────────────────────

fn album_tracks_children(
    ctx: &Ctx,
    album_id: i64,
    start: usize,
    count: usize,
) -> Result<ChildrenResult, Error> {
    run(ctx.conn, |a| {
        album_tracks::album_tracks_children(&ctx.browse, album_id, start, count, a)
    })
}

fn disc_tracks_children(
    ctx: &Ctx,
    album_id: i64,
    disc: i64,
    start: usize,
    count: usize,
) -> Result<ChildrenResult, Error> {
    run(ctx.conn, |a| {
        album_tracks::disc_tracks_children(&ctx.browse, album_id, disc, start, count, a)
    })
}

fn track_metadata(ctx: &Ctx, id: i64) -> Result<DidlOutput, Error> {
    run(ctx.conn, |a| album_tracks::track_metadata(&ctx.browse, id, a))
}

fn album_child_count(ctx: &Ctx, album_id: i64, track_count: i64) -> i64 {
    let layout = ask(ctx.conn, &disc_layout_statement(album_id)).unwrap();
    album_tracks::album_child_count(&layout, track_count)
}

fn seed_discs(conn: &Connection, album_artist: &str, album: &str, discs: &[(u32, u32, &str)]) -> i64 {
    let album_id = upsert_album(
        conn,
        &AlbumKey {
            effective_album_artist: album_artist,
            album,
            compilation: false,
        },
        Some(album_artist),
        100,
    )
    .unwrap();
    for (disc, track, title) in discs {
        upsert_track(
            conn,
            &TrackRow {
                album_id,
                path: &format!("/m/{title}.flac"),
                title: Some(title),
                artist: Some(album_artist),
                genre: Some("Rock"),
                track_num: Some(*track),
                disc_num: Some(*disc),
                duration_ms: Some(200_000),
                sample_rate: Some(44100),
                bit_depth: Some(16),
                channels: Some(2),
                bitrate: Some(1000),
                codec: "flac",
                mime_type: "audio/flac",
                file_size: 1234,
                added_at: 100,
                mtime: 200,
                composer: None,
                conductor: None,
                performer: None,
                year: None,
                rg_track_gain: None,
                rg_track_peak: None,
                rg_album_gain: None,
                rg_album_peak: None,
                artist_sort: None,
                album_artist_sort: None,
                album_sort: None,
                title_sort: None,
                composer_sort: None,
                original_year: None,
                mb_recording_id: None,
                mb_release_id: None,
                mb_release_group_id: None,
                mb_artist_id: None,
                mb_release_artist_id: None,
            },
        )
        .unwrap();
    }
    recalc_counts(conn).unwrap();
    album_id
}

#[test]
fn bt1_single_disc_album_no_dividers_no_disc_number() {
    let conn = open_in_memory_migrated();
    let album_id = seed_discs(
        &conn,
        "A",
        "Single",
        &[(1, 1, "First"), (1, 2, "Second"), (1, 3, "Third")],
    );
    let result = album_tracks_children(&ctx(&conn), album_id, 0, 100).unwrap();
    assert_eq!(result.total_matches, 3);
    // Single-disc albums return track items directly (no disc folders).
    assert!(
        result.didl.containers.is_empty(),
        "single-disc emitted disc folders"
    );
    let titles: Vec<&str> = result.didl.items.iter().map(|i| i.title.as_str()).collect();
    assert_eq!(titles, vec!["First", "Second", "Third"]);
    for item in &result.didl.items {
        assert!(
            item.original_disc_number.is_none(),
            "single-disc emitted disc number"
        );
    }
}

#[test]
fn bt2_multi_disc_album_children_are_disc_folders_not_tracks() {
    // The core fix: a cleanly multi-disc album lists per-disc *containers*
    // only. No track items sit at the album level, so a control point that
    // enqueues items + recurses containers can't double-queue a disc.
    let conn = open_in_memory_migrated();
    let album_id = seed_discs(
        &conn,
        "A",
        "Multi",
        &[(1, 1, "D1T1"), (1, 2, "D1T2"), (2, 1, "D2T1")],
    );
    let result = album_tracks_children(&ctx(&conn), album_id, 0, 100).unwrap();
    // 2 discs → 2 folders, and crucially zero items at the album level.
    assert_eq!(result.total_matches, 2);
    assert!(
        result.didl.items.is_empty(),
        "tracks must not sit beside disc folders"
    );
    let titles: Vec<&str> = result
        .didl
        .containers
        .iter()
        .map(|c| c.title.as_str())
        .collect();
    assert_eq!(titles, vec!["Disc 1", "Disc 2"]);
    // Folder ids drill into the disc leaf; childCount reflects per-disc tracks.
    let ids: Vec<&str> = result
        .didl
        .containers
        .iter()
        .map(|c| c.id.as_str())
        .collect();
    assert_eq!(
        ids,
        vec![
            &format!("disc:{album_id}:1")[..],
            &format!("disc:{album_id}:2")[..]
        ]
    );
    let child_counts: Vec<Option<i64>> = result
        .didl
        .containers
        .iter()
        .map(|c| c.child_count)
        .collect();
    assert_eq!(child_counts, vec![Some(2), Some(1)]);
}

#[test]
fn bt2b_album_with_missing_disc_tags_falls_back_to_flat_list() {
    // Inconsistent disc tags (one track has no disc) → flat track list, not
    // disc folders, so the untagged track is never orphaned.
    let conn = open_in_memory_migrated();
    let album_id = seed_discs(
        &conn,
        "A",
        "Patchy",
        &[(1, 1, "Tagged1"), (2, 1, "Tagged2"), (0, 2, "Untagged")],
    );
    let result = album_tracks_children(&ctx(&conn), album_id, 0, 100).unwrap();
    assert!(
        result.didl.containers.is_empty(),
        "patchy disc tags must not produce folders"
    );
    assert_eq!(result.total_matches, 3);
    assert_eq!(result.didl.items.len(), 3);
}

#[test]
fn bt2c_album_child_count_matches_direct_children() {
    // BrowseMetadata childCount must equal BrowseDirectChildren totalMatches
    // for the same album object: disc-folder count when multi-disc, track
    // count when single-disc.
    let conn = open_in_memory_migrated();

    let multi = seed_discs(
        &conn,
        "A",
        "Multi",
        &[(1, 1, "D1T1"), (1, 2, "D1T2"), (2, 1, "D2T1")],
    );
    // 3 tracks across 2 discs → childCount is 2 (folders), not 3 (tracks).
    assert_eq!(album_child_count(&ctx(&conn), multi, 3), 2);
    assert_eq!(
        album_tracks_children(&ctx(&conn), multi, 0, 100)
            .unwrap()
            .total_matches,
        2
    );

    let single = seed_discs(&conn, "B", "Single", &[(1, 1, "S1"), (1, 2, "S2")]);
    assert_eq!(album_child_count(&ctx(&conn), single, 2), 2);
    assert_eq!(
        album_tracks_children(&ctx(&conn), single, 0, 100)
            .unwrap()
            .total_matches,
        2
    );
}

#[test]
fn bt3_track_metadata_keeps_title_clean_on_multi_disc() {
    let conn = open_in_memory_migrated();
    let album_id = seed_discs(&conn, "A", "Multi", &[(1, 1, "Alpha"), (2, 1, "Beta")]);
    let track_id: i64 = conn
        .query_row(
            "SELECT id FROM tracks WHERE album_id = ?1 AND disc_num = 2",
            [album_id],
            |r| r.get(0),
        )
        .unwrap();
    let didl = track_metadata(&ctx(&conn), track_id).unwrap();
    assert_eq!(didl.items.len(), 1);
    assert_eq!(didl.items[0].title, "Beta");
    assert_eq!(didl.items[0].original_disc_number, Some(2));
}

#[test]
fn bt4_disc_folder_pagination() {
    // Disc folders paginate like any other container list: total_matches is
    // the disc count, and start/count slice the folder list.
    let conn = open_in_memory_migrated();
    let album_id = seed_discs(
        &conn,
        "A",
        "Multi",
        &[(1, 1, "A1"), (2, 1, "B1"), (3, 1, "C1")],
    );
    let result = album_tracks_children(&ctx(&conn), album_id, 1, 1).unwrap();
    assert_eq!(result.total_matches, 3);
    let titles: Vec<&str> = result
        .didl
        .containers
        .iter()
        .map(|c| c.title.as_str())
        .collect();
    assert_eq!(titles, vec!["Disc 2"]);
}

#[test]
fn bt5_disc_tracks_children_returns_only_that_disc() {
    let conn = open_in_memory_migrated();
    let album_id = seed_discs(
        &conn,
        "A",
        "Multi",
        &[(1, 1, "A1"), (1, 2, "A2"), (2, 1, "B1"), (2, 2, "B2")],
    );
    let result = disc_tracks_children(&ctx(&conn), album_id, 2, 0, 100).unwrap();
    assert_eq!(result.total_matches, 2);
    let titles: Vec<&str> = result.didl.items.iter().map(|i| i.title.as_str()).collect();
    assert_eq!(titles, vec!["B1", "B2"]);
    // Leaf tracks of a multi-disc album carry originalDiscNumber.
    for item in &result.didl.items {
        assert_eq!(item.original_disc_number, Some(2));
    }
}

// ── Albums without a tag ─────────────────────────────────────────────────

/// 3 albums:
/// - "Mixed"     → 2 tracks, one tagged with genre + year, one untagged
/// - "AllTagged" → 1 track with genre + year
/// - "AllUntagged" → 1 track with neither
///
/// "Mixed" must NOT land in the Unknown bucket because at least one track
/// carries the tag. Only "AllUntagged" should appear there.
fn seed_tagged_and_untagged() -> Connection {
    let conn = open_in_memory_migrated();
        let cases: &[(&str, Vec<(&str, Option<&str>, Option<i32>)>)] = &[
        (
            "Mixed",
            vec![
                ("/m/mix1.flac", Some("Rock"), Some(1985)),
                ("/m/mix2.flac", None, None),
            ],
        ),
        ("AllTagged", vec![("/m/t.flac", Some("Jazz"), Some(1970))]),
        ("AllUntagged", vec![("/m/u.flac", None, None)]),
    ];
    for (album, tracks) in cases {
        let aid = upsert_album(
            &conn,
            &AlbumKey {
                effective_album_artist: "AA",
                album,
                compilation: false,
            },
            None,
            0,
        )
        .unwrap();
        for (path, genre, year) in tracks {
            let mut row = default_track_row(aid, path, 0);
            row.genre = *genre;
            row.year = *year;
            upsert_track(&conn, &row).unwrap();
        }
    }
    recalc_counts(&conn).unwrap();
    conn
}

#[test]
fn ub_alb1_unknown_genre_contains_only_fully_untagged_albums() {
    let conn = seed_tagged_and_untagged();
    let rs = RandomState::new();
    let s = BrowseSettings::default();
    let ctx = default_ctx(&conn, &rs, &s, 0);
    let r = run(&conn, |a| albums_by_unknown_genre_children(&ctx.browse, 0, 100, a)).unwrap();
    assert_eq!(r.total_matches, 1);
    let titles: Vec<&str> = r.didl.containers.iter().map(|c| c.title.as_str()).collect();
    assert_eq!(titles, vec!["AllUntagged"]);
    assert_eq!(r.didl.containers[0].parent_id, "gn:");
}

#[test]
fn ub_alb2_unknown_year_uses_same_rule_against_year_column() {
    let conn = seed_tagged_and_untagged();
    let rs = RandomState::new();
    let s = BrowseSettings::default();
    let ctx = default_ctx(&conn, &rs, &s, 0);
    let r = run(&conn, |a| albums_by_unknown_year_children(&ctx.browse, 0, 100, a)).unwrap();
    assert_eq!(r.total_matches, 1);
    assert_eq!(r.didl.containers[0].title, "AllUntagged");
    assert_eq!(r.didl.containers[0].parent_id, "yr:0");
}

#[test]
fn ub_alb3_unknown_decade_is_separate_parent_with_same_filter() {
    let conn = seed_tagged_and_untagged();
    let rs = RandomState::new();
    let s = BrowseSettings::default();
    let ctx = default_ctx(&conn, &rs, &s, 0);
    let r = run(&conn, |a| albums_by_unknown_decade_children(&ctx.browse, 0, 100, a)).unwrap();
    assert_eq!(r.total_matches, 1);
    assert_eq!(r.didl.containers[0].title, "AllUntagged");
    assert_eq!(r.didl.containers[0].parent_id, "dec:0");
}

// ── All tracks of an artist ──────────────────────────────────────────────

fn artist_tracks_children(
    ctx: &Ctx,
    name: &str,
    start: usize,
    count: usize,
) -> Result<ChildrenResult, Error> {
    run(ctx.conn, |a| {
        artist_tracks::artist_tracks_children(&ctx.browse, name, start, count, a)
    })
}

fn artist_tracks_metadata(ctx: &Ctx, name: &str) -> Result<DidlOutput, Error> {
    run(ctx.conn, |a| {
        artist_tracks::artist_tracks_metadata(&ctx.browse, name, a)
    })
}

fn track_count_for_artist(ctx: &Ctx, name: &str) -> Result<i64, Error> {
    run(ctx.conn, |a| artist_tracks::track_count_for_artist(name, a))
}

/// Seed of 3 tracks across 2 albums where "Some Singer" appears on a
/// compilation track and on a solo album track — exactly the cross-album
/// case the shortcut exists for.
fn seed_singer() -> Connection {
    let conn = open_in_memory_migrated();

    let solo_id = upsert_album(
        &conn,
        &AlbumKey {
            effective_album_artist: "Some Singer",
            album: "Solo",
            compilation: false,
        },
        Some("Some Singer"),
        100,
    )
    .unwrap();
    let va_id = upsert_album(
        &conn,
        &AlbumKey {
            effective_album_artist: "Various Artists",
            album: "Hits",
            compilation: true,
        },
        None,
        100,
    )
    .unwrap();

    for (album_id, path, title, artist, track_num) in [
        (solo_id, "/m/solo1.flac", "Solo Song 1", "Some Singer", 1),
        (solo_id, "/m/solo2.flac", "Solo Song 2", "Some Singer", 2),
        (va_id, "/m/va.flac", "Guest Track", "Some Singer", 5),
        (va_id, "/m/other.flac", "Other Artist Song", "Other", 6),
    ] {
        upsert_track(
            &conn,
            &TrackRow {
                album_id,
                path,
                title: Some(title),
                artist: Some(artist),
                genre: Some("Rock"),
                track_num: Some(track_num),
                disc_num: Some(1),
                duration_ms: Some(200_000),
                sample_rate: Some(44100),
                bit_depth: Some(16),
                channels: Some(2),
                bitrate: Some(1000),
                codec: "flac",
                mime_type: "audio/flac",
                file_size: 1234,
                added_at: 100,
                mtime: 200,
                composer: None,
                conductor: None,
                performer: None,
                year: None,
                rg_track_gain: None,
                rg_track_peak: None,
                rg_album_gain: None,
                rg_album_peak: None,
                artist_sort: None,
                album_artist_sort: None,
                album_sort: None,
                title_sort: None,
                composer_sort: None,
                original_year: None,
                mb_recording_id: None,
                mb_release_id: None,
                mb_release_group_id: None,
                mb_artist_id: None,
                mb_release_artist_id: None,
            },
        )
        .unwrap();
    }
    recalc_counts(&conn).unwrap();
    conn
}

#[test]
fn at1_children_returns_only_x_tracks_across_albums() {
    let conn = seed_singer();
    let ctx = ctx(&conn);
    let r = artist_tracks_children(&ctx, "Some Singer", 0, 100).unwrap();
    assert_eq!(r.total_matches, 3);
    assert_eq!(r.didl.items.len(), 3);
    // The "Other" track on the same compilation must not appear.
    for it in &r.didl.items {
        assert_ne!(it.title, "Other Artist Song");
    }
}

#[test]
fn at2_children_ordered_by_album_then_track() {
    // Solo album sorts before "Hits" (S vs H? actually H sorts before S
    // lexicographically), so the comp track should appear first and the
    // solo tracks after, in track order.
    let conn = seed_singer();
    let ctx = ctx(&conn);
    let r = artist_tracks_children(&ctx, "Some Singer", 0, 100).unwrap();
    let titles: Vec<&str> = r.didl.items.iter().map(|i| i.title.as_str()).collect();
    assert_eq!(titles, vec!["Guest Track", "Solo Song 1", "Solo Song 2"]);
}

#[test]
fn at3_metadata_picks_aa_parent_when_album_artist_exists() {
    // "Some Singer" is an album_artist on Solo → parent_id = aa:{...}.
    let conn = seed_singer();
    let ctx = ctx(&conn);
    let r = artist_tracks_metadata(&ctx, "Some Singer").unwrap();
    assert_eq!(r.containers.len(), 1);
    assert!(r.containers[0].parent_id.starts_with("aa:"));
    assert_eq!(r.containers[0].title, "All tracks (3)");
    assert_eq!(r.containers[0].child_count, Some(3));
    // bespoke cat-at icon URL is reconstructed off art_base_url.
    assert_eq!(
        r.containers[0].album_art_uri.as_deref(),
        Some("http://x/icon/cat/at")
    );
}

#[test]
fn at3b_metadata_falls_back_to_ar_for_track_only_artist() {
    // "Other" is only a track-level artist — never an album_artist.
    let conn = seed_singer();
    let ctx = ctx(&conn);
    let r = artist_tracks_metadata(&ctx, "Other").unwrap();
    assert_eq!(r.containers.len(), 1);
    assert!(r.containers[0].parent_id.starts_with("ar:"));
    assert_eq!(r.containers[0].child_count, Some(1));
}

#[test]
fn at4_track_count_helper_returns_zero_when_no_tracks() {
    let conn = seed_singer();
    let ctx = ctx(&conn);
    assert_eq!(track_count_for_artist(&ctx, "Nobody").unwrap(), 0);
    assert_eq!(track_count_for_artist(&ctx, "Some Singer").unwrap(), 3);
}

#[test]
fn at5_children_normalizes_input_for_fuzzy_match() {
    // tag stored as "Some Singer"; query with fullwidth/case variant —
    // for_search normalization on both sides should match.
    let conn = seed_singer();
    let ctx = ctx(&conn);
    let r = artist_tracks_children(&ctx, "SOME SINGER", 0, 100).unwrap();
    assert_eq!(r.total_matches, 3);
}

fn open_random(
    conn: &Connection,
    rs: &mut RandomState,
    settings: &BrowseSettings,
    now: i64,
    fail: bool,
) -> Vec<i64> {
    let mut draw: Vec<Answer> = Vec::new();
    loop {
        match random::open_random_albums(rs, settings, "http://x/art", now, 0, 100, &draw, &[]) {
            Step::Query(s) if s.sql == "SELECT id FROM albums" => draw.push(if fail {
                Answer::Failed(SqliteError::Failure("no".to_string()))
            } else {
                ask(conn, &s).unwrap()
            }),
            _ => break,
        }
    }
    let shown = random_albums_children(&default_ctx(conn, rs, settings, now), 0, 100).unwrap();
    shown
        .didl
        .containers
        .iter()
        .map(|c| c.id.strip_prefix("alb:").unwrap().parse().unwrap())
        .collect()
}

#[test]
fn overdue_selection_is_drawn_anew_when_it_is_opened() {
    let conn = seed_three_albums();
    let mut settings = BrowseSettings::default();
    settings.random_albums_shuffle_interval_hours = Some(1);
    let mut rs = RandomState::new();
    rs.install(vec![1], None, 0);

    // Not due yet.
    assert_eq!(open_random(&conn, &mut rs, &settings, 3_599, false), vec![1]);
    // A draw that fails leaves the selection as it was.
    assert_eq!(open_random(&conn, &mut rs, &settings, 7_200, true), vec![1]);
    let mut shown = open_random(&conn, &mut rs, &settings, 7_200, false);
    assert_eq!(shown, rs.page(0, 100));
    shown.sort();
    assert_eq!(shown, vec![1, 2, 3]);

    // Without an interval it is never due.
    settings.random_albums_shuffle_interval_hours = None;
    rs.install(vec![2], None, 0);
    assert_eq!(open_random(&conn, &mut rs, &settings, 1_000_000, false), vec![2]);

    settings.random_albums_shuffle_interval_hours = Some(1);
    settings.random_albums_limit = 2;
    assert_eq!(open_random(&conn, &mut rs, &settings, 3_600, false).len(), 2);
}

#[test]
fn root_tells_how_many_categories_it_shows() {
    let conn = seed_db();
    let root = browse_metadata(&ctx(&conn), &ObjectId::Root).unwrap();
    assert_eq!(root.containers[0].child_count, Some(12));
    let empty = open_in_memory_migrated();
    let root = browse_metadata(&ctx(&empty), &ObjectId::Root).unwrap();
    assert_eq!(root.containers[0].child_count, Some(10));
}

#[test]
fn nothing_is_limited_by_default() {
    let settings = BrowseSettings::default();
    assert_eq!(settings.recently_added_limit, usize::MAX);
    assert_eq!(settings.random_albums_limit, usize::MAX);
    assert_eq!(settings.recently_added_max_age_days, None);
}

#[test]
fn persons_borrow_the_picture_of_their_first_album() {
    let conn = seed_db();
    let first = |id: &ObjectId| {
        let listed = browse_children(&ctx(&conn), id, 1, 1).unwrap();
        listed.didl.containers[0].album_art_uri.clone()
    };
    for id in [
        ObjectId::AlbumArtist("The Beatles".to_string()),
        ObjectId::Artist("The Beatles".to_string()),
    ] {
        let person = browse_metadata(&ctx(&conn), &id).unwrap();
        assert_eq!(person.containers[0].title, "The Beatles");
        assert_eq!(person.containers[0].album_art_uri, first(&id));
        assert_eq!(
            person.containers[0].album_art_uri.as_deref(),
            Some("http://x/art/1")
        );
    }
    let nobody = ObjectId::Composer("Nobody".to_string());
    let person = browse_metadata(&ctx(&conn), &nobody).unwrap();
    assert_eq!(person.containers[0].album_art_uri, None);
}
