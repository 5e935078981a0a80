use revolver::browse::search::{self, SearchResult};
use revolver::browse::BrowseContext;
use revolver::db::albums::{self, AlbumKey};
use revolver::db::query::{Answer, SqlValue, Statement, Step};
use revolver::db::schema::{self, backfill, ensure_column, record_version, Task};
use revolver::db::tracks::{self, TrackRow, UpsertOutcome};
use revolver::db::udf::jaccard_trigram;
use revolver::error::{Error, SqliteError};
use revolver::random::RandomState;
use revolver::state::BrowseSettings;
use revolver::upnp::search::{ClassFilter, Predicate, Property, SearchExpr};
use rusqlite::functions::FunctionFlags;
use rusqlite::types::{Value, ValueRef};
use rusqlite::{params_from_iter, Connection};

fn to_sqlite(value: &SqlValue) -> Value {
    match value {
        SqlValue::Null => Value::Null,
        SqlValue::Integer(n) => Value::Integer(*n),
        SqlValue::Text(s) => Value::Text(s.clone()),
        SqlValue::Real | SqlValue::Blob | SqlValue::Garbled(_) => Value::Null,
    }
}

fn from_sqlite(value: ValueRef<'_>) -> SqlValue {
    match value {
        ValueRef::Null => SqlValue::Null,
        ValueRef::Integer(n) => SqlValue::Integer(n),
        ValueRef::Text(bytes) => match std::str::from_utf8(bytes) {
            Ok(s) => SqlValue::Text(s.to_string()),
            Err(e) => SqlValue::Garbled(e.to_string()),
        },
        ValueRef::Real(_) => SqlValue::Real,
        ValueRef::Blob(_) => SqlValue::Blob,
    }
}

fn failed(e: rusqlite::Error) -> Answer {
    Answer::Failed(SqliteError::Failure(e.to_string()))
}

fn ask(conn: &Connection, s: &Statement) -> rusqlite::Result<Answer> {
    let mut stmt = conn.prepare(&s.sql)?;
    let columns: Vec<String> = stmt.column_names().iter().map(|n| n.to_string()).collect();
    let mut found = stmt.query(params_from_iter(s.params.iter().map(to_sqlite)))?;
    let mut rows = Vec::new();
    while let Some(row) = found.next()? {
        let mut cells = Vec::new();
        for i in 0..columns.len() {
            cells.push(from_sqlite(row.get_ref(i)?));
        }
        rows.push(cells);
    }
    Ok(Answer::Rows(rows, columns))
}

fn change(conn: &Connection, s: &Statement) -> Answer {
    match conn.execute(&s.sql, params_from_iter(s.params.iter().map(to_sqlite))) {
        Ok(n) => Answer::Rows(vec![vec![SqlValue::Integer(n as i64)]], Vec::new()),
        Err(e) => failed(e),
    }
}

fn run<T>(conn: &Connection, mut work: impl FnMut(&[Answer]) -> Step<T>) -> Result<T, Error> {
    let mut answers: Vec<Answer> = Vec::new();
    loop {
        match work(&answers) {
            Step::Query(s) => answers.push(match ask(conn, &s) {
                Ok(answer) => answer,
                Err(e) => failed(e),
            }),
            Step::Execute(s) => answers.push(change(conn, &s)),
            Step::Batch(sql) => answers.push(match conn.execute_batch(sql) {
                Ok(()) => Answer::Rows(Vec::new(), Vec::new()),
                Err(e) => failed(e),
            }),
            Step::Done(result) => return result,
        }
    }
}

fn ratio(a: &str, b: &str) -> f64 {
    let s = jaccard_trigram(a, b);
    if s.total == 0 {
        0.0
    } else {
        s.shared as f64 / s.total as f64
    }
}

fn register(conn: &Connection) -> rusqlite::Result<()> {
    conn.create_scalar_function(
        "jaccard_trigram",
        2,
        FunctionFlags::SQLITE_UTF8 | FunctionFlags::SQLITE_DETERMINISTIC,
        |ctx| {
            let a: Option<String> = ctx.get(0)?;
            let b: Option<String> = ctx.get(1)?;
            match (a, b) {
                (Some(a), Some(b)) => Ok(ratio(&a, &b)),
                _ => Ok(0.0),
            }
        },
    )
}

fn migrate(conn: &Connection) -> Result<(), Error> {
    for task in schema::migrate() {
        match task {
            Task::Script(sql) => conn.execute_batch(sql).unwrap(),
            Task::Column(c) => {
                run(conn, |a| ensure_column(c.table, c.column, c.definition, a))?;
            }
            Task::Run(sql) => {
                conn.execute(sql, []).unwrap();
            }
            Task::Backfill(table) => {
                for s in run(conn, |a| backfill(table, a))? {
                    assert!(matches!(change(conn, &s), Answer::Rows(..)));
                }
            }
            Task::RegisterFunctions => register(conn).unwrap(),
            Task::RecordVersion => {
                assert!(matches!(change(conn, &record_version()), Answer::Rows(..)));
            }
        }
    }
    Ok(())
}

fn open_in_memory_migrated() -> Connection {
    let conn = Connection::open_in_memory().unwrap();
    conn.execute_batch("PRAGMA foreign_keys = ON;").unwrap();
    migrate(&conn).unwrap();
    conn
}

fn upsert_album(
    conn: &Connection,
    key: &AlbumKey,
    raw: Option<&str>,
    first_seen_at: i64,
) -> Result<i64, Error> {
    run(conn, |a| albums::upsert(key, raw, first_seen_at, a))
}

fn upsert_track(conn: &Connection, row: &TrackRow) -> Result<UpsertOutcome, Error> {
    run(conn, |a| tracks::upsert(row, a))
}

fn recalc_counts(conn: &Connection) -> Result<(), Error> {
    run(conn, albums::recalc_counts)
}

/// A context, and the database that it is used with.
struct Ctx<'a> {
    conn: &'a Connection,
    browse: BrowseContext<'a>,
}

fn default_ctx<'a>(
    conn: &'a Connection,
    random_state: &'a RandomState,
    settings: &'a BrowseSettings,
    now_secs: i64,
) -> Ctx<'a> {
    Ctx {
        conn,
        browse: BrowseContext {
            art_base_url: "http://x/art",
            stream_base_url: "http://x/stream",
            random_state,
            now_secs,
            settings,
        },
    }
}

fn ctx(conn: &Connection) -> Ctx<'_> {
    default_ctx(
        conn,
        Box::leak(Box::new(RandomState::new())),
        Box::leak(Box::new(BrowseSettings::default())),
        0,
    )
}

fn ctx_with_settings<'a>(conn: &'a Connection, settings: &'a BrowseSettings) -> Ctx<'a> {
    default_ctx(conn, Box::leak(Box::new(RandomState::new())), settings, 0)
}

fn search_tracks(
    ctx: &Ctx,
    expr: &SearchExpr,
    start: usize,
    count: usize,
) -> Result<SearchResult, Error> {
    run(ctx.conn, |a| {
        search::search_tracks(&ctx.browse, expr, start, count, a)
    })
}

// ── Criteria ─────────────────────────────────────────────────────────────

/// The words of criteria; what stands in quotes keeps its opening quote.
fn words(text: &str) -> Vec<String> {
    let mut out: Vec<String> = Vec::new();
    let mut rest = text.trim_start();
    while !rest.is_empty() {
        let (word, len) = if rest.starts_with('"') {
            let end = rest[1..].find('"').unwrap() + 1;
            (rest[..end].to_string(), end + 1)
        } else if rest.starts_with('(') || rest.starts_with(')') {
            (rest[..1].to_string(), 1)
        } else {
            let end = rest.find([' ', ')']).unwrap_or(rest.len());
            (rest[..end].to_string(), end)
        };
        out.push(word);
        rest = rest[len..].trim_start();
    }
    out
}

fn property(name: &str) -> (Property, Option<String>) {
    let (plain, role) = match name.split_once("[@role=\"") {
        Some((p, r)) => (p, Some(r.trim_end_matches("\"]").to_string())),
        None => (name, None),
    };
    let prop = match plain {
        "dc:title" => Property::Title,
        "upnp:album" => Property::Album,
        "upnp:artist" => Property::Artist,
        "upnp:genre" => Property::Genre,
        other => panic!("unknown property {other}"),
    };
    (prop, role)
}

fn class_of(name: &str) -> ClassFilter {
    if name.starts_with("object.container.album") {
        ClassFilter::Album
    } else if name.starts_with("object.container.person") {
        ClassFilter::Artist
    } else {
        ClassFilter::Track
    }
}

/// Terms up to the end or a closing bracket, all with the same word between them.
fn terms(w: &[String], at: &mut usize, class: &mut ClassFilter) -> Predicate {
    let mut found: Vec<Predicate> = Vec::new();
    let mut any = false;
    while *at < w.len() && w[*at] != ")" {
        if w[*at] == "and" || w[*at] == "or" {
            any = any || w[*at] == "or";
            *at += 1;
        } else if w[*at] == "(" {
            *at += 1;
            found.push(terms(w, at, class));
            *at += 1;
        } else {
            let value = w[*at + 2][1..].to_string();
            if w[*at + 1] == "derivedfrom" {
                *class = class_of(&value);
            } else {
                let (prop, role) = property(&w[*at]);
                found.push(Predicate::Contains { prop, value, role });
            }
            *at += 3;
        }
    }
    if found.is_empty() {
        Predicate::True
    } else if found.len() == 1 {
        found.remove(0)
    } else if any {
        Predicate::Or(found)
    } else {
        Predicate::And(found)
    }
}

/// Criteria as a control point writes them, in as far as these tests need it.
fn parse_criteria(text: &str) -> SearchExpr {
    let mut class = ClassFilter::Any;
    if text == "*" {
        return SearchExpr {
            class,
            predicate: Predicate::True,
        };
    }
    let predicate = terms(&words(text), &mut 0, &mut class);
    SearchExpr { class, predicate }
}

/// Seed of 3 tracks / 2 albums: Beatles' Abbey Road (2 tracks) + Various
/// Artists' Hits (1 track with artist "Some Singer", genre "Rock").
fn seed_db() -> Connection {
    let conn = open_in_memory_migrated();
    let beatles_id = upsert_album(
        &conn,
        &AlbumKey {
            effective_album_artist: "The Beatles",
            album: "Abbey Road",
            compilation: false,
        },
        Some("The Beatles"),
        100,
    )
    .unwrap();
    let va_id = upsert_album(
        &conn,
        &AlbumKey {
            effective_album_artist: "Various Artists",
            album: "Hits",
            compilation: true,
        },
        None,
        100,
    )
    .unwrap();
    // Third track also carries Composer / Conductor / Performer tags so
    // the role-tagged search tests have something to match.
    for (album_id, path, title, artist, composer, conductor, performer) in [
        (
            beatles_id,
            "/m/come_together.flac",
            "Come Together",
            "The Beatles",
            None,
            None,
            None,
        ),
        (
            beatles_id,
            "/m/something.flac",
            "Something",
            "The Beatles",
            None,
            None,
            None,
        ),
        (
            va_id,
            "/m/va_track.mp3",
            "VA Track",
            "Some Singer",
            Some("J.S. Bach"),
            Some("Karajan"),
            Some("Berlin Philharmonic"),
        ),
    ] {
        upsert_track(
            &conn,
            &TrackRow {
                album_id,
                path,
                title: Some(title),
                artist: Some(artist),
                genre: Some("Rock"),
                track_num: Some(1),
                disc_num: Some(1),
                duration_ms: Some(200_000),
                sample_rate: Some(44100),
                bit_depth: Some(16),
                channels: Some(2),
                bitrate: Some(1000),
                codec: "flac",
                mime_type: "audio/flac",
                file_size: 1234,
                added_at: 100,
                mtime: 200,
                composer,
                conductor,
                performer,
                year: None,
                rg_track_gain: None,
                rg_track_peak: None,
                rg_album_gain: None,
                rg_album_peak: None,
                artist_sort: None,
                album_artist_sort: None,
                album_sort: None,
                title_sort: None,
                composer_sort: None,
                original_year: None,
                mb_recording_id: None,
                mb_release_id: None,
                mb_release_group_id: None,
                mb_artist_id: None,
                mb_release_artist_id: None,
            },
        )
        .unwrap();
    }
    recalc_counts(&conn).unwrap();
    conn
}

// ── Album class (Linn's Album field) ──────────────────────────────────

#[test]
fn st1_album_class_finds_album_by_title() {
    let conn = seed_db();
    let e = parse_criteria(
        r#"upnp:class derivedfrom "object.container.album" and dc:title contains "Abbey""#,
    );
    let r = search_tracks(&ctx(&conn), &e, 0, 100).unwrap();
    assert_eq!(r.total_matches, 1);
    assert_eq!(r.didl.containers.len(), 1);
    assert!(r.didl.items.is_empty());
    assert_eq!(r.didl.containers[0].title, "Abbey Road");
    // Album containers carry the right ObjectID prefix and upnp class.
    assert!(r.didl.containers[0].id.starts_with("alb:"));
    assert_eq!(
        r.didl.containers[0].upnp_class,
        "object.container.album.musicAlbum"
    );
}

// Album-class `dc:title` also fans out to `effective_album_artist`
// and (via EXISTS) `tracks.artist`. Typing an artist name into Linn's
// Album field should reveal both the artist's own albums and any
// compilation where they appear only at the track level.

#[test]
fn st1b_album_class_title_matches_album_artist() {
    // "Beatles" appears nowhere in album titles but is the album_artist
    // of Abbey Road. It is found by that too.
    let conn = seed_db();
    let e = parse_criteria(
        r#"upnp:class derivedfrom "object.container.album" and dc:title contains "Beatles""#,
    );
    let r = search_tracks(&ctx(&conn), &e, 0, 100).unwrap();
    assert_eq!(r.total_matches, 1);
    assert_eq!(r.didl.containers[0].title, "Abbey Road");
}

#[test]
fn st1c_album_class_title_matches_track_level_artist_via_exists() {
    // "Some Singer" is a track-level artist on the VA compilation but is
    // not an album_artist anywhere. The EXISTS branch surfaces the comp.
    let conn = seed_db();
    let e = parse_criteria(
        r#"upnp:class derivedfrom "object.container.album" and dc:title contains "Some Singer""#,
    );
    let r = search_tracks(&ctx(&conn), &e, 0, 100).unwrap();
    assert_eq!(r.total_matches, 1);
    assert_eq!(r.didl.containers[0].title, "Hits");
}

#[test]
fn st1d_album_class_upnp_album_stays_album_name_only() {
    // Regression guard: `upnp:album` is *album name* per UPnP, so it
    // must not pick up artist matches. "Beatles" is the album_artist
    // but not an album title — this should be zero.
    let conn = seed_db();
    let e = parse_criteria(
        r#"upnp:class derivedfrom "object.container.album" and upnp:album contains "Beatles""#,
    );
    let r = search_tracks(&ctx(&conn), &e, 0, 100).unwrap();
    assert_eq!(r.total_matches, 0);
}

#[test]
fn st1e_album_class_dc_title_orders_by_rank_buckets() {
    // 4 albums covering each rank bucket of the ranked Album-search path:
    //   rank 0 — album name == "Foo" exactly
    //   rank 1 — album_artist contains "Foo" (artist's own record)
    //   rank 2 — album name contains "Foo" (partial)
    //   rank 3 — only a track-level artist carries "Foo" (compilation)
    let conn = open_in_memory_migrated();
    let mk_album = |aa: &str, album: &str, comp: bool| -> i64 {
        upsert_album(
            &conn,
            &AlbumKey {
                effective_album_artist: aa,
                album,
                compilation: comp,
            },
            Some(aa),
            0,
        )
        .unwrap()
    };
    let exact_id = mk_album("Other Artist", "Foo", false);
    let partial_id = mk_album("Other Artist", "Foo Extra", false);
    let artist_id = mk_album("Foo Person", "Solo", false);
    let comp_id = mk_album("Various Artists", "Mix Tape", true);
    // Each album needs at least one track. Compilation track artist is "Foo".
    for (album_id, path, track_artist) in [
        (exact_id, "/m/exact.flac", "Other Artist"),
        (partial_id, "/m/partial.flac", "Other Artist"),
        (artist_id, "/m/artist.flac", "Foo Person"),
        (comp_id, "/m/comp.flac", "Foo"),
    ] {
        upsert_track(
            &conn,
            &TrackRow {
                album_id,
                path,
                title: Some("t"),
                artist: Some(track_artist),
                genre: None,
                track_num: Some(1),
                disc_num: Some(1),
                duration_ms: Some(1),
                sample_rate: Some(44100),
                bit_depth: Some(16),
                channels: Some(2),
                bitrate: Some(1),
                codec: "flac",
                mime_type: "audio/flac",
                file_size: 1,
                added_at: 0,
                mtime: 0,
                composer: None,
                conductor: None,
                performer: None,
                year: None,
                rg_track_gain: None,
                rg_track_peak: None,
                rg_album_gain: None,
                rg_album_peak: None,
                artist_sort: None,
                album_artist_sort: None,
                album_sort: None,
                title_sort: None,
                composer_sort: None,
                original_year: None,
                mb_recording_id: None,
                mb_release_id: None,
                mb_release_group_id: None,
                mb_artist_id: None,
                mb_release_artist_id: None,
            },
        )
        .unwrap();
    }
    recalc_counts(&conn).unwrap();

    let e = parse_criteria(
        r#"upnp:class derivedfrom "object.container.album" and dc:title contains "Foo""#,
    );
    let r = search_tracks(&ctx(&conn), &e, 0, 100).unwrap();
    assert_eq!(r.total_matches, 4);
    let titles: Vec<&str> = r.didl.containers.iter().map(|c| c.title.as_str()).collect();
    assert_eq!(titles, vec!["Foo", "Solo", "Foo Extra", "Mix Tape"]);
}

// ── Artist class (Linn's Artist field) ────────────────────────────────

#[test]
fn st2_artist_class_finds_album_artist_by_title() {
    let conn = seed_db();
    let e = parse_criteria(
        r#"upnp:class derivedfrom "object.container.person.musicArtist" and dc:title contains "Beatles""#,
    );
    let r = search_tracks(&ctx(&conn), &e, 0, 100).unwrap();
    assert_eq!(r.total_matches, 1);
    assert_eq!(r.didl.containers[0].title, "The Beatles");
    assert!(r.didl.containers[0].id.starts_with("aa:"));
    assert_eq!(
        r.didl.containers[0].upnp_class,
        "object.container.person.musicArtist"
    );
}

#[test]
fn st2b_artist_class_returns_distinct_artists() {
    let conn = seed_db();
    // Both "The Beatles" and "Various Artists" exist; partial "ar" matches
    // "Various Artists" (substring of "Artists") not the Beatles row.
    let e = parse_criteria(
        r#"upnp:class derivedfrom "object.container.person.musicArtist" and dc:title contains "Various""#,
    );
    let r = search_tracks(&ctx(&conn), &e, 0, 100).unwrap();
    assert_eq!(r.total_matches, 1);
    assert_eq!(r.didl.containers[0].title, "Various Artists");
}

// Artist-class search also hits track-level `tracks.artist`. A guest
// who never appears as an album_artist still surfaces — as an `ar:`
// container so its existing Browse handler (`albums_by_artist_children`)
// takes over from there.

#[test]
fn st2c_artist_class_finds_track_only_artist_as_ar_container() {
    // "Some Singer" is a track-level artist on the VA compilation, never
    // an album_artist.
    let conn = seed_db();
    let e = parse_criteria(
        r#"upnp:class derivedfrom "object.container.person.musicArtist" and dc:title contains "Some Singer""#,
    );
    let r = search_tracks(&ctx(&conn), &e, 0, 100).unwrap();
    assert_eq!(r.total_matches, 1);
    assert_eq!(r.didl.containers[0].title, "Some Singer");
    assert!(r.didl.containers[0].id.starts_with("ar:"));
    assert_eq!(r.didl.containers[0].parent_id, "cat:ar");
}

#[test]
fn st2d_artist_class_dedupes_album_and_track_artist_to_aa() {
    // "The Beatles" appears as both an album_artist (Abbey Road) and
    // every Abbey Road track's artist. UNION + GROUP BY collapses to one
    // row; MAX(is_aa) routes it to `aa:`, not `ar:`.
    let conn = seed_db();
    let e = parse_criteria(
        r#"upnp:class derivedfrom "object.container.person.musicArtist" and dc:title contains "Beatles""#,
    );
    let r = search_tracks(&ctx(&conn), &e, 0, 100).unwrap();
    assert_eq!(r.total_matches, 1);
    assert!(r.didl.containers[0].id.starts_with("aa:"));
    assert_eq!(r.didl.containers[0].parent_id, "cat:aa");
}

// ── Track class with OR composition (Linn's Track / global field) ─────

#[test]
fn st3_track_class_or_matches_any_field() {
    let conn = seed_db();
    // "Some Singer" matches via the artist OR branch only.
    let e = parse_criteria(
        r#"upnp:class derivedfrom "object.item.audioItem" and ( dc:title contains "Some Singer" or upnp:album contains "Some Singer" or upnp:artist contains "Some Singer" or upnp:genre contains "Some Singer" )"#,
    );
    let r = search_tracks(&ctx(&conn), &e, 0, 100).unwrap();
    assert_eq!(r.total_matches, 1);
    assert_eq!(r.didl.items.len(), 1);
    assert!(r.didl.containers.is_empty());
    assert_eq!(r.didl.items[0].title, "VA Track");
}

#[test]
fn st3b_track_class_or_matches_track_title() {
    let conn = seed_db();
    let e = parse_criteria(
        r#"upnp:class derivedfrom "object.item.audioItem" and ( dc:title contains "Together" or upnp:album contains "Together" or upnp:artist contains "Together" or upnp:genre contains "Together" )"#,
    );
    let r = search_tracks(&ctx(&conn), &e, 0, 100).unwrap();
    assert_eq!(r.total_matches, 1);
    assert_eq!(r.didl.items[0].title, "Come Together");
}

#[test]
fn st3c_track_class_or_matches_genre() {
    let conn = seed_db();
    // All seeded tracks have genre = "Rock", so a genre-only hit returns all 3.
    let e = parse_criteria(
        r#"upnp:class derivedfrom "object.item.audioItem" and ( dc:title contains "Rock" or upnp:album contains "Rock" or upnp:artist contains "Rock" or upnp:genre contains "Rock" )"#,
    );
    let r = search_tracks(&ctx(&conn), &e, 0, 100).unwrap();
    assert_eq!(r.total_matches, 3);
}

// ── Composer / Conductor / Performer (role attribute) ─────────────

#[test]
fn st4_composer_role_returns_composer_container() {
    let conn = seed_db();
    // role="Composer" routes to the composer column. Seeded composer is
    // "J.S. Bach"; substring "Bach" should match.
    let e = parse_criteria(
        r#"upnp:class derivedfrom "object.container.person.musicArtist" and upnp:artist[@role="Composer"] contains "Bach""#,
    );
    let r = search_tracks(&ctx(&conn), &e, 0, 100).unwrap();
    assert_eq!(r.total_matches, 1);
    assert_eq!(r.didl.containers[0].title, "J.S. Bach");
    assert!(r.didl.containers[0].id.starts_with("cm:"));
    assert_eq!(r.didl.containers[0].parent_id, "cat:cm");
}

#[test]
fn st4b_conductor_role_returns_conductor_container() {
    let conn = seed_db();
    let e = parse_criteria(
        r#"upnp:class derivedfrom "object.container.person.musicArtist" and upnp:artist[@role="Conductor"] contains "Karajan""#,
    );
    let r = search_tracks(&ctx(&conn), &e, 0, 100).unwrap();
    assert_eq!(r.total_matches, 1);
    assert_eq!(r.didl.containers[0].title, "Karajan");
    assert!(r.didl.containers[0].id.starts_with("cn:"));
}

#[test]
fn st4c_performer_role_returns_performer_container() {
    let conn = seed_db();
    let e = parse_criteria(
        r#"upnp:class derivedfrom "object.container.person.musicArtist" and upnp:artist[@role="Performer"] contains "Berlin""#,
    );
    let r = search_tracks(&ctx(&conn), &e, 0, 100).unwrap();
    assert_eq!(r.total_matches, 1);
    assert_eq!(r.didl.containers[0].title, "Berlin Philharmonic");
    assert!(r.didl.containers[0].id.starts_with("pf:"));
}

#[test]
fn st4d_track_class_role_composer_routes_to_composer_column() {
    let conn = seed_db();
    // Track-class search with role attribute: should hit composer column
    // (matches the seeded "J.S. Bach"), not artist.
    let e = parse_criteria(
        r#"upnp:class derivedfrom "object.item.audioItem" and upnp:artist[@role="Composer"] contains "Bach""#,
    );
    let r = search_tracks(&ctx(&conn), &e, 0, 100).unwrap();
    assert_eq!(r.total_matches, 1);
    assert_eq!(r.didl.items[0].title, "VA Track");
}

// ── No-op / empty ─────────────────────────────────────────────────────

#[test]
fn st5_wildcard_returns_empty_didl() {
    let conn = seed_db();
    let e = parse_criteria("*");
    let r = search_tracks(&ctx(&conn), &e, 0, 100).unwrap();
    assert_eq!(r.total_matches, 0);
    assert!(r.didl.containers.is_empty());
    assert!(r.didl.items.is_empty());
}

#[test]
fn st6_derivedfrom_only_returns_empty() {
    let conn = seed_db();
    let e = parse_criteria(r#"upnp:class derivedfrom "object.item.audioItem""#);
    let r = search_tracks(&ctx(&conn), &e, 0, 100).unwrap();
    // No usable predicate → empty (we don't list all tracks just because
    // a class was specified).
    assert_eq!(r.total_matches, 0);
}

// ── fuzzy matching (NFKD + halfwidth/fullwidth + katakana→hiragana) ──

/// Seed of 4 albums with accented / fullwidth / katakana names so the
/// fuzzy-Search tests have unambiguous targets. Each artist appears on
/// exactly one album so a hit can be attributed to the fuzzy fold.
fn seed_fuzzy_db() -> Connection {
    let conn = open_in_memory_migrated();
    for (aa, album) in [
        ("Sigur Rós", "Takk..."),         // accent fold: café/cafe family
        ("Björk", "Debut"),               // diaeresis
        ("Ｂｅａｔｌｅｓ", "Ｈｅｌｐ！"), // fullwidth → halfwidth
        ("ミユキ", "ﾌｧｲﾅﾙ"),              // katakana / halfwidth-katakana → hiragana
    ] {
        let aid = upsert_album(
            &conn,
            &AlbumKey {
                effective_album_artist: aa,
                album,
                compilation: false,
            },
            Some(aa),
            0,
        )
        .unwrap();
        upsert_track(
            &conn,
            &TrackRow {
                album_id: aid,
                path: &format!("/m/{aa}-{album}.flac"),
                title: Some(album),
                artist: Some(aa),
                genre: Some("Rock"),
                track_num: Some(1),
                disc_num: Some(1),
                duration_ms: Some(200_000),
                sample_rate: Some(44100),
                bit_depth: Some(16),
                channels: Some(2),
                bitrate: Some(1000),
                codec: "flac",
                mime_type: "audio/flac",
                file_size: 1234,
                added_at: 0,
                mtime: 0,
                composer: None,
                conductor: None,
                performer: None,
                year: None,
                rg_track_gain: None,
                rg_track_peak: None,
                rg_album_gain: None,
                rg_album_peak: None,
                artist_sort: None,
                album_artist_sort: None,
                album_sort: None,
                title_sort: None,
                composer_sort: None,
                original_year: None,
                mb_recording_id: None,
                mb_release_id: None,
                mb_release_group_id: None,
                mb_artist_id: None,
                mb_release_artist_id: None,
            },
        )
        .unwrap();
    }
    recalc_counts(&conn).unwrap();
    conn
}

#[test]
fn fz1_album_search_strips_accents() {
    // User types ASCII "Sigur Ros"; tag is "Sigur Rós" → fuzzy match.
    let conn = seed_fuzzy_db();
    let e = parse_criteria(
        r#"upnp:class derivedfrom "object.container.album" and dc:title contains "Takk""#,
    );
    let r = search_tracks(&ctx(&conn), &e, 0, 100).unwrap();
    assert_eq!(r.total_matches, 1);
    assert_eq!(r.didl.containers[0].title, "Takk...");
}

#[test]
fn fz2_artist_search_strips_diacritics_either_direction() {
    // Tag "Björk", query "Bjork" — and vice versa.
    let conn = seed_fuzzy_db();
    let e = parse_criteria(
        r#"upnp:class derivedfrom "object.container.person.musicArtist" and dc:title contains "Bjork""#,
    );
    let r = search_tracks(&ctx(&conn), &e, 0, 100).unwrap();
    assert_eq!(r.total_matches, 1);
    assert_eq!(r.didl.containers[0].title, "Björk");

    // Query with the diacritic also matches the same tag.
    let e2 = parse_criteria(
        r#"upnp:class derivedfrom "object.container.person.musicArtist" and dc:title contains "Björk""#,
    );
    let r2 = search_tracks(&ctx(&conn), &e2, 0, 100).unwrap();
    assert_eq!(r2.total_matches, 1);
}

#[test]
fn fz3_fullwidth_search_input_matches_fullwidth_tag() {
    // Tag "Ｂｅａｔｌｅｓ" (fullwidth), query plain ASCII "Beatles".
    let conn = seed_fuzzy_db();
    let e = parse_criteria(
        r#"upnp:class derivedfrom "object.container.person.musicArtist" and dc:title contains "Beatles""#,
    );
    let r = search_tracks(&ctx(&conn), &e, 0, 100).unwrap();
    assert_eq!(r.total_matches, 1);
    assert_eq!(r.didl.containers[0].title, "Ｂｅａｔｌｅｓ");
}

#[test]
fn fz4_hiragana_search_input_matches_katakana_tag() {
    // Tag "ミユキ" (katakana), query "みゆき" (hiragana) — and the reverse.
    let conn = seed_fuzzy_db();
    let e = parse_criteria(
        r#"upnp:class derivedfrom "object.container.person.musicArtist" and dc:title contains "みゆき""#,
    );
    let r = search_tracks(&ctx(&conn), &e, 0, 100).unwrap();
    assert_eq!(r.total_matches, 1);
    assert_eq!(r.didl.containers[0].title, "ミユキ");

    // Query with katakana matches the same tag.
    let e2 = parse_criteria(
        r#"upnp:class derivedfrom "object.container.person.musicArtist" and dc:title contains "ミユキ""#,
    );
    let r2 = search_tracks(&ctx(&conn), &e2, 0, 100).unwrap();
    assert_eq!(r2.total_matches, 1);
}

#[test]
fn fz5_halfwidth_katakana_search_input_matches_katakana_tag() {
    // Tag album "ﾌｧｲﾅﾙ" (halfwidth katakana), query "ファイナル" (fullwidth).
    let conn = seed_fuzzy_db();
    let e = parse_criteria(
        r#"upnp:class derivedfrom "object.container.album" and dc:title contains "ファイナル""#,
    );
    let r = search_tracks(&ctx(&conn), &e, 0, 100).unwrap();
    assert_eq!(r.total_matches, 1);
    assert_eq!(r.didl.containers[0].title, "ﾌｧｲﾅﾙ");
}

#[test]
fn fz6_case_is_folded_at_query_and_column() {
    // Mixed-case search input matches uppercase tag (legacy COLLATE NOCASE
    // behavior preserved by `for_search` lowercasing both sides).
    let conn = seed_fuzzy_db();
    let e = parse_criteria(
        r#"upnp:class derivedfrom "object.container.album" and dc:title contains "TAKK""#,
    );
    let r = search_tracks(&ctx(&conn), &e, 0, 100).unwrap();
    assert_eq!(r.total_matches, 1);
}

// ── typo-tolerant FTS5 trigram matching ──────────────────────────

#[test]
fn tz1_album_typo_via_trigram_hits_below_exact() {
    // "Beatles" misspelled as "Beatlse" (adjacent letter swap, distance 1).
    // The default `seed_db()` has Abbey Road by The Beatles — nothing in
    // it contains the query, and shared trigrams bring the album up.
    let conn = seed_db();
    let e = parse_criteria(
        r#"upnp:class derivedfrom "object.container.album" and dc:title contains "Beatlse""#,
    );
    let r = search_tracks(&ctx(&conn), &e, 0, 100).unwrap();
    assert_eq!(r.total_matches, 1);
    assert_eq!(r.didl.containers[0].title, "Abbey Road");
}

#[test]
fn tz2_like_hit_excludes_fuzzy_candidates() {
    // When LIKE produces any hit, the fuzzy stage is
    // not run at all. Here `"Solid"` matches the album `"Solid"` exactly,
    // and `"Soild Rock"` (trigram-similar but no substring containment)
    // never enters the result set even though its trigrams would clear
    // the Jaccard threshold if fuzzy ran.
    let conn = open_in_memory_migrated();
    let exact_id = upsert_album(
        &conn,
        &AlbumKey {
            effective_album_artist: "Some Artist",
            album: "Solid",
            compilation: false,
        },
        Some("Some Artist"),
        0,
    )
    .unwrap();
    let typo_id = upsert_album(
        &conn,
        &AlbumKey {
            effective_album_artist: "Other Artist",
            album: "Soild Rock",
            compilation: false,
        },
        Some("Other Artist"),
        0,
    )
    .unwrap();
    for (album_id, path) in [(exact_id, "/m/e.flac"), (typo_id, "/m/t.flac")] {
        upsert_track(
            &conn,
            &TrackRow {
                album_id,
                path,
                title: Some("t"),
                artist: Some("x"),
                genre: None,
                track_num: Some(1),
                disc_num: Some(1),
                duration_ms: Some(1),
                sample_rate: Some(44100),
                bit_depth: Some(16),
                channels: Some(2),
                bitrate: Some(1),
                codec: "flac",
                mime_type: "audio/flac",
                file_size: 1,
                added_at: 0,
                mtime: 0,
                composer: None,
                conductor: None,
                performer: None,
                year: None,
                rg_track_gain: None,
                rg_track_peak: None,
                rg_album_gain: None,
                rg_album_peak: None,
                artist_sort: None,
                album_artist_sort: None,
                album_sort: None,
                title_sort: None,
                composer_sort: None,
                original_year: None,
                mb_recording_id: None,
                mb_release_id: None,
                mb_release_group_id: None,
                mb_artist_id: None,
                mb_release_artist_id: None,
            },
        )
        .unwrap();
    }
    recalc_counts(&conn).unwrap();

    let e = parse_criteria(
        r#"upnp:class derivedfrom "object.container.album" and dc:title contains "Solid""#,
    );
    let r = search_tracks(&ctx(&conn), &e, 0, 100).unwrap();
    // Exactly one hit — the LIKE match. `"Soild Rock"` would clear the
    // 0.2 Jaccard threshold in the fuzzy stage, but the fuzzy stage
    // never runs because `like_total > 0`.
    assert_eq!(r.total_matches, 1);
    assert_eq!(r.didl.containers[0].title, "Solid");
}

#[test]
fn tz3_short_query_uses_like_only_path() {
    // Query length < 3 chars must NOT hit the FTS5 path (trigram needs ≥ 3
    // chars). "U2" is the canonical canary: as long as LIKE on a row whose
    // album_artist contains "u2" still works, the short-query fallback is
    // intact. We don't have a U2 album in the seed, so use a 2-char query
    // that does match: "Be" against "The Beatles".
    let conn = seed_db();
    let e = parse_criteria(
        r#"upnp:class derivedfrom "object.container.album" and dc:title contains "Be""#,
    );
    let r = search_tracks(&ctx(&conn), &e, 0, 100).unwrap();
    // "be" appears in "the beatles" (album_artist) → bucket 1. Exact result
    // shape doesn't matter; the assertion that matters is "no panic, no
    // FTS5 syntax error on a 2-char query".
    assert_eq!(r.total_matches, 1);
    assert_eq!(r.didl.containers[0].title, "Abbey Road");
}

#[test]
fn tz4_fuzzy_disabled_drops_typo_hit() {
    // With `search.fuzzy_enabled = false`, "Beatlse" must return zero —
    // the LIKE path alone cannot fold the typo and bucket 4 isn't wired.
    let conn = seed_db();
    let settings = BrowseSettings {
        search_fuzzy_enabled: false,
        ..BrowseSettings::default()
    };
    let e = parse_criteria(
        r#"upnp:class derivedfrom "object.container.album" and dc:title contains "Beatlse""#,
    );
    let r = search_tracks(&ctx_with_settings(&conn, &settings), &e, 0, 100).unwrap();
    assert_eq!(r.total_matches, 0);

    // Sanity: with fuzzy on (the default `ctx`), the same query returns 1.
    let r2 = search_tracks(&ctx(&conn), &e, 0, 100).unwrap();
    assert_eq!(r2.total_matches, 1);
}

#[test]
fn tz5_artist_class_typo_via_trigram() {
    // Linn Artist field with a typo. "Beatlse" → The Beatles via trigram.
    let conn = seed_db();
    let e = parse_criteria(
        r#"upnp:class derivedfrom "object.container.person.musicArtist" and dc:title contains "Beatlse""#,
    );
    let r = search_tracks(&ctx(&conn), &e, 0, 100).unwrap();
    assert_eq!(r.total_matches, 1);
    assert_eq!(r.didl.containers[0].title, "The Beatles");
    // Container kind must still match the curated/track-only distinction —
    // "The Beatles" is an album_artist, so `aa:`.
    assert!(r.didl.containers[0].id.starts_with("aa:"));
}

#[test]
fn tz6_track_class_single_title_typo_via_trigram() {
    // Track-class single-leaf `dc:title contains` typo. Uses a bespoke
    // 2-track seed so the assertion is unambiguous: a typo on "Yesterday"
    // must surface that one track without dragging the other in through
    // an incidental trigram overlap. The trigram OR fuzzy path is
    // intentionally noise-tolerant — short / overlapping pairs in
    // `seed_db()` like "Come Together" / "Something" share the `eth`
    // trigram, so we keep the noise study to its own setup.
    let conn = open_in_memory_migrated();
    let aid = upsert_album(
        &conn,
        &AlbumKey {
            effective_album_artist: "The Beatles",
            album: "Help!",
            compilation: false,
        },
        Some("The Beatles"),
        0,
    )
    .unwrap();
    for (path, title) in [("/m/y.flac", "Yesterday"), ("/m/n.flac", "Nowhere Man")] {
        upsert_track(
            &conn,
            &TrackRow {
                album_id: aid,
                path,
                title: Some(title),
                artist: Some("The Beatles"),
                genre: None,
                track_num: Some(1),
                disc_num: Some(1),
                duration_ms: Some(1),
                sample_rate: Some(44100),
                bit_depth: Some(16),
                channels: Some(2),
                bitrate: Some(1),
                codec: "flac",
                mime_type: "audio/flac",
                file_size: 1,
                added_at: 0,
                mtime: 0,
                composer: None,
                conductor: None,
                performer: None,
                year: None,
                rg_track_gain: None,
                rg_track_peak: None,
                rg_album_gain: None,
                rg_album_peak: None,
                artist_sort: None,
                album_artist_sort: None,
                album_sort: None,
                title_sort: None,
                composer_sort: None,
                original_year: None,
                mb_recording_id: None,
                mb_release_id: None,
                mb_release_group_id: None,
                mb_artist_id: None,
                mb_release_artist_id: None,
            },
        )
        .unwrap();
    }
    recalc_counts(&conn).unwrap();

    // "Yseterday" — adjacent-letter swap. 9 chars → 7 trigrams, multiple
    // shared with "yesterday" (`yes` is broken but `ter`, `erd`, `rda`,
    // `day` survive). "Nowhere Man" shares none.
    let e = parse_criteria(
        r#"upnp:class derivedfrom "object.item.audioItem" and dc:title contains "Yseterday""#,
    );
    let r = search_tracks(&ctx(&conn), &e, 0, 100).unwrap();
    assert_eq!(r.total_matches, 1);
    assert_eq!(r.didl.items[0].title, "Yesterday");
}

#[test]
fn tz7_composer_role_typo_via_trigram() {
    // Classical-facet route: role="Composer" + typo. Trigram OR needs a
    // composer name long enough that a 1-char swap still preserves several
    // shared 3-grams (a 4-char name like "Bach" has only 2 trigrams, and
    // a single swap can wipe both). Use the full "Johann Sebastian Bach"
    // form so the test reflects realistic CD-tag length.
    let conn = open_in_memory_migrated();
    let aid = upsert_album(
        &conn,
        &AlbumKey {
            effective_album_artist: "Various Artists",
            album: "Classical Mix",
            compilation: true,
        },
        None,
        0,
    )
    .unwrap();
    upsert_track(
        &conn,
        &TrackRow {
            album_id: aid,
            path: "/m/bwv.flac",
            title: Some("Air on the G String"),
            artist: Some("Berlin Philharmonic"),
            genre: None,
            track_num: Some(1),
            disc_num: Some(1),
            duration_ms: Some(1),
            sample_rate: Some(44100),
            bit_depth: Some(16),
            channels: Some(2),
            bitrate: Some(1),
            codec: "flac",
            mime_type: "audio/flac",
            file_size: 1,
            added_at: 0,
            mtime: 0,
            composer: Some("Johann Sebastian Bach"),
            conductor: Some("Karajan"),
            performer: Some("Berlin Philharmonic"),
            year: None,
            rg_track_gain: None,
            rg_track_peak: None,
            rg_album_gain: None,
            rg_album_peak: None,
            artist_sort: None,
            album_artist_sort: None,
            album_sort: None,
            title_sort: None,
            composer_sort: None,
            original_year: None,
            mb_recording_id: None,
            mb_release_id: None,
            mb_release_group_id: None,
            mb_artist_id: None,
            mb_release_artist_id: None,
        },
    )
    .unwrap();
    recalc_counts(&conn).unwrap();

    // "Sebsatian" — adjacent-letter swap inside the middle name. Plenty
    // of overlapping trigrams (`seb`, `eba`/`ebs`, …, `tia`, `ian`).
    let e = parse_criteria(
        r#"upnp:class derivedfrom "object.container.person.musicArtist" and upnp:artist[@role="Composer"] contains "Johann Sebsatian""#,
    );
    let r = search_tracks(&ctx(&conn), &e, 0, 100).unwrap();
    assert_eq!(r.total_matches, 1);
    assert_eq!(r.didl.containers[0].title, "Johann Sebastian Bach");
    assert!(r.didl.containers[0].id.starts_with("cm:"));
}

#[test]
fn tz8_track_class_or_composition_unchanged_by_fuzzy() {
    // The OR-composed Track-class shape (Linn's Track / global field)
    // intentionally stays on the LIKE-only path. Confirm a typo on that
    // shape does NOT surface a hit — the single-leaf fast path is the
    // only one that fuzzy-matches.
    let conn = seed_db();
    let e = parse_criteria(
        r#"upnp:class derivedfrom "object.item.audioItem" and ( dc:title contains "Cmoe Together" or upnp:album contains "Cmoe Together" or upnp:artist contains "Cmoe Together" or upnp:genre contains "Cmoe Together" )"#,
    );
    let r = search_tracks(&ctx(&conn), &e, 0, 100).unwrap();
    assert_eq!(r.total_matches, 0);
}

#[test]
fn tz9_trigger_sync_insert_update_delete() {
    // The AFTER triggers on `albums` keep `albums_fts` in sync without a
    // separate upsert path. Verify all three (insert / update / delete)
    // by driving the source table and querying FTS5 directly.
    let conn = open_in_memory_migrated();

    let id = upsert_album(
        &conn,
        &AlbumKey {
            effective_album_artist: "Trigger Test",
            album: "Phantom",
            compilation: false,
        },
        Some("Trigger Test"),
        0,
    )
    .unwrap();

    let hits = |needle: &str| -> i64 {
        let phrase = format!(r#""{}""#, needle);
        conn.query_row(
            "SELECT COUNT(*) FROM albums_fts WHERE albums_fts MATCH ?1",
            [&phrase],
            |r| r.get::<_, i64>(0),
        )
        .unwrap()
    };

    // INSERT trigger: "phantom" indexed.
    assert!(hits("phantom") >= 1);

    // UPDATE trigger: rename the album, old index entry gone, new one live.
    conn.execute(
        "UPDATE albums SET album = ?1, album_norm = ?2 WHERE id = ?3",
        ("Specter", "specter", id),
    )
    .unwrap();
    assert_eq!(hits("phantom"), 0);
    assert!(hits("specter") >= 1);

    // DELETE trigger: row removed, index empty.
    conn.execute("DELETE FROM albums WHERE id = ?1", [id])
        .unwrap();
    assert_eq!(hits("specter"), 0);
}

// ── Jaccard threshold cuts bucket-4 noise ────────────────────────

/// Helper: 3-album library — the typo target plus two "incidental
/// 1-trigram overlap" decoys that would land in bucket 4 *without*
/// the Jaccard threshold filter. Used by tza* / tzb* to demonstrate
/// noise control independent of `seed_db()`.
fn seed_noise_db() -> Connection {
    let conn = open_in_memory_migrated();
    for (aa, album, title) in [
        ("The Beatles", "Abbey Road", "Come Together"),
        // "Atlas" shares only `atl` with "beatles" → trigram OR would
        // hit but Jaccard ≒ 0.14, below the 0.2 cut.
        ("Atlas Group", "Bridges", "Span"),
        // "Beach Boys" shares only `bea` → Jaccard ≒ 0.08, also cut.
        ("Beach Boys", "Help", "Surfin' Safari"),
    ] {
        let aid = upsert_album(
            &conn,
            &AlbumKey {
                effective_album_artist: aa,
                album,
                compilation: false,
            },
            Some(aa),
            0,
        )
        .unwrap();
        upsert_track(
            &conn,
            &TrackRow {
                album_id: aid,
                path: &format!("/m/{aa}-{title}.flac"),
                title: Some(title),
                artist: Some(aa),
                genre: None,
                track_num: Some(1),
                disc_num: Some(1),
                duration_ms: Some(1),
                sample_rate: Some(44100),
                bit_depth: Some(16),
                channels: Some(2),
                bitrate: Some(1),
                codec: "flac",
                mime_type: "audio/flac",
                file_size: 1,
                added_at: 0,
                mtime: 0,
                composer: None,
                conductor: None,
                performer: None,
                year: None,
                rg_track_gain: None,
                rg_track_peak: None,
                rg_album_gain: None,
                rg_album_peak: None,
                artist_sort: None,
                album_artist_sort: None,
                album_sort: None,
                title_sort: None,
                composer_sort: None,
                original_year: None,
                mb_recording_id: None,
                mb_release_id: None,
                mb_release_group_id: None,
                mb_artist_id: None,
                mb_release_artist_id: None,
            },
        )
        .unwrap();
    }
    recalc_counts(&conn).unwrap();
    conn
}

#[test]
fn tza_album_class_noise_decoys_are_cut_by_jaccard() {
    // Without the threshold, `atl` (Beatles ↔ Atlas) and `bea` (Beatles ↔
    // Beach Boys) would each promote a row into bucket 4. With Jaccard ≥
    // 0.2 in place, only the real Beatles album survives.
    let conn = seed_noise_db();
    let e = parse_criteria(
        r#"upnp:class derivedfrom "object.container.album" and dc:title contains "Beatles""#,
    );
    let r = search_tracks(&ctx(&conn), &e, 0, 100).unwrap();
    assert_eq!(
        r.total_matches,
        1,
        "expected 1, got titles: {:?}",
        r.didl
            .containers
            .iter()
            .map(|c| &c.title)
            .collect::<Vec<_>>()
    );
    assert_eq!(r.didl.containers[0].title, "Abbey Road");
}

#[test]
fn tzb_album_class_typo_still_hits_with_noise_present() {
    // The bucket-4 noise filter must not eat real typos. "Beatlse" (1-char
    // swap) → "The Beatles" is the canonical case; the Atlas / Beach Boys
    // decoys must still get filtered out so we end up with exactly 1 hit.
    let conn = seed_noise_db();
    let e = parse_criteria(
        r#"upnp:class derivedfrom "object.container.album" and dc:title contains "Beatlse""#,
    );
    let r = search_tracks(&ctx(&conn), &e, 0, 100).unwrap();
    assert_eq!(
        r.total_matches,
        1,
        "expected 1, got titles: {:?}",
        r.didl
            .containers
            .iter()
            .map(|c| &c.title)
            .collect::<Vec<_>>()
    );
    assert_eq!(r.didl.containers[0].title, "Abbey Road");
}

#[test]
fn tzc_jaccard_tiebreak_orders_closer_typo_first() {
    // Two candidates that both pass the threshold but with different
    // similarity. Closer Jaccard score must surface first inside bucket 4.
    //
    // - "Yesterdayy" (one extra char vs "Yesterday") → very high Jaccard
    // - "Yseterday" (transposition) → also high but slightly different
    // We seed three albums; the typo query "Yseterday" should rank the
    // higher-Jaccard candidate above the lower one.
    let conn = open_in_memory_migrated();
    for (aa, album) in [
        // Closer to the typo "Yseterday" — shares many trigrams.
        ("Artist A", "Yesterday"),
        // Further: same prefix, longer suffix dilutes Jaccard.
        ("Artist B", "Yesterday and Tomorrow Forever"),
    ] {
        let aid = upsert_album(
            &conn,
            &AlbumKey {
                effective_album_artist: aa,
                album,
                compilation: false,
            },
            Some(aa),
            0,
        )
        .unwrap();
        upsert_track(
            &conn,
            &TrackRow {
                album_id: aid,
                path: &format!("/m/{album}.flac"),
                title: Some("t"),
                artist: Some(aa),
                genre: None,
                track_num: Some(1),
                disc_num: Some(1),
                duration_ms: Some(1),
                sample_rate: Some(44100),
                bit_depth: Some(16),
                channels: Some(2),
                bitrate: Some(1),
                codec: "flac",
                mime_type: "audio/flac",
                file_size: 1,
                added_at: 0,
                mtime: 0,
                composer: None,
                conductor: None,
                performer: None,
                year: None,
                rg_track_gain: None,
                rg_track_peak: None,
                rg_album_gain: None,
                rg_album_peak: None,
                artist_sort: None,
                album_artist_sort: None,
                album_sort: None,
                title_sort: None,
                composer_sort: None,
                original_year: None,
                mb_recording_id: None,
                mb_release_id: None,
                mb_release_group_id: None,
                mb_artist_id: None,
                mb_release_artist_id: None,
            },
        )
        .unwrap();
    }
    recalc_counts(&conn).unwrap();

    let e = parse_criteria(
        r#"upnp:class derivedfrom "object.container.album" and dc:title contains "Yseterday""#,
    );
    let r = search_tracks(&ctx(&conn), &e, 0, 100).unwrap();
    // Both pass the threshold (both share many trigrams with "yseterday"),
    // but the shorter / closer "Yesterday" has the higher Jaccard score
    // and must be returned first.
    assert!(r.total_matches >= 1);
    assert_eq!(r.didl.containers[0].title, "Yesterday");
}

#[test]
fn tzd_track_class_like_hit_excludes_fuzzy() {
    // Same fall-through invariant as tz2, but exercising the Track-class
    // single-leaf path. A track titled "Yesterday" (LIKE hit on
    // "Yesterday") coexists with "Yseterdyy Special" (fuzzy candidate
    // only). The fuzzy stage must not run.
    let conn = open_in_memory_migrated();
    let aid = upsert_album(
        &conn,
        &AlbumKey {
            effective_album_artist: "Various",
            album: "Mix",
            compilation: true,
        },
        None,
        0,
    )
    .unwrap();
    for (path, title) in [
        ("/m/y.flac", "Yesterday"),
        ("/m/y2.flac", "Yseterdyy Special"),
    ] {
        upsert_track(
            &conn,
            &TrackRow {
                album_id: aid,
                path,
                title: Some(title),
                artist: Some("Various"),
                genre: None,
                track_num: Some(1),
                disc_num: Some(1),
                duration_ms: Some(1),
                sample_rate: Some(44100),
                bit_depth: Some(16),
                channels: Some(2),
                bitrate: Some(1),
                codec: "flac",
                mime_type: "audio/flac",
                file_size: 1,
                added_at: 0,
                mtime: 0,
                composer: None,
                conductor: None,
                performer: None,
                year: None,
                rg_track_gain: None,
                rg_track_peak: None,
                rg_album_gain: None,
                rg_album_peak: None,
                artist_sort: None,
                album_artist_sort: None,
                album_sort: None,
                title_sort: None,
                composer_sort: None,
                original_year: None,
                mb_recording_id: None,
                mb_release_id: None,
                mb_release_group_id: None,
                mb_artist_id: None,
                mb_release_artist_id: None,
            },
        )
        .unwrap();
    }
    recalc_counts(&conn).unwrap();

    let e = parse_criteria(
        r#"upnp:class derivedfrom "object.item.audioItem" and dc:title contains "Yesterday""#,
    );
    let r = search_tracks(&ctx(&conn), &e, 0, 100).unwrap();
    // Only the LIKE-matching track surfaces. "Yseterdyy Special" would
    // pass the Jaccard threshold but the fuzzy stage never runs.
    assert_eq!(r.total_matches, 1);
    assert_eq!(r.didl.items[0].title, "Yesterday");
}

// ── Pagination still works ────────────────────────────────────────────

#[test]
fn st7_pagination_offset_count() {
    let conn = seed_db();
    // 2 Abbey Road tracks; offset=1, limit=1 returns one.
    let e = parse_criteria(
        r#"upnp:class derivedfrom "object.item.audioItem" and ( dc:title contains "Together" or upnp:album contains "Abbey" or upnp:artist contains "zzz" or upnp:genre contains "zzz" )"#,
    );
    let r = search_tracks(&ctx(&conn), &e, 1, 1).unwrap();
    // Both Abbey Road tracks match via upnp:album OR branch; total = 2.
    assert_eq!(r.total_matches, 2);
    assert_eq!(r.didl.items.len(), 1);
}
