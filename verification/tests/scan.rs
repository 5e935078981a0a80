use revolver::db::tracks::Mtimes;
use revolver::path::relativize_path;
use revolver::random::RandomState;
use revolver::scan::matcher::{determine_added_at, effective_album_artist};
use revolver::scan::progress::{Phase, ScanProgress};
use revolver::scan::report::ScanStats;
use revolver::scan::tagger::{codec_is_lossless, parse_bool_flag, parse_num_prefix};
use revolver::scan::{partition_by_mtime, should_bump_system_update_id};

// ── Matching ─────────────────────────────────────────────────────────────

#[test]
fn m1_compilation_overrides_everything() {
    assert_eq!(
        effective_album_artist(true, Some("Real AA"), Some("Real A")),
        "Various Artists"
    );
}

#[test]
fn m2_album_artist_takes_precedence_over_artist() {
    assert_eq!(effective_album_artist(false, Some("AA"), Some("A")), "AA");
}

#[test]
fn m3_falls_back_to_artist_when_album_artist_empty_or_missing() {
    assert_eq!(effective_album_artist(false, None, Some("A")), "A");
    assert_eq!(effective_album_artist(false, Some(""), Some("A")), "A");
}

#[test]
fn m4_unknown_when_all_empty_or_missing() {
    assert_eq!(effective_album_artist(false, None, None), "Unknown Artist");
    assert_eq!(effective_album_artist(false, Some(""), Some("")), "Unknown Artist");
}

fn unix_now() -> i64 {
    std::time::SystemTime::now().duration_since(std::time::UNIX_EPOCH).unwrap().as_secs() as i64
}

#[test]
fn m5_initial_with_both_returns_min() {
    let now = unix_now();
    let btime = now - 1000;
    let mtime = now - 500;
    let got = determine_added_at(Some(btime), Some(mtime), true, now);
    assert_eq!(got, btime, "expected min(btime, mtime) = btime");
}

#[test]
fn m6_initial_with_only_btime() {
    let now = unix_now();
    let btime = now - 1000;
    let got = determine_added_at(Some(btime), None, true, now);
    assert_eq!(got, btime);
}

#[test]
fn m7_not_initial_returns_now() {
    let now = unix_now();
    let old = now - 10_000;
    let got = determine_added_at(Some(old), Some(old), false, now);
    assert_eq!(got, now);
}

#[test]
fn m8_initial_future_btime_is_clamped_to_now() {
    let now = unix_now();
    let future = now + 86_400;
    let got = determine_added_at(Some(future), None, true, now);
    assert_eq!(got, now, "future timestamp must clamp to now");
}

// ── The update id ────────────────────────────────────────────────────────

fn empty_stats() -> ScanStats {
    ScanStats::default()
}

#[test]
fn b1_should_bump_when_inserted() {
    let mut s = empty_stats();
    s.tracks_inserted = 1;
    assert!(should_bump_system_update_id(&s));
}

#[test]
fn b2_should_bump_when_deleted() {
    let mut s = empty_stats();
    s.tracks_deleted = 1;
    assert!(should_bump_system_update_id(&s));
}

#[test]
fn b3_should_bump_when_updated() {
    let mut s = empty_stats();
    s.tracks_updated = 1;
    assert!(should_bump_system_update_id(&s));
}

#[test]
fn b4_should_not_bump_when_all_zero() {
    assert!(!should_bump_system_update_id(&empty_stats()));
}

#[test]
fn b5_should_not_bump_when_only_unchanged_or_tag_failed() {
    let mut s = empty_stats();
    s.tracks_unchanged = 100;
    s.tag_read_failed = 5;
    s.files_enumerated = 105;
    assert!(!should_bump_system_update_id(&s));
}

// ── Paths and times ──────────────────────────────────────────────────────

#[test]
fn rl1_relativize_path_strips_library_root_prefix() {
    let rel = relativize_path("/music/library/jazz/coltrane.flac", "/music/library");
    assert_eq!(rel, "jazz/coltrane.flac");
}

#[test]
fn rl2_relativize_path_falls_back_to_filename_when_prefix_mismatch() {
    let rel = relativize_path("/etc/passwd", "/music/library");
    assert_eq!(rel, "passwd");
}

#[test]
fn mt1_partition_by_mtime_matches_skip_else_re_read() {
    let mut db = Mtimes::new();
    db.insert("/m/a.flac".to_string(), 100);
    db.insert("/m/b.flac".to_string(), 200);
    let enumerated = vec![("/m/a.flac", 100i64), ("/m/b.flac", 999), ("/m/c.flac", 50)];
    let (needs, unchanged) = partition_by_mtime(&enumerated, &db);
    assert_eq!(unchanged, 1);
    assert_eq!(needs, vec![1, 2]);
}

#[test]
fn mt2_partition_all_matched_skips_everything() {
    let mut db = Mtimes::new();
    db.insert("/m/x.flac".to_string(), 1);
    db.insert("/m/y.flac".to_string(), 2);
    let enumerated = vec![("/m/x.flac", 1i64), ("/m/y.flac", 2)];
    let (needs, unchanged) = partition_by_mtime(&enumerated, &db);
    assert_eq!(unchanged, 2);
    assert!(needs.is_empty());
}

#[test]
fn mt3_partition_all_new_re_reads_everything() {
    let db = Mtimes::new();
    let enumerated = vec![("/m/x.flac", 1i64), ("/m/y.flac", 2)];
    let (needs, unchanged) = partition_by_mtime(&enumerated, &db);
    assert_eq!(unchanged, 0);
    assert_eq!(needs, vec![0, 1]);
}

// ── Progress ─────────────────────────────────────────────────────────────

#[test]
fn sp1_default_is_idle() {
    let p = ScanProgress::new();
    let snap = p.snapshot();
    assert_eq!(snap.phase, "idle");
    assert_eq!(snap.current, 0);
    assert_eq!(snap.total, 0);
    assert_eq!(snap.started_at, 0);
}

#[test]
fn sp2_begin_scan_sets_walking() {
    let mut p = ScanProgress::new();
    p.begin_scan();
    assert_eq!(p.phase(), Phase::Walking);
    assert!(p.snapshot().started_at > 0);
}

#[test]
fn sp3_enter_resets_current_and_sets_total() {
    let mut p = ScanProgress::new();
    p.begin_scan();
    p.advance(42);
    p.enter(Phase::TagRead, 100);
    assert_eq!(p.phase(), Phase::TagRead);
    assert_eq!(p.current(), 0);
    assert_eq!(p.total(), 100);
}

#[test]
fn sp4_tick_and_advance_increment() {
    let mut p = ScanProgress::new();
    p.enter(Phase::TagRead, 10);
    p.tick();
    p.tick();
    p.advance(3);
    assert_eq!(p.current(), 5);
}

#[test]
fn sp5_finish_returns_to_idle() {
    let mut p = ScanProgress::new();
    p.begin_scan();
    p.enter(Phase::TagRead, 10);
    p.advance(5);
    p.finish();
    let snap = p.snapshot();
    assert_eq!(snap.phase, "idle");
    assert_eq!(snap.current, 0);
    assert_eq!(snap.total, 0);
    assert_eq!(snap.started_at, 0);
}

// ── Tags ─────────────────────────────────────────────────────────────────

#[test]
fn pb1_parse_bool_flag_true_variants() {
    assert!(parse_bool_flag("1"));
    assert!(parse_bool_flag("true"));
    assert!(parse_bool_flag("TRUE"));
    assert!(parse_bool_flag("True"));
    assert!(parse_bool_flag("yes"));
    assert!(parse_bool_flag("YES"));
    assert!(parse_bool_flag(" 1 "));
}

#[test]
fn pb2_parse_bool_flag_false_variants() {
    assert!(!parse_bool_flag(""));
    assert!(!parse_bool_flag("0"));
    assert!(!parse_bool_flag("false"));
    assert!(!parse_bool_flag("no"));
    assert!(!parse_bool_flag("2"));
    assert!(!parse_bool_flag("garbage"));
}

#[test]
fn pn1_parse_num_prefix_extracts_first_number() {
    assert_eq!(parse_num_prefix("3"), Some(3));
    assert_eq!(parse_num_prefix("3/12"), Some(3));
    assert_eq!(parse_num_prefix(" 7 "), Some(7));
    assert_eq!(parse_num_prefix("0"), Some(0));
}

#[test]
fn pn2_parse_num_prefix_returns_none_on_garbage() {
    assert_eq!(parse_num_prefix(""), None);
    assert_eq!(parse_num_prefix("abc"), None);
    assert_eq!(parse_num_prefix("/12"), None);
    assert_eq!(parse_num_prefix("-1"), None);
}

#[test]
fn cl1_codec_is_lossless_includes_all_three_lossless_codecs() {
    assert!(codec_is_lossless("flac"));
    assert!(codec_is_lossless("alac"));
    assert!(codec_is_lossless("pcm"));
}

#[test]
fn cl2_codec_is_lossless_rejects_lossy_and_unknown() {
    assert!(!codec_is_lossless("mp3"));
    assert!(!codec_is_lossless("aac"));
    assert!(!codec_is_lossless("unknown"));
    assert!(!codec_is_lossless(""));
    assert!(!codec_is_lossless("FLAC"));
}

// ── Random albums ────────────────────────────────────────────────────────

#[test]
fn ra1_new_page_returns_empty() {
    let s = RandomState::new();
    assert!(s.is_empty());
    assert_eq!(s.page(0, 10), Vec::<i64>::new());
}
