use revolver::art::cache::{ArtCache, CachedArt};
use revolver::art::extract::{extract_embedded, extract_folder, Picture, PictureFormat, PictureKind};
use revolver::config::{
    default_bind_address, default_db_path, default_quality_in_title_format,
    default_quality_in_title_include, default_top_level, default_uuid,
};
use revolver::config_catalog::{
    catalog, find, top_level_choices, validate_bool, validate_nullable_positive_int,
    validate_positive_int, validate_string_array,
};
use revolver::json::{JsonEntry, JsonValue};
use revolver::normalize::for_search;
use revolver::scan::progress::Phase;
use revolver::scan::report::ScanReport;
use revolver::scan::schedule::{schedule, Task, TX_CHUNK};
use revolver::scan::tagger::{codec_for, mime_for, parse_level, parse_year, FileType, Mp4Codec};
use revolver::scan::walker::{keep_entry, walk, SkipReason, WalkEntry, WalkResult};
use revolver::upnp::object_id::{encode, ObjectId};

// ── Pictures ─────────────────────────────────────────────────────────────

fn art(bytes: Vec<u8>) -> CachedArt {
    CachedArt {
        bytes,
        mime: "image/jpeg",
    }
}

#[test]
fn c1_put_then_get_returns_same_bytes() {
    let mut cache = ArtCache::new();
    cache.put(42, art(b"hello".to_vec()));
    let got = cache.get(42).unwrap();
    assert_eq!(&got.bytes[..], b"hello");
    assert_eq!(got.mime, "image/jpeg");
}

#[test]
fn c2_get_miss_returns_none() {
    let cache = ArtCache::new();
    assert!(cache.get(42).is_none());
}

#[test]
fn c3_overwrite_same_key_keeps_one_entry() {
    let mut cache = ArtCache::new();
    cache.put(1, art(vec![0u8; 100]));
    cache.put(1, art(vec![0u8; 200]));
    assert_eq!(cache.len(), 1);
    assert_eq!(cache.current_bytes(), 200);
}

// Clear everything on budget overflow. Verified via the
// budget-parameterized test path.
#[test]
fn ev1_exceeding_budget_clears_all_then_adds_new() {
    let mut cache = ArtCache::new();
    // budget = 1000, insert two 400-byte entries (total 800, under threshold).
    cache.put_with_budget(1, art(vec![0u8; 400]), 1000);
    cache.put_with_budget(2, art(vec![0u8; 400]), 1000);
    assert_eq!(cache.len(), 2);
    assert_eq!(cache.current_bytes(), 800);

    // The third 400 byte entry brings total to 1200 > 1000 -> clear all, add 1 new.
    cache.put_with_budget(3, art(vec![0u8; 400]), 1000);
    assert_eq!(cache.len(), 1, "after clear, only the new entry remains");
    assert_eq!(cache.current_bytes(), 400);
    assert!(cache.get(1).is_none(), "old entries discarded");
    assert!(cache.get(2).is_none());
    assert!(cache.get(3).is_some(), "new entry survives");
}

#[test]
fn ev2_overwriting_same_key_does_not_trigger_clear() {
    let mut cache = ArtCache::new();
    cache.put_with_budget(1, art(vec![0u8; 800]), 1000);
    // Same-key overwrite (800 -> 800). current(800) + size(800) = 1600 > 1000
    // triggers clear.
    cache.put_with_budget(1, art(vec![1u8; 800]), 1000);
    // After clear, the new value is inserted: 1 entry, 800 bytes.
    assert_eq!(cache.len(), 1);
    let got = cache.get(1).unwrap();
    assert_eq!(got.bytes[0], 1, "overwritten value is visible");
}

#[test]
fn ev3_zero_size_entry_does_not_evict() {
    let mut cache = ArtCache::new();
    cache.put_with_budget(1, art(vec![0u8; 500]), 1000);
    // 0-byte put: 500 + 0 = 500 < 1000 -> no clear.
    cache.put_with_budget(2, art(vec![]), 1000);
    assert_eq!(cache.len(), 2);
    assert!(cache.get(1).is_some());
}

fn names(v: &[&str]) -> Vec<String> {
    v.iter().map(|s| s.to_string()).collect()
}

#[test]
fn ef1_folder_with_cover_jpg_picks_it() {
    let dir = names(&["cover.jpg", "random.jpg"]);
    let (i, mime) = extract_folder(&dir).unwrap();
    assert_eq!(dir[i], "cover.jpg");
    assert_eq!(mime, "image/jpeg");
}

#[test]
fn ef2_folder_with_only_random_jpg_falls_back() {
    let dir = names(&["zzz.jpg"]);
    let (i, mime) = extract_folder(&dir).unwrap();
    assert_eq!(dir[i], "zzz.jpg");
    assert_eq!(mime, "image/jpeg");
}

#[test]
fn ef3_empty_folder_returns_none() {
    assert!(extract_folder(&names(&[])).is_none());
}

#[test]
fn ef4_case_insensitive_stem_and_ext() {
    let dir = names(&["FOLDER.png", "Cover.JPG"]);
    let (i, mime) = extract_folder(&dir).unwrap();
    assert_eq!(dir[i], "Cover.JPG");
    assert_eq!(mime, "image/jpeg");
}

#[test]
fn ef5_png_only_returned_with_image_png() {
    let dir = names(&["cover.png"]);
    let (i, mime) = extract_folder(&dir).unwrap();
    assert_eq!(dir[i], "cover.png");
    assert_eq!(mime, "image/png");
}

#[test]
fn ef6_non_image_files_ignored() {
    assert!(extract_folder(&names(&["notes.txt", "track.flac"])).is_none());
}

#[test]
fn ee1_extract_embedded_on_missing_file_returns_none() {
    // A file that cannot be read has no pictures.
    assert!(extract_embedded(&Vec::new()).is_none());
}

fn picture(kind: PictureKind, format: PictureFormat, byte: u8) -> Picture {
    Picture {
        kind,
        format,
        data: vec![byte],
    }
}

#[test]
fn front_cover_goes_before_other_pictures() {
    let pics = vec![
        picture(PictureKind::Further, PictureFormat::Png, 1),
        picture(PictureKind::Other, PictureFormat::Png, 2),
        picture(PictureKind::CoverFront, PictureFormat::Jpeg, 3),
    ];
    assert_eq!(extract_embedded(&pics), Some((vec![3], "image/jpeg")));
    let pics = vec![
        picture(PictureKind::Further, PictureFormat::Png, 1),
        picture(PictureKind::Other, PictureFormat::Png, 2),
    ];
    assert_eq!(extract_embedded(&pics), Some((vec![2], "image/png")));
    let pics = vec![picture(PictureKind::Further, PictureFormat::Png, 1)];
    assert_eq!(extract_embedded(&pics), Some((vec![1], "image/png")));
}

#[test]
fn choice_of_a_folder_image_does_not_depend_on_the_order() {
    let a = names(&["b.jpg", "a.jpg", "front.png", "folder.jpg"]);
    let b = names(&["folder.jpg", "front.png", "a.jpg", "b.jpg"]);
    let (i, mime) = extract_folder(&a).unwrap();
    let (j, _) = extract_folder(&b).unwrap();
    assert_eq!(a[i], b[j]);
    assert_eq!(a[i], "folder.jpg");
    assert_eq!(mime, "image/jpeg");
}

// ── Search forms ─────────────────────────────────────────────────────────

// ── NFKD + combining marks ──────────────────────────────────────────

#[test]
fn n1_accents_are_stripped() {
    assert_eq!(for_search("café"), "cafe");
    assert_eq!(for_search("Björk"), "bjork");
    assert_eq!(for_search("Sigur Rós"), "sigur ros");
}

#[test]
fn n2_halfwidth_and_fullwidth_latin_fold_to_ascii() {
    // Fullwidth letters fold to half-width via NFKD compatibility.
    assert_eq!(for_search("Ｂｅａｔｌｅｓ"), "beatles");
    assert_eq!(for_search("Ｂｊｏｒｋ"), "bjork");
}

#[test]
fn n3_case_is_folded() {
    assert_eq!(for_search("ABBEY ROAD"), "abbey road");
    assert_eq!(for_search("Abbey Road"), "abbey road");
    assert_eq!(for_search("abbey road"), "abbey road");
}

// ── Katakana / hiragana / halfwidth katakana ────────────────────────

#[test]
fn n4_katakana_normalizes_to_hiragana() {
    // Full-width katakana → hiragana directly.
    assert_eq!(for_search("ミユキ"), "みゆき");
}

#[test]
fn n5_halfwidth_katakana_normalizes_to_hiragana() {
    // NFKD promotes ﾐﾕｷ to ミユキ first, then the katakana→hiragana shift applies.
    assert_eq!(for_search("ﾐﾕｷ"), "みゆき");
}

#[test]
fn n6_hiragana_unchanged() {
    // Already lowercase + no marks; round-trips through the pipeline.
    assert_eq!(for_search("みゆき"), "みゆき");
}

// ── Idempotency: normalizing twice is the same as normalizing once
// (required so a backfilled column never drifts from a re-upserted value).
#[test]
fn n7_idempotent_on_mixed_input() {
    let once = for_search("Café Ｂeatles ﾐﾕｷ");
    let twice = for_search(&once);
    assert_eq!(once, twice);
}

#[test]
fn n8_empty_string_round_trip() {
    assert_eq!(for_search(""), "");
}

// ── Tags ─────────────────────────────────────────────────────────────────

#[test]
fn mf1_mime_for_known_filetypes() {
    assert_eq!(mime_for(FileType::Flac), "audio/flac");
    assert_eq!(mime_for(FileType::Mp4), "audio/mp4");
    assert_eq!(mime_for(FileType::Mpeg), "audio/mpeg");
    assert_eq!(mime_for(FileType::Wav), "audio/x-wav");
    assert_eq!(mime_for(FileType::Aiff), "audio/x-aiff");
}

#[test]
fn mf2_mime_for_unknown_falls_back_to_octet_stream() {
    assert_eq!(mime_for(FileType::Other), "application/octet-stream");
}

#[test]
fn cf1_codec_for_known_filetypes() {
    assert_eq!(codec_for(FileType::Flac, Mp4Codec::Unreadable), "flac");
    assert_eq!(codec_for(FileType::Mpeg, Mp4Codec::Unreadable), "mp3");
    assert_eq!(codec_for(FileType::Wav, Mp4Codec::Unreadable), "pcm");
    assert_eq!(codec_for(FileType::Aiff, Mp4Codec::Unreadable), "pcm");
}

#[test]
fn cf2_codec_for_mp4_falls_back_to_aac_when_file_missing() {
    // Treating ALAC as AAC only drops the bit depth; playback still works.
    assert_eq!(codec_for(FileType::Mp4, Mp4Codec::Unreadable), "aac");
}

#[test]
fn cf3_codec_for_unknown_returns_unknown() {
    assert_eq!(codec_for(FileType::Other, Mp4Codec::Unreadable), "unknown");
}

// ── Walking ──────────────────────────────────────────────────────────────

/// A directory as a walk comes by it.
struct Tree {
    entries: Vec<WalkEntry>,
}

impl Tree {
    fn new() -> Self {
        Tree {
            entries: Vec::new(),
        }
    }

    /// Add a file. What lies under a hidden name is never come by.
    fn add(&mut self, rel: &str, zero_size: bool, inside_root: bool) {
        let names: Vec<&str> = rel.split('/').collect();
        for (depth, name) in names.iter().enumerate() {
            if !keep_entry(depth + 1, name) {
                return;
            }
        }
        self.entries.push(WalkEntry {
            path: format!("/lib/{rel}"),
            file_name: names[names.len() - 1].to_string(),
            is_file: true,
            zero_size,
            inside_root,
        });
    }

    fn touch(&mut self, rel: &str, content: &[u8]) {
        self.add(rel, content.is_empty(), true);
    }

    fn link(&mut self, rel: &str, inside_root: bool) {
        self.add(rel, false, inside_root);
    }

    fn walk(&self, extensions: &Vec<String>) -> WalkResult {
        walk(&self.entries, extensions)
    }

    fn has(&self, path: &str) -> bool {
        self.entries.iter().any(|e| e.path == path)
    }
}

fn extensions() -> Vec<String> {
    ["flac", "wav", "mp3", "m4a", "aiff", "aif"]
        .into_iter()
        .map(String::from)
        .collect()
}

#[test]
fn w1_empty_dir() {
    let tmp = Tree::new();
    let r = tmp.walk(&extensions());
    assert!(r.audio_files.is_empty());
    assert!(r.skipped.is_empty());
}

#[test]
fn w2_single_flac() {
    let mut tmp = Tree::new();
    tmp.touch("song.flac", b"audio");
    let r = tmp.walk(&extensions());
    assert_eq!(r.audio_files.len(), 1);
    assert!(r.skipped.is_empty());
}

#[test]
fn w3_flac_and_unrelated_binary() {
    // Non-companion non-audio extension goes to `skipped` so an admin can
    // notice things like a stray `.exe` or a mistyped `.mp33`.
    let mut tmp = Tree::new();
    tmp.touch("song.flac", b"audio");
    tmp.touch("stray.exe", b"bin");
    let r = tmp.walk(&extensions());
    assert_eq!(r.audio_files.len(), 1);
    assert_eq!(r.skipped.len(), 1);
    assert!(matches!(
        r.skipped[0].reason,
        SkipReason::UnsupportedExtension
    ));
    assert_eq!(r.companion_files_seen, 0);
}

#[test]
fn w12_companion_files_counted_not_skipped() {
    // Folder.jpg / rip.log / cuesheet / playlist / checksum live alongside
    // music in 99% of album dirs. They must NOT bloat the `skipped` list.
    let mut tmp = Tree::new();
    tmp.touch("Album/01.flac", b"audio");
    tmp.touch("Album/Folder.jpg", b"image");
    tmp.touch("Album/rip.log", b"log");
    tmp.touch("Album/Album.cue", b"cue");
    tmp.touch("Album/playlist.m3u", b"playlist");
    tmp.touch("Album/checksum.md5", b"sum");
    // Mixed-case extension must still match (case-insensitive whitelist).
    tmp.touch("Album/COVER.JPG", b"image");
    let r = tmp.walk(&extensions());
    assert_eq!(r.audio_files.len(), 1);
    assert!(
        r.skipped.is_empty(),
        "companion files must not appear in skipped, got: {:?}",
        r.skipped
    );
    assert_eq!(r.companion_files_seen, 6);
}

#[test]
fn w4_hidden_file_pruned() {
    let mut tmp = Tree::new();
    tmp.touch(".DS_Store", b"meta");
    let r = tmp.walk(&extensions());
    assert!(r.audio_files.is_empty());
    assert!(
        r.skipped.is_empty(),
        "hidden files should be pruned, not skipped"
    );
}

#[test]
fn w5_hidden_dir_pruned() {
    let mut tmp = Tree::new();
    tmp.touch(".git/HEAD", b"ref");
    tmp.touch(".git/hidden.flac", b"audio");
    let r = tmp.walk(&extensions());
    assert!(r.audio_files.is_empty());
    assert!(r.skipped.is_empty());
}

#[test]
fn w6_zero_size_flac() {
    let mut tmp = Tree::new();
    tmp.touch("empty.flac", b"");
    let r = tmp.walk(&extensions());
    assert!(r.audio_files.is_empty());
    assert_eq!(r.skipped.len(), 1);
    assert!(matches!(r.skipped[0].reason, SkipReason::ZeroSize));
}

#[test]
fn w7_nested_dirs() {
    let mut tmp = Tree::new();
    tmp.touch("sub/a.flac", b"audio");
    tmp.touch("sub/deeper/b.mp3", b"audio");
    let r = tmp.walk(&extensions());
    assert_eq!(r.audio_files.len(), 2);
}

#[test]
fn w8_case_insensitive_ext() {
    let mut tmp = Tree::new();
    tmp.touch("song.FLAC", b"audio");
    let r = tmp.walk(&extensions());
    assert_eq!(r.audio_files.len(), 1);
}

#[test]
fn w9_symlink_inside_library_is_accepted() {
    // Legitimate case: symlink within library_root resolving to the same root
    let mut tmp = Tree::new();
    tmp.touch("real/track.flac", b"audio");
    tmp.link("linked.flac", true);

    let r = tmp.walk(&extensions());
    // Both the real file and the symlink to the same backing object end up in audio_files
    assert_eq!(r.audio_files.len(), 2);
}

#[test]
fn w11_unicode_filenames_collected() {
    // File / directory names with CJK / emoji must be collected into audio_files.
    // UPnP assumes UTF-8 paths, so dropping them server-side causes incidents
    // like "Japanese titles silently disappear".
    let mut tmp = Tree::new();
    tmp.touch("ジャズ/コルトレーン.flac", b"audio");
    tmp.touch("🎵 favorites/track.flac", b"audio");
    tmp.touch("Björk - Vespertine/01.flac", b"audio");
    let r = tmp.walk(&extensions());
    assert_eq!(
        r.audio_files.len(),
        3,
        "unicode filenames must be collected"
    );
    for path in &r.audio_files {
        assert!(tmp.has(path), "discovered path should exist: {:?}", path);
    }
}

#[test]
fn w10_symlink_outside_library_is_skipped() {
    // A link to a real object outside of the library's root is left out.
    let mut lib = Tree::new();
    lib.link("link.flac", false);

    let r = lib.walk(&extensions());
    assert!(r.audio_files.is_empty());
    assert_eq!(r.skipped.len(), 1);
    assert!(matches!(
        r.skipped[0].reason,
        SkipReason::OutsideLibraryRoot
    ));
}

// ── Settings ─────────────────────────────────────────────────────────────

#[test]
fn cc1_find_known_key() {
    assert!(find("browse.recently_added_limit").is_some());
    assert!(find("nope").is_none());
}

fn json(text: &str) -> JsonValue {
    JsonValue::parse(text).unwrap()
}

#[test]
fn cc2_validate_positive_int_accepts_positive() {
    let v = validate_positive_int(&json("42")).unwrap();
    assert_eq!(v.write(), "42");
}

#[test]
fn cc3_validate_positive_int_rejects_zero_and_negative() {
    assert!(validate_positive_int(&json("0")).is_err());
    assert!(validate_positive_int(&json("-1")).is_err());
    assert!(validate_positive_int(&json("\"x\"")).is_err());
}

#[test]
fn cc4_validate_bool_accepts_only_booleans() {
    assert_eq!(validate_bool(&json("true")).unwrap().write(), "true");
    assert!(validate_bool(&json("1")).is_err());
}

#[test]
fn cc9_validate_string_array_accepts_and_dedupes() {
    let v = validate_string_array(&json(r#"["cat:aa", "cat:al", "cat:aa"]"#)).unwrap();
    assert_eq!(v.write(), r#"["cat:aa","cat:al"]"#);
}

#[test]
fn cc10_validate_string_array_rejects_non_array_and_non_string() {
    assert!(validate_string_array(&json("\"nope\"")).is_err());
    assert!(validate_string_array(&json(r#"["cat:aa", 1]"#)).is_err());
}

#[test]
fn cc11_validate_string_array_caps_length() {
    let many: Vec<JsonEntry> = (0..65).map(|i| JsonEntry::Text(format!("cat:{i}"))).collect();
    assert!(validate_string_array(&JsonValue::List(many)).is_err());
    let most: Vec<JsonEntry> = (0..64).map(|i| JsonEntry::Text(format!("cat:{i}"))).collect();
    assert!(validate_string_array(&JsonValue::List(most)).is_ok());
}

#[test]
fn missing_limits_are_accepted_where_there_may_be_none() {
    assert_eq!(
        validate_nullable_positive_int(&JsonValue::Null).unwrap().write(),
        "null"
    );
    assert_eq!(
        validate_nullable_positive_int(&json("7")).unwrap().write(),
        "7"
    );
    assert!(validate_nullable_positive_int(&json("0")).is_err());
    assert!(validate_positive_int(&JsonValue::Null).is_err());
}

#[test]
fn accepted_values_are_accepted_again() {
    for text in ["[]", r#"["a","b","a"]"#] {
        let once = validate_string_array(&json(text)).unwrap();
        let again = validate_string_array(&once).unwrap();
        assert_eq!(once.write(), again.write());
    }
}

#[test]
fn settings_have_distinct_keys() {
    let keys: Vec<&str> = catalog().iter().map(|e| e.key).collect();
    for (i, a) in keys.iter().enumerate() {
        assert_eq!(find(a).unwrap().key, *a);
        for b in &keys[i + 1..] {
            assert_ne!(a, b);
        }
    }
}

#[test]
fn every_facet_can_be_chosen_for_the_top() {
    let ids: Vec<String> = top_level_choices().iter().map(|c| c.id.to_string()).collect();
    assert_eq!(ids, default_top_level());
}

#[test]
fn json_text_is_read_back() {
    assert!(JsonValue::parse("{not json").is_none());
    assert!(matches!(json("{ \"a\": 1 }"), JsonValue::Further(s) if s == r#"{"a":1}"#));
    assert!(matches!(json("-3"), JsonValue::Further(s) if s == "-3"));
    assert!(matches!(json("0.5"), JsonValue::Further(s) if s == "0.5"));
    assert!(matches!(json("3"), JsonValue::Number(3)));
    match json(r#"["a", [1]]"#) {
        JsonValue::List(entries) => {
            assert!(matches!(&entries[0], JsonEntry::Text(s) if s == "a"));
            assert!(matches!(&entries[1], JsonEntry::Further(s) if s == "[1]"));
        }
        other => panic!("{other:?}"),
    }
    let text = JsonValue::Text("a \"b\"".to_string()).write();
    assert_eq!(text, r#""a \"b\"""#);
    assert!(matches!(json(&text), JsonValue::Text(s) if s == "a \"b\""));
}

#[test]
fn configuration_has_its_defaults() {
    assert_eq!(default_uuid(), "auto");
    assert_eq!(default_db_path(), "revolver.db");
    assert_eq!(default_bind_address(), "0.0.0.0");
    assert_eq!(default_quality_in_title_format(), "[{q}]");
    assert_eq!(
        default_quality_in_title_include(),
        vec!["hires", "lossy", "mixed"]
    );
}

// ── Scans ────────────────────────────────────────────────────────────────

#[test]
fn schedule_keeps_every_track_once_in_lots() {
    let n = 2 * TX_CHUNK + 3;
    let tasks = schedule(n, 2);
    let kept: Vec<usize> = tasks
        .iter()
        .filter_map(|t| match t {
            Task::Keep(i) => Some(*i),
            _ => None,
        })
        .collect();
    assert_eq!(kept, (0..n).collect::<Vec<usize>>());
    let commits: Vec<usize> = tasks
        .iter()
        .filter_map(|t| match t {
            Task::Commit(k) => Some(*k),
            _ => None,
        })
        .collect();
    assert_eq!(commits, vec![TX_CHUNK, TX_CHUNK, 3, 0]);
    assert_eq!(tasks[0], Task::CountAlbums);
    assert_eq!(tasks[1], Task::Enter(Phase::Upsert, n));
}

#[test]
fn schedule_without_tracks_only_tidies_up() {
    assert_eq!(
        schedule(0, 1),
        vec![
            Task::CountAlbums,
            Task::Enter(Phase::Upsert, 0),
            Task::Enter(Phase::Postprocess, 0),
            Task::Begin,
            Task::Tidy(0),
            Task::Commit(0),
            Task::CountAlbums,
        ]
    );
}

#[test]
fn scan_ids_are_random_uuids() {
    let a = ScanReport::new_id();
    let b = ScanReport::new_id();
    assert_ne!(a, b);
    assert_eq!(a.len(), 36);
    assert_eq!(&a[14..15], "4");
    assert_eq!(a.matches('-').count(), 4);
}

#[test]
fn years_are_the_first_four_digits() {
    assert_eq!(parse_year("1969"), Some(1969));
    assert_eq!(parse_year(" 1969-09-26 "), Some(1969));
    assert_eq!(parse_year("196"), None);
    assert_eq!(parse_year("c1969"), None);
    assert_eq!(parse_year(""), None);
}

#[test]
fn different_objects_have_different_ids() {
    let ids = [
        ObjectId::Root,
        ObjectId::CatAl,
        ObjectId::AlbumArtist("Miles".to_string()),
        ObjectId::Artist("Miles".to_string()),
        ObjectId::Artist("Mile".to_string()),
        ObjectId::Artist("Mi".to_string()),
        ObjectId::Artist("".to_string()),
        ObjectId::Genre("Jazz".to_string()),
        ObjectId::UnknownGenre,
        ObjectId::Year(1969),
        ObjectId::UnknownYear,
        ObjectId::Decade(1960),
        ObjectId::Album(12),
        ObjectId::Track(12),
        ObjectId::Disc { album_id: 12, disc: 3 },
        ObjectId::Disc { album_id: 1, disc: 23 },
    ];
    for (i, a) in ids.iter().enumerate() {
        for b in &ids[..i] {
            assert_ne!(encode(a), encode(b));
        }
    }
    assert_eq!(encode(&ObjectId::Artist("Miles".to_string())), "ar:TWlsZXM=");
    assert_eq!(encode(&ObjectId::Artist("Mile".to_string())), "ar:TWlsZQ==");
    assert_eq!(encode(&ObjectId::Disc { album_id: 12, disc: 3 }), "disc:12:3");
    // What has no genre or year goes by the id of the empty one.
    assert_eq!(encode(&ObjectId::Genre("".to_string())), encode(&ObjectId::UnknownGenre));
    assert_eq!(encode(&ObjectId::Year(0)), encode(&ObjectId::UnknownYear));
}

#[test]
fn levels_are_numerals_without_their_unit() {
    assert_eq!(parse_level("-7.30 dB").as_deref(), Some("-7.30"));
    assert_eq!(parse_level(" +1.5DB ").as_deref(), Some("+1.5"));
    assert_eq!(parse_level("0.988553").as_deref(), Some("0.988553"));
    assert_eq!(parse_level("dB"), None);
    assert_eq!(parse_level("1.2.3"), None);
    assert_eq!(parse_level("loud"), None);
    assert_eq!(parse_level("-"), None);
}

#[test]
fn accents_width_kana_and_case_do_not_count_in_searches() {
    assert_eq!(for_search("Björk"), for_search("BJORK"));
    assert_eq!(for_search("Ｂｅａｔｌｅｓ"), for_search("beatles"));
    assert_eq!(for_search("ミユキ"), for_search("ﾐﾕｷ"));
    assert_eq!(for_search("ガ"), for_search("か"));
    assert_eq!(for_search("Чайковский"), "чаиковскии");
    assert_eq!(for_search("Θεοδωράκης"), "θεοδωρακης");
    assert_eq!(for_search("BLÅBÆRØL ŁÓDŹ Œuvre"), "blabærøl łodz œuvre");
    for text in [
        "Sigur Rós",
        "ガンダム",
        "東京タワー",
        "Ｘ-ＭＥＮ 山",
        "Чайковский",
        "ΘΕΟΔΩΡΆΚΗΣ",
        "Mötley Crüe “Dr.” Ørsted",
        "방탄소년단",
    ] {
        let once = for_search(text);
        assert_eq!(for_search(&once), once);
    }
}
