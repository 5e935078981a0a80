//! Scanning the library: what is looked at anew, what is kept of it, and what is
//! reported.

use vstd::prelude::*;
use vstd::slice::slice_subrange;

use crate::db::albums::{self, AlbumKey};
use crate::db::query::{
    answers_view, check, plain, plain_stmt, ran, rows_of, scalar, scalar_of, step_as, Answer,
    AnswerView, Cell, Statement, StatementView, Step, StepView,
};
use crate::db::state_kv;
use crate::db::tracks::{self, mtimes_of, statements_view, Mtimes, TrackRow, UpsertOutcome};
use crate::error::Error;
use crate::path::{relative_text, relativize_path};
use crate::scan::matcher::{determine_added_at, effective_album_artist, filed_under, first_known};
use crate::scan::report::{
    issues_view, skipped_view, Issue, IssueView, ScanReport, ScanStats, SkippedEntry, SkippedView,
};
use crate::scan::tagger::TrackTags;
use crate::scan::walker::{SkippedFile, WalkResult};
use crate::text::{self, opt_text, parsed_number};

pub mod matcher;
pub mod progress;
pub mod report;
pub mod schedule;
pub mod tagger;
pub mod walker;

verus! {

// ── What is looked at anew ───────────────────────────────────────────────

/// A music file and its times, in seconds of Unix time.
#[derive(Debug)]
pub struct EnumeratedTrack {
    pub path: String,
    pub btime: Option<i64>,
    pub mtime: i64,
}

/// Whether a file is not known in the state in which it is now.
pub open spec fn is_stale(path: Seq<char>, mtime: i64, known: Map<Seq<char>, i64>) -> bool {
    !(known.contains_key(path) && known[path] == mtime)
}

/// The indices of the files that are not known in their present state.
pub open spec fn stale_indices(files: Seq<(Seq<char>, i64)>, known: Map<Seq<char>, i64>) -> Seq<int>
    decreases files.len(),
{
    if files.len() == 0 {
        Seq::empty()
    } else {
        let before = stale_indices(files.drop_last(), known);
        if is_stale(files.last().0, files.last().1, known) {
            before.push(files.len() - 1)
        } else {
            before
        }
    }
}

pub open spec fn pairs_view(v: Seq<(&str, i64)>) -> Seq<(Seq<char>, i64)> {
    v.map_values(|p: (&str, i64)| (p.0@, p.1))
}

pub open spec fn indices_view(v: Seq<usize>) -> Seq<int> {
    v.map_values(|i: usize| i as int)
}

/// Which files are to be read again because they are new or have changed, and how
/// many are as they were.
pub fn partition_by_mtime(enumerated: &[(&str, i64)], db_mtimes: &Mtimes) -> (r: (Vec<usize>, usize))
    ensures
        indices_view(r.0@) == stale_indices(pairs_view(enumerated@), db_mtimes@),
        r.0@.len() + r.1 == enumerated@.len(),
{
    let ghost files = pairs_view(enumerated@);
    let mut needs: Vec<usize> = Vec::new();
    let mut unchanged: usize = 0;
    let mut i: usize = 0;
    assert(indices_view(needs@) =~= stale_indices(files.take(0), db_mtimes@));
    while i < enumerated.len()
        invariant
            i <= enumerated@.len(),
            files == pairs_view(enumerated@),
            indices_view(needs@) == stale_indices(files.take(i as int), db_mtimes@),
            needs@.len() + unchanged == i,
        decreases enumerated@.len() - i,
    {
        let (path, mtime) = enumerated[i];
        let ghost before = needs@;
        assert(files[i as int] == (path@, mtime));
        assert(files.take(i + 1).drop_last() =~= files.take(i as int));
        let known = match db_mtimes.get(path) {
            Some(m) => m == mtime,
            None => false,
        };
        if known {
            unchanged = unchanged + 1;
        } else {
            needs.push(i);
            assert(indices_view(needs@) =~= indices_view(before).push(i as int));
        }
        i = i + 1;
    }
    assert(files.take(i as int) =~= files);
    (needs, unchanged)
}

/// A file is read again exactly when it is not known in its present state.
pub proof fn unchanged_files_are_not_read_again(
    files: Seq<(Seq<char>, i64)>,
    known: Map<Seq<char>, i64>,
    i: int,
)
    requires
        0 <= i < files.len(),
    ensures
        stale_indices(files, known).contains(i) <==> is_stale(files[i].0, files[i].1, known),
    decreases files.len(),
{
    let front = files.drop_last();
    let before = stale_indices(front, known);
    let all = stale_indices(files, known);
    if i < front.len() {
        unchanged_files_are_not_read_again(front, known, i);
        assert(front[i] == files[i]);
        if before.contains(i) {
            let k = before.lemma_contains_to_index(i);
            assert(all[k] == i);
        }
        if all.contains(i) {
            let k = all.lemma_contains_to_index(i);
            assert(before[k] == i);
        }
    } else {
        lemma_stale_indices_below(front, known);
        if is_stale(files[i].0, files[i].1, known) {
            assert(all[before.len() as int] == i);
        } else if all.contains(i) {
            let k = all.lemma_contains_to_index(i);
            assert(before[k] == i);
        }
    }
}

proof fn lemma_stale_indices_below(files: Seq<(Seq<char>, i64)>, known: Map<Seq<char>, i64>)
    ensures
        forall|k: int|
            0 <= k < stale_indices(files, known).len() ==> 0 <= #[trigger] stale_indices(
                files,
                known,
            )[k] < files.len(),
    decreases files.len(),
{
    if files.len() > 0 {
        let before = stale_indices(files.drop_last(), known);
        let all = stale_indices(files, known);
        lemma_stale_indices_below(files.drop_last(), known);
        assert forall|k: int| 0 <= k < all.len() implies 0 <= #[trigger] all[k] < files.len() by {
            if k < before.len() {
                assert(all[k] == before[k]);
            }
        }
    }
}

/// What a look into the database says before the tags are read.
#[derive(Debug)]
pub struct Survey {
    /// Whether the library was empty.
    pub is_initial: bool,
    /// The files to read.
    pub needs: Vec<usize>,
    /// How many files are as they were.
    pub unchanged: usize,
}

/// A survey with its indices as numbers.
pub struct SurveyView {
    pub is_initial: bool,
    pub needs: Seq<int>,
    pub unchanged: int,
}

impl View for Survey {
    type V = SurveyView;

    open spec fn view(&self) -> SurveyView {
        SurveyView {
            is_initial: self.is_initial,
            needs: indices_view(self.needs@),
            unchanged: self.unchanged as int,
        }
    }
}

pub const COUNT_TRACKS_SQL: &'static str = "SELECT COUNT(*) FROM tracks";

pub const COUNT_ALBUMS_SQL: &'static str = "SELECT COUNT(*) FROM albums";

pub open spec fn files_view(v: Seq<EnumeratedTrack>) -> Seq<(Seq<char>, i64)> {
    v.map_values(|t: EnumeratedTrack| (t.path@, t.mtime))
}

/// Count the known tracks, ask for their times, and compare.
pub open spec fn survey_step(files: Seq<(Seq<char>, i64)>, answers: Seq<AnswerView>) -> StepView<
    SurveyView,
> {
    if answers.len() == 0 {
        StepView::Query(plain_stmt(COUNT_TRACKS_SQL@))
    } else {
        match scalar_of(answers[0]) {
            Err(e) => StepView::Done(Err(e)),
            Ok(n) => if answers.len() == 1 {
                StepView::Query(plain_stmt(tracks::MTIMES_SQL@))
            } else {
                match rows_of(answers[1]) {
                    Err(e) => StepView::Done(Err(e)),
                    Ok(rows) => {
                        let needs = stale_indices(files, mtimes_of(rows));
                        StepView::Done(
                            Ok(
                                SurveyView {
                                    is_initial: n == 0,
                                    needs,
                                    unchanged: files.len() - needs.len(),
                                },
                            ),
                        )
                    },
                }
            },
        }
    }
}

fn path_times<'a>(files: &'a Vec<EnumeratedTrack>) -> (r: Vec<(&'a str, i64)>)
    ensures
        pairs_view(r@) == files_view(files@),
{
    let mut out: Vec<(&'a str, i64)> = Vec::new();
    let mut i: usize = 0;
    while i < files.len()
        invariant
            i <= files.len(),
            pairs_view(out@) =~= files_view(files@).take(i as int),
        decreases files.len() - i,
    {
        let ghost before = out@;
        let pair = (files[i].path.as_str(), files[i].mtime);
        out.push(pair);
        assert(pairs_view(out@) =~= pairs_view(before).push((pair.0@, pair.1)));
        i = i + 1;
    }
    assert(files_view(files@).take(i as int) =~= files_view(files@));
    out
}

/// Find out whether this is the first scan and which files have to be read.
pub fn survey(enumerated: &Vec<EnumeratedTrack>, answers: &[Answer]) -> (r: Step<Survey>)
    ensures
        r@ == survey_step(files_view(enumerated@), answers_view(answers@)),
{
    if answers.len() == 0 {
        return Step::Query(plain(COUNT_TRACKS_SQL));
    }
    let n: i64 = match scalar(&answers[0]) {
        Err(e) => return Step::Done(Err(e)),
        Ok(n) => n,
    };
    let rest = slice_subrange(answers, 1, answers.len());
    assert(answers_view(rest@) =~= answers_view(answers@).skip(1));
    match tracks::get_mtimes(rest) {
        Step::Query(s) => Step::Query(s),
        Step::Done(Err(e)) => Step::Done(Err(e)),
        Step::Done(Ok(known)) => {
            let pairs = path_times(enumerated);
            let (needs, unchanged) = partition_by_mtime(pairs.as_slice(), &known);
            assert(pairs_view(pairs@).len() == pairs@.len());
            assert(indices_view(needs@).len() == needs@.len());
            Step::Done(Ok(Survey { is_initial: n == 0, needs, unchanged }))
        },
        Step::Execute(s) => Step::Execute(s),
        Step::Batch(s) => Step::Batch(s),
    }
}

// ── What is kept of a track ──────────────────────────────────────────────

/// A file whose tags were read.
#[derive(Debug)]
pub struct TaggedTrack {
    pub path: String,
    pub btime: Option<i64>,
    pub mtime: i64,
    pub tags: TrackTags,
}

/// An absent tag and an empty one are the same.
pub open spec fn absent(tag: Option<Seq<char>>) -> bool {
    match tag {
        Some(s) => s.len() == 0,
        None => true,
    }
}

/// What wants mending in a track's tags.
pub open spec fn tag_issues(tags: TrackTags, path: Seq<char>) -> Seq<IssueView> {
    let no_album = if absent(opt_text(tags.album)) {
        seq![IssueView { path, issue: "missing_album"@ }]
    } else {
        Seq::empty()
    };
    let no_artist = if !tags.compilation && absent(opt_text(tags.album_artist)) {
        seq![IssueView { path, issue: "missing_album_artist"@ }]
    } else {
        Seq::empty()
    };
    let no_duration = if tags.duration_ms is None {
        seq![IssueView { path, issue: "no_duration"@ }]
    } else {
        Seq::empty()
    };
    no_album + no_artist + no_duration
}

fn is_absent(tag: &Option<String>) -> (r: bool)
    ensures
        r == absent(opt_text(*tag)),
{
    match tag {
        Some(s) => s.as_str().is_empty(),
        None => true,
    }
}

/// What wants mending in a track's tags, under its path as seen from the library's
/// root.
pub fn track_issues(track: &TaggedTrack, root: &str) -> (r: Vec<Issue>)
    ensures
        issues_view(r@) == tag_issues(track.tags, relative_text(track.path@, root@)),
{
    let rel = relativize_path(track.path.as_str(), root);
    let mut out: Vec<Issue> = Vec::new();
    if is_absent(&track.tags.album) {
        out.push(Issue { path: text::owned(rel.as_str()), issue: "missing_album" });
    }
    if !track.tags.compilation && is_absent(&track.tags.album_artist) {
        out.push(Issue { path: text::owned(rel.as_str()), issue: "missing_album_artist" });
    }
    if track.tags.duration_ms.is_none() {
        out.push(Issue { path: text::owned(rel.as_str()), issue: "no_duration" });
    }
    assert(issues_view(out@) =~= tag_issues(track.tags, rel@));
    out
}

/// The album's title; one without a name has a name of its own.
pub open spec fn album_title(tags: TrackTags) -> Seq<char> {
    if absent(opt_text(tags.album)) {
        "Unknown Album"@
    } else {
        tags.album->0@
    }
}

/// Since when the track is in the library.
pub open spec fn added_at(track: TaggedTrack, is_initial: bool, started: i64) -> i64 {
    if is_initial {
        first_known(track.btime, Some(track.mtime), started)
    } else {
        started
    }
}

/// Whether a row keeps what was read of a track, under the given album.
pub open spec fn row_keeps(row: TrackRow, track: TaggedTrack, album_id: i64, added: i64) -> bool {
    let tags = track.tags;
    &&& row.album_id == album_id
    &&& row.path@ == track.path@
    &&& text::opt_str(row.title) == opt_text(tags.title)
    &&& text::opt_str(row.artist) == opt_text(tags.artist)
    &&& text::opt_str(row.genre) == opt_text(tags.genre)
    &&& row.track_num == tags.track_num
    &&& row.disc_num == tags.disc_num
    &&& row.duration_ms == tags.duration_ms
    &&& row.sample_rate == tags.sample_rate
    &&& row.bit_depth == tags.bit_depth
    &&& row.channels == tags.channels
    &&& row.bitrate == tags.bitrate
    &&& row.codec@ == tags.codec@
    &&& row.mime_type@ == tags.mime_type@
    &&& row.file_size == tags.file_size
    &&& row.added_at == added
    &&& row.mtime == track.mtime
    &&& text::opt_str(row.composer) == opt_text(tags.composer)
    &&& text::opt_str(row.conductor) == opt_text(tags.conductor)
    &&& text::opt_str(row.performer) == opt_text(tags.performer)
    &&& row.year == tags.year
    &&& text::opt_str(row.rg_track_gain) == opt_text(tags.rg_track_gain)
    &&& text::opt_str(row.rg_track_peak) == opt_text(tags.rg_track_peak)
    &&& text::opt_str(row.rg_album_gain) == opt_text(tags.rg_album_gain)
    &&& text::opt_str(row.rg_album_peak) == opt_text(tags.rg_album_peak)
    &&& text::opt_str(row.artist_sort) == opt_text(tags.artist_sort)
    &&& text::opt_str(row.album_artist_sort) == opt_text(tags.album_artist_sort)
    &&& text::opt_str(row.album_sort) == opt_text(tags.album_sort)
    &&& text::opt_str(row.title_sort) == opt_text(tags.title_sort)
    &&& text::opt_str(row.composer_sort) == opt_text(tags.composer_sort)
    &&& row.original_year == tags.original_year
    &&& text::opt_str(row.mb_recording_id) == opt_text(tags.mb_recording_id)
    &&& text::opt_str(row.mb_release_id) == opt_text(tags.mb_release_id)
    &&& text::opt_str(row.mb_release_group_id) == opt_text(tags.mb_release_group_id)
    &&& text::opt_str(row.mb_artist_id) == opt_text(tags.mb_artist_id)
    &&& text::opt_str(row.mb_release_artist_id) == opt_text(tags.mb_release_artist_id)
}

fn borrowed<'a>(s: &'a Option<String>) -> (r: Option<&'a str>)
    ensures
        text::opt_str(r) == opt_text(*s),
{
    match s {
        Some(t) => Some(t.as_str()),
        None => None,
    }
}

/// What is kept of a track, under the given album.
pub fn track_row<'a>(track: &'a TaggedTrack, album_id: i64, added: i64) -> (r: TrackRow<'a>)
    ensures
        row_keeps(r, *track, album_id, added),
{
    let tags = &track.tags;
    TrackRow {
        album_id,
        path: track.path.as_str(),
        title: borrowed(&tags.title),
        artist: borrowed(&tags.artist),
        genre: borrowed(&tags.genre),
        track_num: tags.track_num,
        disc_num: tags.disc_num,
        duration_ms: tags.duration_ms,
        sample_rate: tags.sample_rate,
        bit_depth: tags.bit_depth,
        channels: tags.channels,
        bitrate: tags.bitrate,
        codec: tags.codec.as_str(),
        mime_type: tags.mime_type.as_str(),
        file_size: tags.file_size,
        added_at: added,
        mtime: track.mtime,
        composer: borrowed(&tags.composer),
        conductor: borrowed(&tags.conductor),
        performer: borrowed(&tags.performer),
        year: tags.year,
        rg_track_gain: borrowed(&tags.rg_track_gain),
        rg_track_peak: borrowed(&tags.rg_track_peak),
        rg_album_gain: borrowed(&tags.rg_album_gain),
        rg_album_peak: borrowed(&tags.rg_album_peak),
        artist_sort: borrowed(&tags.artist_sort),
        album_artist_sort: borrowed(&tags.album_artist_sort),
        album_sort: borrowed(&tags.album_sort),
        title_sort: borrowed(&tags.title_sort),
        composer_sort: borrowed(&tags.composer_sort),
        original_year: tags.original_year,
        mb_recording_id: borrowed(&tags.mb_recording_id),
        mb_release_id: borrowed(&tags.mb_release_id),
        mb_release_group_id: borrowed(&tags.mb_release_group_id),
        mb_artist_id: borrowed(&tags.mb_artist_id),
        mb_release_artist_id: borrowed(&tags.mb_release_artist_id),
    }
}

/// Whether a step finds or makes the track's album and then keeps the track under it.
pub open spec fn ingests(
    step: Step<UpsertOutcome>,
    track: TaggedTrack,
    is_initial: bool,
    started: i64,
    answers: Seq<AnswerView>,
) -> bool {
    let taken = step_as(step, |o: UpsertOutcome| o);
    if answers.len() == 0 {
        taken == StepView::<UpsertOutcome>::Query(album_stmt(track, started))
    } else {
        match scalar_of(answers[0]) {
            Err(e) => taken == StepView::<UpsertOutcome>::Done(Err(e)),
            Ok(album_id) => exists|row: TrackRow|
                {
                    &&& row_keeps(row, track, album_id, added_at(track, is_initial, started))
                    &&& taken == #[trigger] tracks::upsert_step(row, answers.skip(1))
                },
        }
    }
}

/// The statement that finds or makes the track's album.
pub open spec fn album_stmt(track: TaggedTrack, started: i64) -> StatementView {
    albums::upsert_stmt(
        filed_under(
            track.tags.compilation,
            opt_text(track.tags.album_artist),
            opt_text(track.tags.artist),
        ),
        album_title(track.tags),
        track.tags.compilation,
        opt_text(track.tags.album_artist),
        started,
    )
}

/// Keep a track whose tags were read.
pub fn ingest(track: &TaggedTrack, is_initial: bool, started: i64, answers: &[Answer]) -> (r: Step<
    UpsertOutcome,
>)
    ensures
        ingests(r, *track, is_initial, started, answers_view(answers@)),
{
    let tags = &track.tags;
    if answers.len() == 0 {
        let artist = effective_album_artist(
            tags.compilation,
            borrowed(&tags.album_artist),
            borrowed(&tags.artist),
        );
        let unnamed = text::owned("Unknown Album");
        let title: &str = match &tags.album {
            Some(s) => if s.as_str().is_empty() { unnamed.as_str() } else { s.as_str() },
            None => unnamed.as_str(),
        };
        let key = AlbumKey {
            effective_album_artist: artist.as_str(),
            album: title,
            compilation: tags.compilation,
        };
        return Step::Query(
            albums::upsert_statement(&key, borrowed(&tags.album_artist), started),
        );
    }
    let album_id: i64 = match scalar(&answers[0]) {
        Err(e) => return Step::Done(Err(e)),
        Ok(id) => id,
    };
    let added: i64 = determine_added_at(track.btime, Some(track.mtime), is_initial, started);
    let row = track_row(track, album_id, added);
    let rest = slice_subrange(answers, 1, answers.len());
    assert(answers_view(rest@) =~= answers_view(answers@).skip(1));
    tracks::upsert(&row, rest)
}

/// How many tracks were new and how many were known.
pub open spec fn count_outcomes(v: Seq<UpsertOutcome>, which: UpsertOutcome) -> nat
    decreases v.len(),
{
    if v.len() == 0 {
        0
    } else if v.last() == which {
        count_outcomes(v.drop_last(), which) + 1
    } else {
        count_outcomes(v.drop_last(), which)
    }
}

fn tally(outcomes: &Vec<UpsertOutcome>) -> (r: (usize, usize))
    ensures
        r.0 == count_outcomes(outcomes@, UpsertOutcome::Inserted),
        r.1 == count_outcomes(outcomes@, UpsertOutcome::Updated),
        r.0 + r.1 == outcomes@.len(),
{
    let mut inserted: usize = 0;
    let mut updated: usize = 0;
    let mut i: usize = 0;
    while i < outcomes.len()
        invariant
            i <= outcomes.len(),
            inserted == count_outcomes(outcomes@.take(i as int), UpsertOutcome::Inserted),
            updated == count_outcomes(outcomes@.take(i as int), UpsertOutcome::Updated),
            inserted + updated == i,
        decreases outcomes.len() - i,
    {
        assert(outcomes@.take(i + 1).drop_last() =~= outcomes@.take(i as int));
        match outcomes[i] {
            UpsertOutcome::Inserted => {
                inserted = inserted + 1;
            },
            UpsertOutcome::Updated => {
                updated = updated + 1;
            },
        }
        i = i + 1;
    }
    assert(outcomes@.take(i as int) =~= outcomes@);
    (inserted, updated)
}

// ── Afterwards ───────────────────────────────────────────────────────────

/// What is done when every track is kept: drop tracks whose file is gone and albums
/// without tracks, and work out what albums say of their tracks.
pub open spec fn postprocess_script(paths: Seq<Seq<char>>) -> Seq<StatementView> {
    tracks::detect_deleted_script(paths) + seq![
        plain_stmt(albums::DELETE_ORPHANS_SQL@),
        plain_stmt(albums::RECALC_COUNTS_SQL@),
        plain_stmt(albums::RECALC_QUALITY_SQL@),
        plain_stmt(albums::RECALC_LAST_ADDED_SQL@),
        plain_stmt(albums::RECALC_LAST_PLAYED_SQL@),
    ]
}

/// The statements that end a scan, to be run in one transaction.
pub fn postprocess(paths: &Vec<String>) -> (r: Vec<Statement>)
    ensures
        statements_view(r@) == postprocess_script(text::texts(paths@)),
{
    let mut out = tracks::detect_deleted(paths);
    let ghost before = out@;
    out.push(plain(albums::DELETE_ORPHANS_SQL));
    out.push(plain(albums::RECALC_COUNTS_SQL));
    out.push(plain(albums::RECALC_QUALITY_SQL));
    out.push(plain(albums::RECALC_LAST_ADDED_SQL));
    out.push(plain(albums::RECALC_LAST_PLAYED_SQL));
    assert(statements_view(out@) =~= statements_view(before)
        + postprocess_script(text::texts(paths@)).skip(statements_view(before).len() as int));
    assert(statements_view(out@) =~= postprocess_script(text::texts(paths@)));
    out
}

/// How many tracks and how many albums were dropped, from the number of rows that
/// each statement of [`postprocess`] changed.
pub fn dropped(paths: &Vec<String>, changed: &Vec<usize>) -> (r: (usize, usize))
    requires
        changed@.len() == postprocess_script(text::texts(paths@)).len(),
    ensures
        postprocess_script(text::texts(paths@))[paths@.len() as int + 2] == plain_stmt(
            tracks::DELETE_MISSING_SQL@,
        ),
        r.0 == changed@[paths@.len() as int + 2],
        postprocess_script(text::texts(paths@))[paths@.len() as int + 3] == plain_stmt(
            albums::DELETE_ORPHANS_SQL@,
        ),
        r.1 == changed@[paths@.len() as int + 3],
{
    let n: usize = changed.len();
    assert(n == paths@.len() + 8);
    (changed[n - 6], changed[n - 5])
}

/// How many albums are new: as many as there are more, and as many again as were
/// dropped.
pub open spec fn new_albums(before: i64, after: i64, deleted: usize) -> int {
    if after - before + deleted > 0 {
        after - before + deleted
    } else {
        0
    }
}

// ── The report ───────────────────────────────────────────────────────────

/// The files left out, with their paths as seen from the library's root.
pub open spec fn reported_skips(skipped: Seq<SkippedFile>, root: Seq<char>) -> Seq<SkippedView> {
    skipped.map_values(
        |s: SkippedFile|
            SkippedView { path: relative_text(s.path@, root), reason: s.reason.name() },
    )
}

pub fn report_skips(skipped: &Vec<SkippedFile>, root: &str) -> (r: Vec<SkippedEntry>)
    ensures
        skipped_view(r@) == reported_skips(skipped@, root@),
{
    let mut out: Vec<SkippedEntry> = Vec::new();
    let mut i: usize = 0;
    while i < skipped.len()
        invariant
            i <= skipped.len(),
            skipped_view(out@) =~= reported_skips(skipped@, root@).take(i as int),
        decreases skipped.len() - i,
    {
        let ghost before = out@;
        let entry = SkippedEntry {
            path: relativize_path(skipped[i].path.as_str(), root),
            reason: skipped[i].reason.as_str(),
        };
        out.push(entry);
        assert(skipped_view(out@) =~= skipped_view(before).push(entry@));
        assert(reported_skips(skipped@, root@)[i as int] == entry@);
        i = i + 1;
    }
    assert(reported_skips(skipped@, root@).take(i as int) =~= reported_skips(skipped@, root@));
    out
}

/// What a scan did.
pub struct ScanFindings {
    pub walk: WalkResult,
    pub survey: Survey,
    /// What became of each track whose tags were read.
    pub outcomes: Vec<UpsertOutcome>,
    pub issues: Vec<Issue>,
    pub tracks_deleted: usize,
    pub albums_deleted: usize,
    pub albums_before: i64,
    pub albums_after: i64,
}

impl ScanFindings {
    /// How many files the walk came by.
    pub open spec fn files(self) -> int {
        self.walk.audio_files@.len() + self.walk.skipped@.len() + self.walk.companion_files_seen
    }

    /// Whether the parts belong together: every music file was either to be read or
    /// as it was, and no more tracks were kept than were read.
    pub open spec fn wf(self) -> bool {
        &&& self.survey.needs@.len() + self.survey.unchanged == self.walk.audio_files@.len()
        &&& self.outcomes@.len() <= self.survey.needs@.len()
        &&& self.files() <= usize::MAX
        &&& new_albums(self.albums_before, self.albums_after, self.albums_deleted) <= usize::MAX
    }

    /// The numbers of the report.
    pub open spec fn stats(self) -> ScanStats {
        ScanStats {
            files_enumerated: self.files() as usize,
            tracks_inserted: count_outcomes(self.outcomes@, UpsertOutcome::Inserted) as usize,
            tracks_updated: count_outcomes(self.outcomes@, UpsertOutcome::Updated) as usize,
            tracks_unchanged: self.survey.unchanged,
            tracks_deleted: self.tracks_deleted,
            albums_inserted: new_albums(
                self.albums_before,
                self.albums_after,
                self.albums_deleted,
            ) as usize,
            albums_deleted: self.albums_deleted,
            tag_read_failed: (self.survey.needs@.len() - self.outcomes@.len()) as usize,
            companion_files_seen: self.walk.companion_files_seen,
        }
    }

    /// What is known when the tags are about to be read.
    pub fn new(walk: WalkResult, survey: Survey) -> (r: Self)
        ensures
            r.walk == walk,
            r.survey == survey,
            r.outcomes@.len() == 0,
            r.issues@.len() == 0,
            r.tracks_deleted == 0,
            r.albums_deleted == 0,
            r.albums_before == 0,
            r.albums_after == 0,
    {
        ScanFindings {
            walk,
            survey,
            outcomes: Vec::new(),
            issues: Vec::new(),
            tracks_deleted: 0,
            albums_deleted: 0,
            albums_before: 0,
            albums_after: 0,
        }
    }

    /// Note that a track was kept, and what wants mending in its tags.
    pub fn note_kept(&mut self, track: &TaggedTrack, root: &str, outcome: UpsertOutcome)
        ensures
            final(self).outcomes@ == old(self).outcomes@.push(outcome),
            issues_view(final(self).issues@) == issues_view(old(self).issues@) + tag_issues(
                track.tags,
                relative_text(track.path@, root@),
            ),
            final(self).walk == old(self).walk,
            final(self).survey == old(self).survey,
            final(self).tracks_deleted == old(self).tracks_deleted,
            final(self).albums_deleted == old(self).albums_deleted,
            final(self).albums_before == old(self).albums_before,
            final(self).albums_after == old(self).albums_after,
    {
        let mut found = track_issues(track, root);
        let ghost known = self.issues@;
        let ghost more = found@;
        self.issues.append(&mut found);
        self.outcomes.push(outcome);
        assert(issues_view(self.issues@) =~= issues_view(known) + issues_view(more));
    }

    /// Whether the parts belong together.
    pub fn is_whole(&self) -> (r: bool)
        ensures
            r == self.wf(),
    {
        let music: u128 = self.walk.audio_files.len() as u128;
        let files: u128 = music + self.walk.skipped.len() as u128
            + self.walk.companion_files_seen as u128;
        let grown: i128 = self.albums_after as i128 - self.albums_before as i128
            + self.albums_deleted as i128;
        self.survey.needs.len() as u128 + self.survey.unchanged as u128 == music
            && self.outcomes.len() <= self.survey.needs.len() && files <= usize::MAX as u128
            && grown <= usize::MAX as i128
    }
}

/// The report of a scan that came to its end. Every file that the walk came by is
/// accounted for: kept, as it was, unreadable, left out or a companion.
pub fn complete(
    f: ScanFindings,
    root: &str,
    scan_id: &str,
    started_at: i64,
    completed_at: i64,
    duration_ms: u64,
) -> (r: ScanReport)
    requires
        f.wf(),
    ensures
        r.scan_id@ == scan_id@,
        r.started_at == started_at,
        r.completed_at == completed_at,
        r.duration_ms == duration_ms,
        r.is_initial == f.survey.is_initial,
        r.stats == f.stats(),
        r.issues == f.issues,
        skipped_view(r.skipped@) == reported_skips(f.walk.skipped@, root@),
        r.error is None,
        r.stats.files_enumerated == r.stats.tracks_inserted + r.stats.tracks_updated
            + r.stats.tracks_unchanged + r.stats.tag_read_failed + r.skipped@.len()
            + r.stats.companion_files_seen,
{
    let (tracks_inserted, tracks_updated) = tally(&f.outcomes);
    let files_enumerated: usize = f.walk.audio_files.len() + f.walk.skipped.len()
        + f.walk.companion_files_seen;
    let grown: i128 = f.albums_after as i128 - f.albums_before as i128 + f.albums_deleted as i128;
    let albums_inserted: usize = if grown > 0 { grown as usize } else { 0 };
    let stats = ScanStats {
        files_enumerated,
        tracks_inserted,
        tracks_updated,
        tracks_unchanged: f.survey.unchanged,
        tracks_deleted: f.tracks_deleted,
        albums_inserted,
        albums_deleted: f.albums_deleted,
        tag_read_failed: f.survey.needs.len() - f.outcomes.len(),
        companion_files_seen: f.walk.companion_files_seen,
    };
    let skipped = report_skips(&f.walk.skipped, root);
    assert(skipped_view(skipped@).len() == skipped@.len());
    ScanReport {
        scan_id: text::owned(scan_id),
        started_at,
        completed_at,
        duration_ms,
        is_initial: f.survey.is_initial,
        stats,
        issues: f.issues,
        skipped,
        error: None,
    }
}

// ── The update id ────────────────────────────────────────────────────────

/// Whether a scan changed what can be browsed.
pub open spec fn changed_library(stats: ScanStats) -> bool {
    stats.tracks_inserted > 0 || stats.tracks_deleted > 0 || stats.tracks_updated > 0
        || stats.albums_inserted > 0
}

pub fn should_bump_system_update_id(stats: &ScanStats) -> (r: bool)
    ensures
        r == changed_library(*stats),
{
    stats.tracks_inserted > 0 || stats.tracks_deleted > 0 || stats.tracks_updated > 0
        || stats.albums_inserted > 0
}

/// The update id in a stored text; none where it cannot be read.
pub open spec fn stored_update_id(stored: Option<Seq<char>>) -> Option<nat> {
    match stored {
        Some(s) => parsed_number(s, u32::MAX as nat),
        None => None,
    }
}

pub fn read_update_id(stored: &Option<String>) -> (r: Option<u32>)
    ensures
        r is Some == stored_update_id(opt_text(*stored)) is Some,
        r matches Some(n) ==> stored_update_id(opt_text(*stored)) == Some(n as nat),
{
    match stored {
        Some(s) => match text::parse_number(s.as_str(), u32::MAX as u64) {
            Some(n) => Some(n as u32),
            None => None,
        },
        None => None,
    }
}

/// The update id after the stored one: one more, and no more than there can be. An
/// id that cannot be read counts as none.
pub open spec fn next_update_id(stored: Option<Seq<char>>) -> u32 {
    match stored_update_id(stored) {
        Some(n) => if n < u32::MAX {
            (n + 1) as u32
        } else {
            u32::MAX
        },
        None => 1,
    }
}

pub open spec fn bump_step(answers: Seq<AnswerView>) -> StepView<u32> {
    if answers.len() == 0 {
        StepView::Query(state_kv::get_stmt("system_update_id"@))
    } else {
        match crate::db::query::found_text(answers[0]) {
            Err(e) => StepView::Done(Err(e)),
            Ok(stored) => if answers.len() == 1 {
                StepView::Execute(
                    state_kv::set_stmt(
                        "system_update_id"@,
                        text::decimal(next_update_id(stored) as nat),
                    ),
                )
            } else {
                match ran(answers[1]) {
                    Err(e) => StepView::Done(Err(e)),
                    Ok(_) => StepView::Done(Ok(next_update_id(stored))),
                }
            },
        }
    }
}

/// Raise the update id by one. The result is the new id.
pub fn bump_system_update_id(answers: &[Answer]) -> (r: Step<u32>)
    ensures
        r@ == bump_step(answers_view(answers@)),
{
    if answers.len() == 0 {
        return Step::Query(state_kv::get_statement("system_update_id"));
    }
    let stored = match crate::db::query::optional_text(&answers[0]) {
        Err(e) => return Step::Done(Err(e)),
        Ok(stored) => stored,
    };
    let next: u32 = match read_update_id(&stored) {
        Some(n) => if n < u32::MAX { n + 1 } else { u32::MAX },
        None => 1,
    };
    if answers.len() == 1 {
        return Step::Execute(
            state_kv::set_statement("system_update_id", text::number_text(next as u64).as_str()),
        );
    }
    match check(&answers[1]) {
        Err(e) => Step::Done(Err(e)),
        Ok(_) => Step::Done(Ok(next)),
    }
}

/// The update id after a scan: raised where the scan changed what can be browsed, and
/// left alone where it did not.
pub open spec fn settle_step(stats: ScanStats, answers: Seq<AnswerView>) -> StepView<Option<u32>> {
    if changed_library(stats) {
        match bump_step(answers) {
            StepView::Query(q) => StepView::Query(q),
            StepView::Execute(q) => StepView::Execute(q),
            StepView::Batch(b) => StepView::Batch(b),
            StepView::Done(Ok(id)) => StepView::Done(Ok(Some(id))),
            StepView::Done(Err(e)) => StepView::Done(Err(e)),
        }
    } else {
        StepView::Done(Ok(None))
    }
}

/// Raise the update id where a scan changed what can be browsed. The result is the new
/// id; none where there was nothing to raise it for.
pub fn settle_update_id(stats: &ScanStats, answers: &[Answer]) -> (r: Step<Option<u32>>)
    ensures
        step_as(r, |id: Option<u32>| id) == settle_step(*stats, answers_view(answers@)),
{
    if !should_bump_system_update_id(stats) {
        return Step::Done(Ok(None));
    }
    match bump_system_update_id(answers) {
        Step::Query(q) => Step::Query(q),
        Step::Execute(q) => Step::Execute(q),
        Step::Batch(b) => Step::Batch(b),
        Step::Done(Ok(id)) => Step::Done(Ok(Some(id))),
        Step::Done(Err(e)) => Step::Done(Err(e)),
    }
}

/// A scan raises the update id exactly where it changed what can be browsed: else it
/// asks and writes nothing, and where it did, it writes the id after the stored one.
pub proof fn update_id_follows_changes(
    stats: ScanStats,
    answers: Seq<AnswerView>,
    stored: Option<Seq<char>>,
)
    ensures
        !changed_library(stats) ==> settle_step(stats, answers) == StepView::<Option<u32>>::Done(
            Ok(None),
        ),
        changed_library(stats) && answers.len() == 1 && crate::db::query::found_text(answers[0])
            == Ok::<Option<Seq<char>>, crate::error::ErrorView>(stored) ==> settle_step(
            stats,
            answers,
        ) == StepView::<Option<u32>>::Execute(
            state_kv::set_stmt(
                "system_update_id"@,
                text::decimal(next_update_id(stored) as nat),
            ),
        ),
{
}

/// The update id never goes back, and what is stored of it is read back as the same
/// id.
pub proof fn update_id_grows(stored: Option<Seq<char>>)
    ensures
        stored_update_id(stored) matches Some(n) ==> next_update_id(stored) >= n,
        stored_update_id(stored) matches Some(n) ==> (n < u32::MAX ==> next_update_id(stored) == n
            + 1),
        stored_update_id(Some(text::decimal(next_update_id(stored) as nat))) == Some(
            next_update_id(stored) as nat,
        ),
{
    text::decimal_reads_back(next_update_id(stored) as nat, u32::MAX as nat);
}

// ── What a scan keeps ────────────────────────────────────────────────────

/// A tag as a value: nothing where it is absent.
pub open spec fn said(tag: Option<String>) -> Cell {
    match tag {
        Some(s) => Cell::Text(s@),
        None => Cell::Null,
    }
}

/// A tag in its search form.
pub open spec fn sought(tag: Option<String>) -> Cell {
    match tag {
        Some(s) => Cell::Text(crate::normalize::search_form(s@)),
        None => Cell::Null,
    }
}

/// Whether the first values of a row are those of the track, in the order of the columns
/// `album_id`, `path`, `title`, `artist`, `genre`, `track_num`, `disc_num`, `duration_ms`,
/// `sample_rate`, `bit_depth`, `channels`, `bitrate`, `codec`, `mime_type`, `file_size`,
/// `mtime`, `composer`, `conductor`, `performer`, `year`, the six search forms, the four
/// levels, the five sort names, `original_year` and the five MusicBrainz ids.
pub open spec fn holds_tags(c: Seq<Cell>, track: TaggedTrack, album_id: i64) -> bool {
    let tags = track.tags;
    &&& c[0] == Cell::Integer(album_id)
    &&& c[1] == Cell::Text(track.path@)
    &&& c[2] == said(tags.title)
    &&& c[3] == said(tags.artist)
    &&& c[4] == said(tags.genre)
    &&& c[16] == said(tags.composer)
    &&& c[17] == said(tags.conductor)
    &&& c[18] == said(tags.performer)
    &&& c[26] == said(tags.rg_track_gain)
    &&& c[27] == said(tags.rg_track_peak)
    &&& c[28] == said(tags.rg_album_gain)
    &&& c[29] == said(tags.rg_album_peak)
    &&& c[30] == said(tags.artist_sort)
    &&& c[31] == said(tags.album_artist_sort)
    &&& c[32] == said(tags.album_sort)
    &&& c[33] == said(tags.title_sort)
    &&& c[34] == said(tags.composer_sort)
    &&& c[36] == said(tags.mb_recording_id)
    &&& c[37] == said(tags.mb_release_id)
    &&& c[38] == said(tags.mb_release_group_id)
    &&& c[39] == said(tags.mb_artist_id)
    &&& c[40] == said(tags.mb_release_artist_id)
    &&& c[20] == sought(tags.title)
    &&& c[21] == sought(tags.artist)
    &&& c[22] == sought(tags.genre)
    &&& c[23] == sought(tags.composer)
    &&& c[24] == sought(tags.conductor)
    &&& c[25] == sought(tags.performer)
    &&& tags.track_num matches Some(n) ==> c[5] == Cell::Integer(n as i64)
    &&& tags.track_num is None ==> c[5] == Cell::Null
    &&& tags.disc_num matches Some(n) ==> c[6] == Cell::Integer(n as i64)
    &&& tags.disc_num is None ==> c[6] == Cell::Null
    &&& tags.duration_ms matches Some(n) ==> n <= i64::MAX ==> c[7] == Cell::Integer(n as i64)
    &&& tags.duration_ms is None ==> c[7] == Cell::Null
    &&& tags.sample_rate matches Some(n) ==> c[8] == Cell::Integer(n as i64)
    &&& tags.sample_rate is None ==> c[8] == Cell::Null
    &&& tags.bit_depth matches Some(n) ==> c[9] == Cell::Integer(n as i64)
    &&& tags.bit_depth is None ==> c[9] == Cell::Null
    &&& tags.channels matches Some(n) ==> c[10] == Cell::Integer(n as i64)
    &&& tags.channels is None ==> c[10] == Cell::Null
    &&& tags.bitrate matches Some(n) ==> c[11] == Cell::Integer(n as i64)
    &&& tags.bitrate is None ==> c[11] == Cell::Null
    &&& tags.year matches Some(n) ==> c[19] == Cell::Integer(n as i64)
    &&& tags.year is None ==> c[19] == Cell::Null
    &&& tags.original_year matches Some(n) ==> c[35] == Cell::Integer(n as i64)
    &&& tags.original_year is None ==> c[35] == Cell::Null
    &&& c[12] == Cell::Text(tags.codec@)
    &&& c[13] == Cell::Text(tags.mime_type@)
    &&& tags.file_size <= i64::MAX ==> c[14] == Cell::Integer(tags.file_size as i64)
    &&& c[15] == Cell::Integer(track.mtime)
}

/// A new track is written with its album, its path, its tags and its times: added when
/// the scan began, or, on the first scan, when its file came to be.
pub proof fn new_tracks_are_kept_as_tagged(
    track: &TaggedTrack,
    is_initial: bool,
    started: i64,
    answers: &[Answer],
    album_id: i64,
    r: Step<UpsertOutcome>,
)
    requires
        call_ensures(ingest, (track, is_initial, started, answers), r),
        answers@.len() == 1,
        scalar_of(answers@[0]@) == Ok::<i64, crate::error::ErrorView>(album_id),
    ensures
        r matches Step::Execute(s) && {
            &&& s.sql@ == "INSERT OR IGNORE INTO tracks (\
    album_id, path, title, artist, genre, track_num, disc_num, duration_ms, \
    sample_rate, bit_depth, channels, bitrate, codec, mime_type, file_size, \
    mtime, composer, conductor, performer, year, \
    title_norm, artist_norm, genre_norm, composer_norm, conductor_norm, performer_norm, \
    rg_track_gain, rg_track_peak, rg_album_gain, rg_album_peak, artist_sort, \
    album_artist_sort, album_sort, title_sort, composer_sort, original_year, \
    mb_recording_id, mb_release_id, mb_release_group_id, mb_artist_id, \
    mb_release_artist_id, \
    added_at) \
    VALUES (?1,?2,?3,?4,?5,?6,?7,?8,?9,?10,?11,?12,?13,?14,?15,?16,?17,?18,?19,?20,\
    ?21,?22,?23,?24,?25,?26,?27,?28,?29,?30,?31,?32,?33,?34,?35,?36,?37,?38,?39,?40,?41,?42)"@
            &&& s@.params.len() == 42
            &&& holds_tags(s@.params, *track, album_id)
            &&& s@.params[41] matches Cell::Integer(added) && {
                &&& added <= started
                &&& !is_initial ==> added == started
                &&& is_initial ==> (track.btime matches Some(b) ==> added <= b)
                &&& is_initial ==> added <= track.mtime
                &&& is_initial ==> added == started || added == track.mtime || track.btime == Some(
                    added,
                )
            }
        },
{
    let a = answers_view(answers@);
    assert(a.len() == 1 && a[0] == answers@[0]@);
    assert(a.skip(1) =~= Seq::empty());
}

/// A known track gets its new album, tags and times, and nothing else of it is touched:
/// neither when it was added nor how often it was played.
pub proof fn known_tracks_are_kept_as_tagged(
    track: &TaggedTrack,
    is_initial: bool,
    started: i64,
    answers: &[Answer],
    album_id: i64,
    r: Step<UpsertOutcome>,
)
    requires
        call_ensures(ingest, (track, is_initial, started, answers), r),
        answers@.len() == 2,
        scalar_of(answers@[0]@) == Ok::<i64, crate::error::ErrorView>(album_id),
        scalar_of(answers@[1]@) == Ok::<i64, crate::error::ErrorView>(0),
    ensures
        r matches Step::Execute(s) && {
            &&& s.sql@ == "UPDATE tracks SET \
    album_id = ?1, title = ?3, artist = ?4, genre = ?5, track_num = ?6, disc_num = ?7, \
    duration_ms = ?8, sample_rate = ?9, bit_depth = ?10, channels = ?11, bitrate = ?12, \
    codec = ?13, mime_type = ?14, file_size = ?15, mtime = ?16, \
    composer = ?17, conductor = ?18, performer = ?19, year = ?20, \
    title_norm = ?21, artist_norm = ?22, genre_norm = ?23, \
    composer_norm = ?24, conductor_norm = ?25, performer_norm = ?26, \
    rg_track_gain = ?27, rg_track_peak = ?28, rg_album_gain = ?29, rg_album_peak = ?30, \
    artist_sort = ?31, album_artist_sort = ?32, album_sort = ?33, title_sort = ?34, \
    composer_sort = ?35, original_year = ?36, mb_recording_id = ?37, mb_release_id = ?38, \
    mb_release_group_id = ?39, mb_artist_id = ?40, mb_release_artist_id = ?41 \
    WHERE path = ?2"@
            &&& s@.params.len() == 41
            &&& holds_tags(s@.params, *track, album_id)
        },
{
    let a = answers_view(answers@);
    assert(a.len() == 2 && a[0] == answers@[0]@ && a[1] == answers@[1]@);
    assert(a.skip(1).len() == 1 && a.skip(1)[0] == a[1]);
}

/// A track that was not known counts as new, and one that was known as changed, each
/// once its statements have run.
pub proof fn outcomes_tell_new_from_known(
    track: &TaggedTrack,
    is_initial: bool,
    started: i64,
    answers: &[Answer],
    album_id: i64,
    r: Step<UpsertOutcome>,
)
    requires
        call_ensures(ingest, (track, is_initial, started, answers), r),
        answers@.len() > 1,
        scalar_of(answers@[0]@) == Ok::<i64, crate::error::ErrorView>(album_id),
    ensures
        scalar_of(answers@[1]@) == Ok::<i64, crate::error::ErrorView>(1) ==> r == Step::Done(
            Ok::<UpsertOutcome, Error>(UpsertOutcome::Inserted),
        ),
        scalar_of(answers@[1]@) == Ok::<i64, crate::error::ErrorView>(0) && answers@.len() > 2
            && answers@[2] is Rows ==> r == Step::Done(
            Ok::<UpsertOutcome, Error>(UpsertOutcome::Updated),
        ),
{
    let a = answers_view(answers@);
    assert(a[0] == answers@[0]@ && a[1] == answers@[1]@);
    assert(a.skip(1)[0] == a[1]);
    if a.len() > 2 {
        assert(a.skip(1)[1] == a[2] && a[2] == answers@[2]@);
    }
}

/// A track's album is looked for, and made where it is not there, by the name under which
/// it is filed, its title and whether it is a compilation. That name is that of all
/// compilations, the album artist, the artist of the track, or that of nobody known: the
/// first that there is. An album without a title is filed under a title of its own.
pub proof fn tracks_are_filed_under_their_album(
    track: &TaggedTrack,
    is_initial: bool,
    started: i64,
    answers: &[Answer],
    r: Step<UpsertOutcome>,
)
    requires
        call_ensures(ingest, (track, is_initial, started, answers), r),
        answers@.len() == 0,
    ensures
        r matches Step::Query(s) && {
            let tags = track.tags;
            let none = Seq::<char>::empty();
            let by = match tags.album_artist {
                Some(a) => a@,
                None => none,
            };
            let of = match tags.artist {
                Some(a) => a@,
                None => none,
            };
            let name = if tags.compilation {
                "Various Artists"@
            } else if by.len() > 0 {
                by
            } else if of.len() > 0 {
                of
            } else {
                "Unknown Artist"@
            };
            let title = match tags.album {
                Some(a) if a@.len() > 0 => a@,
                _ => "Unknown Album"@,
            };
            &&& s.sql@ == "INSERT INTO albums (\
    effective_album_artist, album, compilation, album_artist_raw, first_seen_at, \
    album_norm, effective_album_artist_norm) \
    VALUES (?1, ?2, ?3, ?4, ?5, ?6, ?7) \
    ON CONFLICT(effective_album_artist, album, compilation) DO UPDATE SET \
    album_artist_raw = excluded.album_artist_raw, \
    album_norm = excluded.album_norm, \
    effective_album_artist_norm = excluded.effective_album_artist_norm \
    RETURNING id"@
            &&& s@.params.len() == 7
            &&& s@.params[0] == Cell::Text(name)
            &&& s@.params[1] == Cell::Text(title)
            &&& s@.params[2] == Cell::Integer(if tags.compilation { 1 } else { 0 })
            &&& s@.params[3] == said(tags.album_artist)
            &&& s@.params[4] == Cell::Integer(started)
            &&& s@.params[5] == Cell::Text(crate::normalize::search_form(title))
            &&& s@.params[6] == Cell::Text(crate::normalize::search_form(name))
        },
{
    assert(answers_view(answers@).len() == 0);
}

/// A file is read again unless it is known with the time of its last change, and the files
/// that are not are counted.
pub proof fn changed_files_are_read_again(
    enumerated: &[(&str, i64)],
    known: &Mtimes,
    r: (Vec<usize>, usize),
)
    requires
        call_ensures(partition_by_mtime, (enumerated, known), r),
    ensures
        forall|i: int|
            0 <= i < enumerated@.len() ==> (indices_view(r.0@).contains(i) <==> !(
            known@.contains_key((#[trigger] enumerated@[i]).0@) && known@[enumerated@[i].0@]
                == enumerated@[i].1)),
        r.0@.len() + r.1 == enumerated@.len(),
{
    let files = pairs_view(enumerated@);
    assert forall|i: int| 0 <= i < enumerated@.len() implies (indices_view(r.0@).contains(i)
        <==> !(known@.contains_key((#[trigger] enumerated@[i]).0@) && known@[enumerated@[i].0@]
        == enumerated@[i].1)) by {
        unchanged_files_are_not_read_again(files, known@, i);
        assert(files[i] == (enumerated@[i].0@, enumerated@[i].1));
    }
}

proof fn lemma_counted_outcomes(v: Seq<UpsertOutcome>, which: UpsertOutcome)
    ensures
        count_outcomes(v, which) == v.filter(|o: UpsertOutcome| o == which).len(),
    decreases v.len(),
{
    reveal(Seq::filter);
    if v.len() > 0 {
        lemma_counted_outcomes(v.drop_last(), which);
    }
}

/// A report counts the files that the walk came by, the tracks that were new, changed, as
/// they were or unreadable, what was dropped, and the albums by which there are more than
/// before without those dropped. It names every file left out, with the reason.
pub proof fn reports_count_what_was_done(
    f: ScanFindings,
    root: &str,
    scan_id: &str,
    started_at: i64,
    completed_at: i64,
    duration_ms: u64,
    r: ScanReport,
)
    requires
        f.wf(),
        call_ensures(complete, (f, root, scan_id, started_at, completed_at, duration_ms), r),
    ensures
        r.scan_id@ == scan_id@,
        r.started_at == started_at,
        r.completed_at == completed_at,
        r.duration_ms == duration_ms,
        r.is_initial == f.survey.is_initial,
        r.error is None,
        r.issues@ == f.issues@,
        r.stats.files_enumerated == f.walk.audio_files@.len() + f.walk.skipped@.len()
            + f.walk.companion_files_seen,
        r.stats.tracks_inserted == f.outcomes@.filter(
            |o: UpsertOutcome| o == UpsertOutcome::Inserted,
        ).len(),
        r.stats.tracks_updated == f.outcomes@.filter(
            |o: UpsertOutcome| o == UpsertOutcome::Updated,
        ).len(),
        r.stats.tracks_unchanged == f.survey.unchanged,
        r.stats.tag_read_failed == f.survey.needs@.len() - f.outcomes@.len(),
        r.stats.tracks_deleted == f.tracks_deleted,
        r.stats.albums_deleted == f.albums_deleted,
        f.albums_after >= f.albums_before - f.albums_deleted ==> r.stats.albums_inserted
            == f.albums_after - f.albums_before + f.albums_deleted,
        f.albums_after < f.albums_before - f.albums_deleted ==> r.stats.albums_inserted == 0,
        r.stats.companion_files_seen == f.walk.companion_files_seen,
        r.skipped@.len() == f.walk.skipped@.len(),
        forall|i: int|
            0 <= i < r.skipped@.len() ==> (#[trigger] r.skipped@[i]).path@ == relative_text(
                f.walk.skipped@[i].path@,
                root@,
            ) && r.skipped@[i].reason@ == f.walk.skipped@[i].reason.name(),
{
    lemma_counted_outcomes(f.outcomes@, UpsertOutcome::Inserted);
    lemma_counted_outcomes(f.outcomes@, UpsertOutcome::Updated);
    let a = skipped_view(r.skipped@);
    let b = reported_skips(f.walk.skipped@, root@);
    assert(a.len() == r.skipped@.len());
    lemma_counts_within(f.outcomes@, UpsertOutcome::Inserted);
    lemma_counts_within(f.outcomes@, UpsertOutcome::Updated);
    assert forall|i: int| 0 <= i < r.skipped@.len() implies (#[trigger] r.skipped@[i]).path@
        == relative_text(f.walk.skipped@[i].path@, root@) && r.skipped@[i].reason@
        == f.walk.skipped@[i].reason.name() by {
        assert(a[i] == r.skipped@[i]@);
        assert(a[i] == b[i]);
    }
}

proof fn lemma_counts_within(v: Seq<UpsertOutcome>, which: UpsertOutcome)
    ensures
        count_outcomes(v, which) <= v.len(),
    decreases v.len(),
{
    if v.len() > 0 {
        lemma_counts_within(v.drop_last(), which);
    }
}

/// The tracks dropped are those that the deletion of tracks touched, the albums dropped
/// those that the deletion of albums did.
pub proof fn dropped_are_what_was_deleted(
    paths: &Vec<String>,
    script: Vec<Statement>,
    changed: &Vec<usize>,
    r: (usize, usize),
    k: int,
)
    requires
        call_ensures(postprocess, (paths,), script),
        changed@.len() == script@.len(),
        call_ensures(dropped, (paths, changed), r),
        0 <= k < script@.len(),
    ensures
        k == paths@.len() + 2 <==> script@[k].sql@
            == "DELETE FROM tracks WHERE path NOT IN (SELECT path FROM enumerated_paths)"@,
        k == paths@.len() + 3 <==> script@[k].sql@
            == "DELETE FROM albums WHERE id NOT IN (SELECT DISTINCT album_id FROM tracks)"@,
        r.0 == changed@[paths@.len() as int + 2],
        r.1 == changed@[paths@.len() as int + 3],
{
    let given = text::texts(paths@);
    let s = postprocess_script(given);
    let n = paths@.len() as int;
    assert(statements_view(script@).len() == script@.len());
    assert(statements_view(script@)[k] == script@[k]@);
    assert(s[0] == plain_stmt(tracks::TEMP_TABLE_SQL@) && s[1] == plain_stmt(
        tracks::TEMP_CLEAR_SQL@,
    ));
    assert(2 <= k < n + 2 ==> s[k] == tracks::temp_insert_stmt(given[k - 2]));
    assert(s[n + 2] == plain_stmt(tracks::DELETE_MISSING_SQL@));
    assert(s[n + 3] == plain_stmt(albums::DELETE_ORPHANS_SQL@));
    let a = "DELETE FROM tracks WHERE path NOT IN (SELECT path FROM enumerated_paths)"@;
    let b = "DELETE FROM albums WHERE id NOT IN (SELECT DISTINCT album_id FROM tracks)"@;
    reveal_strlit("DELETE FROM tracks WHERE path NOT IN (SELECT path FROM enumerated_paths)");
    reveal_strlit("DELETE FROM albums WHERE id NOT IN (SELECT DISTINCT album_id FROM tracks)");
    reveal_strlit("CREATE TEMP TABLE IF NOT EXISTS enumerated_paths (path TEXT PRIMARY KEY)");
    reveal_strlit("DELETE FROM enumerated_paths");
    reveal_strlit("INSERT OR IGNORE INTO enumerated_paths (path) VALUES (?1)");
    reveal_strlit(
        "UPDATE albums SET \
    track_count = (SELECT COUNT(*) FROM tracks WHERE tracks.album_id = albums.id), \
    total_duration_ms = COALESCE(\
    (SELECT SUM(duration_ms) FROM tracks WHERE tracks.album_id = albums.id), 0)",
    );
    reveal_strlit(
        "UPDATE albums SET quality = COALESCE((\
    SELECT CASE WHEN COUNT(DISTINCT tier) > 1 THEN 'mixed' ELSE MAX(tier) END FROM (\
    SELECT CASE \
    WHEN codec IN ('flac','alac','pcm') \
    AND (COALESCE(sample_rate,0) > 48000 OR COALESCE(bit_depth,0) > 16) THEN 'hires' \
    WHEN codec IN ('flac','alac','pcm') THEN 'lossless' \
    WHEN codec IN ('mp3','aac') THEN 'lossy' \
    END AS tier FROM tracks \
    WHERE album_id = albums.id AND codec IN ('flac','alac','pcm','mp3','aac'))), 'unknown')",
    );
    reveal_strlit(
        "UPDATE albums SET last_added_at = (\
    SELECT MAX(added_at) FROM tracks WHERE tracks.album_id = albums.id)",
    );
    reveal_strlit(
        "UPDATE albums SET last_played_at = (\
    SELECT MAX(last_played_at) FROM tracks WHERE tracks.album_id = albums.id)",
    );
    assert(a[0] == 'D' && b[0] == 'D' && a[12] == 't' && b[12] == 'a');
    let t = script@[k].sql@;
    assert(k != n + 2 && k != n + 3 ==> t[0] == 'C' || t[0] == 'I' || t[0] == 'U' || t[12] == 'e');
}

/// The update id is raised by one where the scan brought, dropped or changed a track or
/// brought an album, and is written under the key from which it is read; else nothing is
/// asked or written.
pub proof fn update_id_is_raised_by_one(
    stats: &ScanStats,
    stored: u32,
    answers: &[Answer],
    r: Step<Option<u32>>,
)
    requires
        call_ensures(settle_update_id, (stats, answers), r),
        answers@.len() > 0 ==> (answers@[0] matches Answer::Rows(rows, _) && rows@.len() == 1
            && rows@[0]@.len() == 1 && rows@[0]@[0]@ == Cell::Text(text::decimal(stored as nat))),
        answers@.len() > 1 ==> answers@[1] is Rows,
    ensures
        ({
            let changed = stats.tracks_inserted > 0 || stats.tracks_deleted > 0
                || stats.tracks_updated > 0 || stats.albums_inserted > 0;
            let next: u32 = if stored == u32::MAX { stored } else { (stored + 1) as u32 };
            &&& !changed ==> r == Step::Done(Ok::<Option<u32>, Error>(None))
            &&& changed && answers@.len() == 0 ==> (r matches Step::Query(s) && s@ == (
            StatementView {
                sql: "SELECT value FROM server_state WHERE key = ?1"@,
                params: seq![Cell::Text("system_update_id"@)],
            }))
            &&& changed && answers@.len() == 1 ==> (r matches Step::Execute(s) && s@ == (
            StatementView {
                sql: "INSERT INTO server_state (key, value) VALUES (?1, ?2) \
    ON CONFLICT(key) DO UPDATE SET value = excluded.value"@,
                params: seq![
                    Cell::Text("system_update_id"@),
                    Cell::Text(text::decimal(next as nat)),
                ],
            }))
            &&& changed && answers@.len() > 1 ==> r == Step::Done(
                Ok::<Option<u32>, Error>(Some(next)),
            )
        }),
{
    let a = answers_view(answers@);
    assert(a.len() == answers@.len());
    if a.len() > 0 {
        assert(a[0] == answers@[0]@);
        let rows = answers@[0]->Rows_0;
        assert(crate::db::query::rows_view(rows@)[0] == crate::db::query::cells(rows@[0]@));
        assert(crate::db::query::cells(rows@[0]@)[0] == rows@[0]@[0]@);
        text::decimal_reads_back(stored as nat, u32::MAX as nat);
    }
    if a.len() > 1 {
        assert(a[1] == answers@[1]@);
    }
}

/// What wants mending in a track's tags is told once each, under the path as seen from the
/// library's root: an album without a title, one without an artist that is no compilation,
/// and a track of unknown length.
pub proof fn issues_tell_what_is_missing(track: &TaggedTrack, root: &str, r: Vec<Issue>)
    requires
        call_ensures(track_issues, (track, root), r),
    ensures
        ({
            let path = relative_text(track.path@, root@);
            let told = |issue: Seq<char>| issues_view(r@).contains(IssueView { path, issue });
            let blank = |tag: Option<String>| tag matches Some(s) ==> s@.len() == 0;
            &&& told("missing_album"@) <==> blank(track.tags.album)
            &&& told("missing_album_artist"@) <==> !track.tags.compilation && blank(
                track.tags.album_artist,
            )
            &&& told("no_duration"@) <==> track.tags.duration_ms is None
            &&& forall|i: int| 0 <= i < r@.len() ==> (#[trigger] r@[i]).path@ == path
            &&& issues_view(r@).no_duplicates()
        }),
{
    let path = relative_text(track.path@, root@);
    let all = issues_view(r@);
    reveal_strlit("missing_album");
    reveal_strlit("missing_album_artist");
    reveal_strlit("no_duration");
    assert("missing_album"@.len() == 13 && "missing_album_artist"@.len() == 20
        && "no_duration"@.len() == 11);
    let a = blank_issue(absent(opt_text(track.tags.album)), path, "missing_album"@);
    let b = blank_issue(
        !track.tags.compilation && absent(opt_text(track.tags.album_artist)),
        path,
        "missing_album_artist"@,
    );
    let c = blank_issue(track.tags.duration_ms is None, path, "no_duration"@);
    assert(all =~= a + b + c);
    assert(a.len() > 0 ==> all[0] == a[0]);
    assert(b.len() > 0 ==> all[a.len() as int] == b[0]);
    assert(c.len() > 0 ==> all[a.len() as int + b.len()] == c[0]);
    assert forall|i: int| 0 <= i < r@.len() implies (#[trigger] r@[i]).path@ == path by {
        assert(all[i] == r@[i]@);
    }
}

spec fn blank_issue(there: bool, path: Seq<char>, issue: Seq<char>) -> Seq<IssueView> {
    if there {
        seq![IssueView { path, issue }]
    } else {
        Seq::empty()
    }
}

proof fn lemma_known_time(rows: Seq<Seq<Cell>>, path: Seq<char>, mtime: i64, k: int)
    requires
        0 <= k < rows.len(),
        rows[k] == seq![Cell::Text(path), Cell::Integer(mtime)],
        forall|i: int| k < i < rows.len() ==> (#[trigger] rows[i]).len() == 2 && rows[i][0] != Cell::Text(path),
    ensures
        mtimes_of(rows).contains_key(path),
        mtimes_of(rows)[path] == mtime,
    decreases rows.len(),
{
    let front = rows.drop_last();
    if k < rows.len() - 1 {
        lemma_known_time(front, path, mtime, k);
        assert(rows[rows.len() - 1][0] != Cell::Text(path));
    }
}

/// A scan is the first one where no track is known. Of file `i`, of which row `k` tells
/// last, it says whether it is to be read again: where the time of its last change is not
/// the one that the row tells. It asks for just that.
pub proof fn surveys_compare_with_what_is_known(
    files: &Vec<EnumeratedTrack>,
    answers: &[Answer],
    r: Step<Survey>,
    i: int,
    k: int,
    known: i64,
)
    requires
        call_ensures(survey, (files, answers), r),
        answers@.len() > 0 ==> scalar_of(answers@[0]@) is Ok,
        0 <= i < files@.len(),
        answers@.len() > 1 ==> (rows_of(answers@[1]@) matches Ok(rows) && 0 <= k < rows.len()
            && rows[k] == seq![Cell::Text(files@[i].path@), Cell::Integer(known)] && forall|j: int|
            k < j < rows.len() ==> (#[trigger] rows[j]).len() == 2 && rows[j][0] != Cell::Text(
                files@[i].path@,
            )),
    ensures
        answers@.len() == 0 ==> (r matches Step::Query(q) && q@ == (StatementView {
            sql: "SELECT COUNT(*) FROM tracks"@,
            params: Seq::empty(),
        })),
        answers@.len() == 1 ==> (r matches Step::Query(q) && q@ == (StatementView {
            sql: "SELECT path, mtime FROM tracks"@,
            params: Seq::empty(),
        })),
        answers@.len() > 1 ==> (r matches Step::Done(Ok(s)) && {
            &&& s.is_initial == (scalar_of(answers@[0]@)->Ok_0 == 0)
            &&& s.needs@.len() + s.unchanged == files@.len()
            &&& indices_view(s.needs@).contains(i) <==> files@[i].mtime != known
        }),
{
    let a = answers_view(answers@);
    assert(a.len() == answers@.len());
    if a.len() > 0 {
        assert(a[0] == answers@[0]@);
    }
    if a.len() > 1 {
        assert(a[1] == answers@[1]@);
        let all = files_view(files@);
        let rows = rows_of(a[1])->Ok_0;
        let s = r->Done_0->Ok_0;
        assert(indices_view(s.needs@) == stale_indices(all, mtimes_of(rows)));
        assert(indices_view(s.needs@).len() == s.needs@.len());
        unchanged_files_are_not_read_again(all, mtimes_of(rows), i);
        assert(all[i] == (files@[i].path@, files@[i].mtime));
        lemma_known_time(rows, files@[i].path@, known, k);
    }
}

/// A track that cannot be kept, a survey that cannot be made and an update id that cannot be
/// raised are told as failures: the first question or statement that fails ends the work.
pub proof fn failures_of_a_scan_are_told(
    track: &TaggedTrack,
    is_initial: bool,
    started: i64,
    files: &Vec<EnumeratedTrack>,
    answers: &[Answer],
    kept: Step<UpsertOutcome>,
    surveyed: Step<Survey>,
    raised: Step<u32>,
)
    requires
        call_ensures(ingest, (track, is_initial, started, answers), kept),
        call_ensures(survey, (files, answers), surveyed),
        call_ensures(bump_system_update_id, (answers,), raised),
        answers@.len() > 0,
        answers@.last() is Failed,
        !(answers@.last()@->Failed_0 is QueryReturnedNoRows),
    ensures
        ({
            let told = crate::error::ErrorView::Sqlite(answers@.last()@->Failed_0);
            let n = answers@.len();
            &&& n == 1 ==> (kept matches Step::Done(Err(e)) && e@ == told)
            &&& n == 2 && scalar_of(answers@[0]@) is Ok ==> (kept matches Step::Done(Err(e)) && e@
                == told)
            &&& n == 3 && scalar_of(answers@[0]@) is Ok && scalar_of(answers@[1]@) == Ok::<
                i64,
                crate::error::ErrorView,
            >(0) ==> (kept matches Step::Done(Err(e)) && e@ == told)
            &&& n == 1 ==> (surveyed matches Step::Done(Err(e)) && e@ == told)
            &&& n == 2 && scalar_of(answers@[0]@) is Ok ==> (surveyed matches Step::Done(Err(e))
                && e@ == told)
            &&& n == 1 ==> (raised matches Step::Done(Err(e)) && e@ == told)
            &&& n == 2 && crate::db::query::found_text(answers@[0]@) is Ok ==> (
            raised matches Step::Done(Err(e)) && e@ == told)
        }),
{
    let a = answers_view(answers@);
    let n = a.len();
    assert(n == answers@.len());
    assert(forall|i: int| 0 <= i < n ==> #[trigger] a[i] == answers@[i]@);
    assert(a[n - 1] == answers@.last()@);
    assert(a[0] == answers@[0]@);
    if n > 1 {
        assert(a.skip(1)[0] == a[1] && a[1] == answers@[1]@);
    }
    if n > 2 {
        assert(a.skip(1)[1] == a[2] && a[2] == answers@[2]@);
    }
}

} // verus!
