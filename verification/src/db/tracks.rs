//! The tracks table.

use vstd::hash_map::StringHashMap;
use vstd::prelude::*;

use crate::db::query::{
    answers_view, asked_once, bound, cells, changes, check, copy_error, get_integer, get_text,
    integer_at, misread, misread_error, opt_text_cell, opt_text_param, plain, plain_stmt, ran,
    rows_of, rows_view, step_as, text_at, text_param, touched, Answer, AnswerView, Cell, Row,
    SqlValue, Statement, StatementView, Step, StepView, Wanted,
};
use crate::error::{Error, ErrorView, SqliteError};
use crate::normalize::{for_search, search_form};
use crate::text::{self, opt_str};

verus! {

/// Where a track's file is, and what it is.
#[derive(Debug)]
pub struct TrackPath {
    pub path: String,
    pub file_size: u64,
    pub mime_type: String,
}

/// A track's file as text.
pub struct TrackPathView {
    pub path: Seq<char>,
    pub file_size: u64,
    pub mime_type: Seq<char>,
}

pub open spec fn track_path_view(o: Option<TrackPath>) -> Option<TrackPathView> {
    match o {
        Some(t) => Some(
            TrackPathView { path: t.path@, file_size: t.file_size, mime_type: t.mime_type@ },
        ),
        None => None,
    }
}

pub const LOOKUP_SQL: &'static str = "SELECT path, file_size, mime_type FROM tracks WHERE id = ?1";

/// What the columns of a track's file hold.
pub open spec fn path_columns() -> Seq<Wanted> {
    seq![Wanted::Text, Wanted::Integer, Wanted::Text]
}

/// The track's file in the first row, where there is a row.
pub open spec fn found_track(a: AnswerView) -> Result<Option<TrackPathView>, ErrorView> {
    match a {
        AnswerView::Failed(e) => if e is QueryReturnedNoRows {
            Ok(None)
        } else {
            Err(ErrorView::Sqlite(e))
        },
        AnswerView::Rows(rows, _) => if rows.len() == 0 {
            Ok(None)
        } else {
            match (text_at(rows[0], 0), integer_at(rows[0], 1), text_at(rows[0], 2)) {
                (Some(path), Some(size), Some(mime_type)) => Ok(
                    Some(TrackPathView { path, file_size: size as u64, mime_type }),
                ),
                _ => Err(ErrorView::Sqlite(misread(a, path_columns()))),
            }
        },
    }
}

/// The file of the track with the given id, where there is such a track.
pub fn lookup_by_id(id: i64, answers: &[Answer]) -> (r: Step<Option<TrackPath>>)
    ensures
        step_as(r, |o: Option<TrackPath>| track_path_view(o)) == asked_once(
            StatementView { sql: LOOKUP_SQL@, params: seq![Cell::Integer(id)] },
            answers_view(answers@),
            |a: AnswerView| found_track(a),
        ),
{
    if answers.len() == 0 {
        let params = vec![SqlValue::Integer(id)];
        assert(cells(params@) =~= seq![Cell::Integer(id)]);
        return Step::Query(bound(LOOKUP_SQL, params));
    }
    match &answers[0] {
        Answer::Failed(e) => match e {
            SqliteError::QueryReturnedNoRows => Step::Done(Ok(None)),
            _ => Step::Done(Err(Error::Sqlite(copy_error(e)))),
        },
        Answer::Rows(rows, _) => {
            if rows.len() == 0 {
                return Step::Done(Ok(None));
            }
            assert(rows_view(rows@)[0] == cells(rows@[0]@));
            match (get_text(&rows[0], 0), get_integer(&rows[0], 1), get_text(&rows[0], 2)) {
                (Some(path), Some(size), Some(mime_type)) => Step::Done(
                    Ok(Some(TrackPath { path, file_size: size as u64, mime_type })),
                ),
                _ => {
                    let wanted = vec![Wanted::Text, Wanted::Integer, Wanted::Text];
                    Step::Done(Err(Error::Sqlite(misread_error(&answers[0], &wanted))))
                },
            }
        },
    }
}

/// Whether a track was new.
#[derive(Debug, Clone, Copy, PartialEq, Eq, Structural)]
pub enum UpsertOutcome {
    Inserted,
    Updated,
}

/// What is kept of a track.
pub struct TrackRow<'a> {
    pub album_id: i64,
    pub path: &'a str,
    pub title: Option<&'a str>,
    pub artist: Option<&'a str>,
    pub genre: Option<&'a str>,
    pub track_num: Option<u32>,
    pub disc_num: Option<u32>,
    pub duration_ms: Option<u64>,
    pub sample_rate: Option<u32>,
    pub bit_depth: Option<u8>,
    pub channels: Option<u8>,
    pub bitrate: Option<u32>,
    pub codec: &'a str,
    pub mime_type: &'a str,
    pub file_size: u64,
    pub added_at: i64,
    pub mtime: i64,
    pub composer: Option<&'a str>,
    pub conductor: Option<&'a str>,
    pub performer: Option<&'a str>,
    pub year: Option<i32>,
    /// ReplayGain, as decimal numerals: their columns hold real numbers, and keep a
    /// numeral as the number that it stands for.
    pub rg_track_gain: Option<&'a str>,
    pub rg_track_peak: Option<&'a str>,
    pub rg_album_gain: Option<&'a str>,
    pub rg_album_peak: Option<&'a str>,
    pub artist_sort: Option<&'a str>,
    pub album_artist_sort: Option<&'a str>,
    pub album_sort: Option<&'a str>,
    pub title_sort: Option<&'a str>,
    pub composer_sort: Option<&'a str>,
    pub original_year: Option<i32>,
    pub mb_recording_id: Option<&'a str>,
    pub mb_release_id: Option<&'a str>,
    pub mb_release_group_id: Option<&'a str>,
    pub mb_artist_id: Option<&'a str>,
    pub mb_release_artist_id: Option<&'a str>,
}

pub const INSERT_SQL: &'static str = "INSERT OR IGNORE INTO tracks (\
    album_id, path, title, artist, genre, track_num, disc_num, duration_ms, \
    sample_rate, bit_depth, channels, bitrate, codec, mime_type, file_size, \
    mtime, composer, conductor, performer, year, \
    title_norm, artist_norm, genre_norm, composer_norm, conductor_norm, performer_norm, \
    rg_track_gain, rg_track_peak, rg_album_gain, rg_album_peak, artist_sort, \
    album_artist_sort, album_sort, title_sort, composer_sort, original_year, \
    mb_recording_id, mb_release_id, mb_release_group_id, mb_artist_id, \
    mb_release_artist_id, \
    added_at) \
    VALUES (?1,?2,?3,?4,?5,?6,?7,?8,?9,?10,?11,?12,?13,?14,?15,?16,?17,?18,?19,?20,\
    ?21,?22,?23,?24,?25,?26,?27,?28,?29,?30,?31,?32,?33,?34,?35,?36,?37,?38,?39,?40,?41,?42)";

pub const UPDATE_SQL: &'static str = "UPDATE tracks SET \
    album_id = ?1, title = ?3, artist = ?4, genre = ?5, track_num = ?6, disc_num = ?7, \
    duration_ms = ?8, sample_rate = ?9, bit_depth = ?10, channels = ?11, bitrate = ?12, \
    codec = ?13, mime_type = ?14, file_size = ?15, mtime = ?16, \
    composer = ?17, conductor = ?18, performer = ?19, year = ?20, \
    title_norm = ?21, artist_norm = ?22, genre_norm = ?23, \
    composer_norm = ?24, conductor_norm = ?25, performer_norm = ?26, \
    rg_track_gain = ?27, rg_track_peak = ?28, rg_album_gain = ?29, rg_album_peak = ?30, \
    artist_sort = ?31, album_artist_sort = ?32, album_sort = ?33, title_sort = ?34, \
    composer_sort = ?35, original_year = ?36, mb_recording_id = ?37, mb_release_id = ?38, \
    mb_release_group_id = ?39, mb_artist_id = ?40, mb_release_artist_id = ?41 \
    WHERE path = ?2";

pub open spec fn opt_u32_cell(n: Option<u32>) -> Cell {
    match n {
        Some(x) => Cell::Integer(x as i64),
        None => Cell::Null,
    }
}

pub open spec fn opt_u8_cell(n: Option<u8>) -> Cell {
    match n {
        Some(x) => Cell::Integer(x as i64),
        None => Cell::Null,
    }
}

pub open spec fn opt_u64_cell(n: Option<u64>) -> Cell {
    match n {
        Some(x) => Cell::Integer(x as i64),
        None => Cell::Null,
    }
}

pub open spec fn opt_i32_cell(n: Option<i32>) -> Cell {
    match n {
        Some(x) => Cell::Integer(x as i64),
        None => Cell::Null,
    }
}

/// The search form of an optional text.
pub open spec fn norm_cell(s: Option<&str>) -> Cell {
    match s {
        Some(t) => Cell::Text(search_form(t@)),
        None => Cell::Null,
    }
}

/// Everything that is kept of a track but when it was added: numbered as in both
/// statements.
pub open spec fn track_cells(row: TrackRow) -> Seq<Cell> {
    seq![
        Cell::Integer(row.album_id),
        Cell::Text(row.path@),
        opt_text_cell(opt_str(row.title)),
        opt_text_cell(opt_str(row.artist)),
        opt_text_cell(opt_str(row.genre)),
        opt_u32_cell(row.track_num),
        opt_u32_cell(row.disc_num),
        opt_u64_cell(row.duration_ms),
        opt_u32_cell(row.sample_rate),
        opt_u8_cell(row.bit_depth),
        opt_u8_cell(row.channels),
        opt_u32_cell(row.bitrate),
        Cell::Text(row.codec@),
        Cell::Text(row.mime_type@),
        Cell::Integer(row.file_size as i64),
        Cell::Integer(row.mtime),
        opt_text_cell(opt_str(row.composer)),
        opt_text_cell(opt_str(row.conductor)),
        opt_text_cell(opt_str(row.performer)),
        opt_i32_cell(row.year),
        norm_cell(row.title),
        norm_cell(row.artist),
        norm_cell(row.genre),
        norm_cell(row.composer),
        norm_cell(row.conductor),
        norm_cell(row.performer),
        opt_text_cell(opt_str(row.rg_track_gain)),
        opt_text_cell(opt_str(row.rg_track_peak)),
        opt_text_cell(opt_str(row.rg_album_gain)),
        opt_text_cell(opt_str(row.rg_album_peak)),
        opt_text_cell(opt_str(row.artist_sort)),
        opt_text_cell(opt_str(row.album_artist_sort)),
        opt_text_cell(opt_str(row.album_sort)),
        opt_text_cell(opt_str(row.title_sort)),
        opt_text_cell(opt_str(row.composer_sort)),
        opt_i32_cell(row.original_year),
        opt_text_cell(opt_str(row.mb_recording_id)),
        opt_text_cell(opt_str(row.mb_release_id)),
        opt_text_cell(opt_str(row.mb_release_group_id)),
        opt_text_cell(opt_str(row.mb_artist_id)),
        opt_text_cell(opt_str(row.mb_release_artist_id)),
    ]
}

pub open spec fn insert_stmt(row: TrackRow) -> StatementView {
    StatementView {
        sql: INSERT_SQL@,
        params: track_cells(row).push(Cell::Integer(row.added_at)),
    }
}

/// A known track gets new values for all but when it was added.
pub open spec fn update_stmt(row: TrackRow) -> StatementView {
    StatementView { sql: UPDATE_SQL@, params: track_cells(row) }
}

/// Insert; where that changes nothing because the path is known, update.
pub open spec fn upsert_step(row: TrackRow, answers: Seq<AnswerView>) -> StepView<UpsertOutcome> {
    if answers.len() == 0 {
        StepView::Execute(insert_stmt(row))
    } else {
        match touched(answers[0]) {
            Err(e) => StepView::Done(Err(e)),
            Ok(n) => if n == 1 {
                StepView::Done(Ok(UpsertOutcome::Inserted))
            } else if answers.len() == 1 {
                StepView::Execute(update_stmt(row))
            } else {
                match ran(answers[1]) {
                    Err(e) => StepView::Done(Err(e)),
                    Ok(_) => StepView::Done(Ok(UpsertOutcome::Updated)),
                }
            },
        }
    }
}

fn opt_u32_param(n: Option<u32>) -> (r: SqlValue)
    ensures
        r@ == opt_u32_cell(n),
{
    match n {
        Some(x) => SqlValue::Integer(x as i64),
        None => SqlValue::Null,
    }
}

fn opt_u8_param(n: Option<u8>) -> (r: SqlValue)
    ensures
        r@ == opt_u8_cell(n),
{
    match n {
        Some(x) => SqlValue::Integer(x as i64),
        None => SqlValue::Null,
    }
}

fn opt_i32_param(n: Option<i32>) -> (r: SqlValue)
    ensures
        r@ == opt_i32_cell(n),
{
    match n {
        Some(x) => SqlValue::Integer(x as i64),
        None => SqlValue::Null,
    }
}

fn norm_param(s: Option<&str>) -> (r: SqlValue)
    ensures
        r@ == norm_cell(s),
{
    match s {
        Some(t) => SqlValue::Text(for_search(t)),
        None => SqlValue::Null,
    }
}

fn track_params(row: &TrackRow) -> (r: Vec<SqlValue>)
    ensures
        cells(r@) == track_cells(*row),
{
    let r = vec![
        SqlValue::Integer(row.album_id),
        text_param(row.path),
        opt_text_param(row.title),
        opt_text_param(row.artist),
        opt_text_param(row.genre),
        opt_u32_param(row.track_num),
        opt_u32_param(row.disc_num),
        match row.duration_ms {
            Some(x) => SqlValue::Integer(x as i64),
            None => SqlValue::Null,
        },
        opt_u32_param(row.sample_rate),
        opt_u8_param(row.bit_depth),
        opt_u8_param(row.channels),
        opt_u32_param(row.bitrate),
        text_param(row.codec),
        text_param(row.mime_type),
        SqlValue::Integer(row.file_size as i64),
        SqlValue::Integer(row.mtime),
        opt_text_param(row.composer),
        opt_text_param(row.conductor),
        opt_text_param(row.performer),
        opt_i32_param(row.year),
        norm_param(row.title),
        norm_param(row.artist),
        norm_param(row.genre),
        norm_param(row.composer),
        norm_param(row.conductor),
        norm_param(row.performer),
        opt_text_param(row.rg_track_gain),
        opt_text_param(row.rg_track_peak),
        opt_text_param(row.rg_album_gain),
        opt_text_param(row.rg_album_peak),
        opt_text_param(row.artist_sort),
        opt_text_param(row.album_artist_sort),
        opt_text_param(row.album_sort),
        opt_text_param(row.title_sort),
        opt_text_param(row.composer_sort),
        opt_i32_param(row.original_year),
        opt_text_param(row.mb_recording_id),
        opt_text_param(row.mb_release_id),
        opt_text_param(row.mb_release_group_id),
        opt_text_param(row.mb_artist_id),
        opt_text_param(row.mb_release_artist_id),
    ];
    assert(cells(r@) =~= track_cells(*row));
    r
}

/// Keep a track under its path. One that is known keeps the time it was added and
/// gets everything else anew.
pub fn upsert(row: &TrackRow, answers: &[Answer]) -> (r: Step<UpsertOutcome>)
    ensures
        step_as(r, |o: UpsertOutcome| o) == upsert_step(*row, answers_view(answers@)),
{
    if answers.len() == 0 {
        let mut params = track_params(row);
        let ghost before = params@;
        params.push(SqlValue::Integer(row.added_at));
        assert(cells(params@) =~= cells(before).push(Cell::Integer(row.added_at)));
        return Step::Execute(bound(INSERT_SQL, params));
    }
    match changes(&answers[0]) {
        Err(e) => Step::Done(Err(e)),
        Ok(n) => {
            if n == 1 {
                return Step::Done(Ok(UpsertOutcome::Inserted));
            }
            if answers.len() == 1 {
                return Step::Execute(bound(UPDATE_SQL, track_params(row)));
            }
            match check(&answers[1]) {
                Err(e) => Step::Done(Err(e)),
                Ok(_) => Step::Done(Ok(UpsertOutcome::Updated)),
            }
        },
    }
}

/// When a track was added stays as it is once the track is known: the statement
/// for a known track does not speak of it.
pub proof fn update_ignores_added_at(row: TrackRow, other: TrackRow)
    requires
        other == (TrackRow { added_at: other.added_at, ..row }),
    ensures
        update_stmt(row) == update_stmt(other),
{
    assert(track_cells(row) =~= track_cells(other));
}

pub const TEMP_TABLE_SQL: &'static str =
    "CREATE TEMP TABLE IF NOT EXISTS enumerated_paths (path TEXT PRIMARY KEY)";

pub const TEMP_CLEAR_SQL: &'static str = "DELETE FROM enumerated_paths";

pub const TEMP_INSERT_SQL: &'static str =
    "INSERT OR IGNORE INTO enumerated_paths (path) VALUES (?1)";

pub const DELETE_MISSING_SQL: &'static str =
    "DELETE FROM tracks WHERE path NOT IN (SELECT path FROM enumerated_paths)";

pub open spec fn temp_insert_stmt(path: Seq<char>) -> StatementView {
    StatementView { sql: TEMP_INSERT_SQL@, params: seq![Cell::Text(path)] }
}

pub open spec fn statements_view(v: Seq<Statement>) -> Seq<StatementView> {
    v.map_values(|s: Statement| s@)
}

/// The statements that drop every track whose path is not among those given: the
/// paths go to a table of their own, and the last statement drops what is not in
/// it.
pub open spec fn detect_deleted_script(paths: Seq<Seq<char>>) -> Seq<StatementView> {
    seq![plain_stmt(TEMP_TABLE_SQL@), plain_stmt(TEMP_CLEAR_SQL@)] + paths.map_values(
        |p: Seq<char>| temp_insert_stmt(p),
    ) + seq![plain_stmt(DELETE_MISSING_SQL@)]
}

/// Drop tracks whose file is gone. The number that the last of the statements
/// changes is the number of tracks dropped.
pub fn detect_deleted(paths: &Vec<String>) -> (r: Vec<Statement>)
    ensures
        statements_view(r@) == detect_deleted_script(text::texts(paths@)),
{
    let mut out: Vec<Statement> = Vec::new();
    out.push(plain(TEMP_TABLE_SQL));
    out.push(plain(TEMP_CLEAR_SQL));
    let ghost head = seq![plain_stmt(TEMP_TABLE_SQL@), plain_stmt(TEMP_CLEAR_SQL@)];
    let ghost all = text::texts(paths@).map_values(|p: Seq<char>| temp_insert_stmt(p));
    assert(statements_view(out@) =~= head + all.take(0));
    let mut i: usize = 0;
    while i < paths.len()
        invariant
            i <= paths.len(),
            all == text::texts(paths@).map_values(|p: Seq<char>| temp_insert_stmt(p)),
            statements_view(out@) == head + all.take(i as int),
        decreases paths.len() - i,
    {
        let ghost before = out@;
        let params = vec![text_param(paths[i].as_str())];
        assert(cells(params@) =~= seq![Cell::Text(paths@[i as int]@)]);
        out.push(bound(TEMP_INSERT_SQL, params));
        i = i + 1;
        assert(statements_view(out@) =~= statements_view(before).push(all[i - 1]));
        assert(all.take(i as int) =~= all.take(i - 1).push(all[i - 1]));
        assert(statements_view(out@) =~= head + all.take(i as int));
    }
    assert(all.take(i as int) =~= all);
    let ghost before = out@;
    out.push(plain(DELETE_MISSING_SQL));
    assert(statements_view(out@) =~= statements_view(before).push(
        plain_stmt(DELETE_MISSING_SQL@),
    ));
    assert(statements_view(out@) =~= detect_deleted_script(text::texts(paths@)));
    out
}

pub const MTIMES_SQL: &'static str = "SELECT path, mtime FROM tracks";

/// When each known file was last changed.
pub struct Mtimes {
    map: StringHashMap<i64>,
}

impl View for Mtimes {
    type V = Map<Seq<char>, i64>;

    closed spec fn view(&self) -> Map<Seq<char>, i64> {
        self.map@
    }
}

impl Mtimes {
    pub fn new() -> (r: Self)
        ensures
            r@ == Map::<Seq<char>, i64>::empty(),
    {
        Mtimes { map: StringHashMap::new() }
    }

    /// How many files are known.
    pub fn len(&self) -> (r: usize)
        ensures
            r == self@.len(),
    {
        self.map.len()
    }

    pub fn insert(&mut self, path: String, mtime: i64)
        ensures
            final(self)@ == old(self)@.insert(path@, mtime),
    {
        self.map.insert(path, mtime);
    }

    pub fn get(&self, path: &str) -> (r: Option<i64>)
        ensures
            r == if self@.contains_key(path@) {
                Some(self@[path@])
            } else {
                None
            },
    {
        match self.map.get(path) {
            Some(m) => Some(*m),
            None => None,
        }
    }
}

/// The paths and times in the rows; of a path that comes twice the last counts.
pub open spec fn mtimes_of(rows: Seq<Seq<Cell>>) -> Map<Seq<char>, i64>
    decreases rows.len(),
{
    if rows.len() == 0 {
        Map::empty()
    } else {
        let before = mtimes_of(rows.drop_last());
        match (text_at(rows.last(), 0), integer_at(rows.last(), 1)) {
            (Some(path), Some(mtime)) => before.insert(path, mtime),
            _ => before,
        }
    }
}

fn read_mtimes(rows: &Vec<Row>) -> (r: Mtimes)
    ensures
        r@ == mtimes_of(rows_view(rows@)),
{
    let ghost all = rows_view(rows@);
    let mut out = Mtimes::new();
    let mut i: usize = 0;
    assert(all.take(0) =~= Seq::empty());
    while i < rows.len()
        invariant
            i <= rows.len(),
            all == rows_view(rows@),
            out@ == mtimes_of(all.take(i as int)),
        decreases rows.len() - i,
    {
        assert(all[i as int] == cells(rows@[i as int]@));
        match (get_text(&rows[i], 0), get_integer(&rows[i], 1)) {
            (Some(path), Some(mtime)) => out.insert(path, mtime),
            _ => {},
        }
        i = i + 1;
        assert(all.take(i as int).drop_last() =~= all.take(i - 1));
    }
    assert(all.take(i as int) =~= all);
    out
}

/// When each known file was last changed.
pub fn get_mtimes(answers: &[Answer]) -> (r: Step<Mtimes>)
    ensures
        r@ == asked_once(
            plain_stmt(MTIMES_SQL@),
            answers_view(answers@),
            |a: AnswerView|
                match rows_of(a) {
                    Ok(rows) => Ok(mtimes_of(rows)),
                    Err(e) => Err(e),
                },
        ),
{
    if answers.len() == 0 {
        return Step::Query(plain(MTIMES_SQL));
    }
    match &answers[0] {
        Answer::Failed(e) => Step::Done(Err(Error::Sqlite(copy_error(e)))),
        Answer::Rows(rows, _) => Step::Done(Ok(read_mtimes(rows))),
    }
}

/// A track's file is looked up by the track's id, and told with its path, size and type;
/// without such a track there is none.
pub proof fn files_are_looked_up_by_id(
    id: i64,
    answers: &[Answer],
    path: Seq<char>,
    size: i64,
    mime: Seq<char>,
    r: Step<Option<TrackPath>>,
)
    requires
        call_ensures(lookup_by_id, (id, answers), r),
    ensures
        answers@.len() == 0 ==> (r matches Step::Query(q) && q@ == (StatementView {
            sql: "SELECT path, file_size, mime_type FROM tracks WHERE id = ?1"@,
            params: seq![Cell::Integer(id)],
        })),
        answers@.len() > 0 && size >= 0 && rows_of(answers@[0]@) == Ok::<
            Seq<Seq<Cell>>,
            ErrorView,
        >(seq![seq![Cell::Text(path), Cell::Integer(size), Cell::Text(mime)]]) ==> (
        r matches Step::Done(Ok(Some(t))) && t.path@ == path && t.file_size == size
            && t.mime_type@ == mime),
        answers@.len() > 0 && rows_of(answers@[0]@) == Ok::<Seq<Seq<Cell>>, ErrorView>(
            Seq::empty(),
        ) ==> r == Step::Done(Ok::<Option<TrackPath>, Error>(None)),
{
    let a = answers_view(answers@);
    assert(a.len() == answers@.len());
    if a.len() > 0 {
        assert(a[0] == answers@[0]@);
        let f = |a: AnswerView| found_track(a);
        assert(step_as(r, |o: Option<TrackPath>| track_path_view(o)) == StepView::<
            Option<TrackPathView>,
        >::Done(f(a[0])));
    }
}

} // verus!
