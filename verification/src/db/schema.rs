//! The database's schema: how it is laid out, and how an older one is brought up
//! to date.

use vstd::prelude::*;

use crate::db::query::{
    answers_view, asked_once, bound, cells, check, copy_error, get_integer, get_opt_text, get_text,
    integer_at, opt_text_at, plain, plain_stmt, ran, rows_of, rows_view, step_as, text_at, Answer,
    AnswerView, Cell, Row, SqlValue, Statement, StatementView, Step, StepView,
};
use crate::db::state_kv;
use crate::db::tracks::statements_view;
use crate::error::{Error, ErrorView, SqliteError, SqliteErrorView};
use crate::normalize::{for_search, search_form};
use crate::text::{self, joined, parsed_number, texts};

verus! {

/// The version of the schema. It grows by one whenever a column comes or goes.
pub const SCHEMA_VERSION: u32 = 9;

pub const SCHEMA_SQL: &'static str = r#"
CREATE TABLE IF NOT EXISTS albums (
  id                          INTEGER PRIMARY KEY AUTOINCREMENT,
  effective_album_artist      TEXT    NOT NULL,
  album                       TEXT    NOT NULL,
  compilation                 INTEGER NOT NULL DEFAULT 0,
  album_artist_raw            TEXT,
  first_seen_at               INTEGER NOT NULL,
  track_count                 INTEGER NOT NULL DEFAULT 0,
  total_duration_ms           INTEGER NOT NULL DEFAULT 0,
  quality                     TEXT    NOT NULL DEFAULT 'unknown',
  album_norm                  TEXT,
  effective_album_artist_norm TEXT,
  UNIQUE(effective_album_artist, album, compilation)
);

CREATE INDEX IF NOT EXISTS idx_alb_aa      ON albums(effective_album_artist);
CREATE INDEX IF NOT EXISTS idx_alb_first   ON albums(first_seen_at DESC);
CREATE INDEX IF NOT EXISTS idx_alb_quality ON albums(quality);

CREATE TABLE IF NOT EXISTS tracks (
  id             INTEGER PRIMARY KEY AUTOINCREMENT,
  album_id       INTEGER NOT NULL REFERENCES albums(id) ON DELETE CASCADE,
  path           TEXT    NOT NULL UNIQUE,
  title          TEXT,
  artist         TEXT,
  genre          TEXT,
  track_num      INTEGER,
  disc_num       INTEGER,
  duration_ms    INTEGER,
  sample_rate    INTEGER,
  bit_depth      INTEGER,
  channels       INTEGER,
  bitrate        INTEGER,
  codec          TEXT,
  mime_type      TEXT,
  file_size      INTEGER,
  added_at       INTEGER NOT NULL,
  mtime          INTEGER NOT NULL,
  play_count     INTEGER NOT NULL DEFAULT 0,
  last_played_at INTEGER,
  composer       TEXT,
  conductor      TEXT,
  performer      TEXT,
  year           INTEGER,
  title_norm     TEXT,
  artist_norm    TEXT,
  genre_norm     TEXT,
  composer_norm  TEXT,
  conductor_norm TEXT,
  performer_norm TEXT,
  rg_track_gain  REAL,
  rg_track_peak  REAL,
  rg_album_gain  REAL,
  rg_album_peak  REAL,
  artist_sort         TEXT,
  album_artist_sort   TEXT,
  album_sort          TEXT,
  title_sort          TEXT,
  composer_sort       TEXT,
  original_year       INTEGER,
  mb_recording_id     TEXT,
  mb_release_id       TEXT,
  mb_release_group_id TEXT,
  mb_artist_id        TEXT,
  mb_release_artist_id TEXT
);

CREATE INDEX IF NOT EXISTS idx_trk_album  ON tracks(album_id);
CREATE INDEX IF NOT EXISTS idx_trk_artist ON tracks(artist);
CREATE INDEX IF NOT EXISTS idx_trk_genre  ON tracks(genre);
CREATE INDEX IF NOT EXISTS idx_trk_added  ON tracks(added_at DESC);

CREATE TABLE IF NOT EXISTS server_state (
  key   TEXT PRIMARY KEY,
  value TEXT NOT NULL
);

CREATE TABLE IF NOT EXISTS config_overrides (
  key        TEXT    PRIMARY KEY,
  value      TEXT    NOT NULL,
  updated_at INTEGER NOT NULL
);
"#;

/// Trigram indexes of the search forms, kept up to date by triggers.
pub const FTS5_SQL: &'static str = r#"
CREATE VIRTUAL TABLE IF NOT EXISTS albums_fts USING fts5(
  album_norm,
  effective_album_artist_norm,
  content='albums',
  content_rowid='id',
  tokenize='trigram'
);

CREATE VIRTUAL TABLE IF NOT EXISTS tracks_fts USING fts5(
  title_norm,
  artist_norm,
  composer_norm,
  conductor_norm,
  performer_norm,
  genre_norm,
  content='tracks',
  content_rowid='id',
  tokenize='trigram'
);

CREATE TRIGGER IF NOT EXISTS albums_ai AFTER INSERT ON albums BEGIN
  INSERT INTO albums_fts(rowid, album_norm, effective_album_artist_norm)
  VALUES (new.id, new.album_norm, new.effective_album_artist_norm);
END;
CREATE TRIGGER IF NOT EXISTS albums_ad AFTER DELETE ON albums BEGIN
  INSERT INTO albums_fts(albums_fts, rowid, album_norm, effective_album_artist_norm)
  VALUES('delete', old.id, old.album_norm, old.effective_album_artist_norm);
END;
CREATE TRIGGER IF NOT EXISTS albums_au AFTER UPDATE ON albums BEGIN
  INSERT INTO albums_fts(albums_fts, rowid, album_norm, effective_album_artist_norm)
  VALUES('delete', old.id, old.album_norm, old.effective_album_artist_norm);
  INSERT INTO albums_fts(rowid, album_norm, effective_album_artist_norm)
  VALUES (new.id, new.album_norm, new.effective_album_artist_norm);
END;

CREATE TRIGGER IF NOT EXISTS tracks_ai AFTER INSERT ON tracks BEGIN
  INSERT INTO tracks_fts(rowid, title_norm, artist_norm, composer_norm, conductor_norm, performer_norm, genre_norm)
  VALUES (new.id, new.title_norm, new.artist_norm, new.composer_norm, new.conductor_norm, new.performer_norm, new.genre_norm);
END;
CREATE TRIGGER IF NOT EXISTS tracks_ad AFTER DELETE ON tracks BEGIN
  INSERT INTO tracks_fts(tracks_fts, rowid, title_norm, artist_norm, composer_norm, conductor_norm, performer_norm, genre_norm)
  VALUES('delete', old.id, old.title_norm, old.artist_norm, old.composer_norm, old.conductor_norm, old.performer_norm, old.genre_norm);
END;
CREATE TRIGGER IF NOT EXISTS tracks_au AFTER UPDATE ON tracks BEGIN
  INSERT INTO tracks_fts(tracks_fts, rowid, title_norm, artist_norm, composer_norm, conductor_norm, performer_norm, genre_norm)
  VALUES('delete', old.id, old.title_norm, old.artist_norm, old.composer_norm, old.conductor_norm, old.performer_norm, old.genre_norm);
  INSERT INTO tracks_fts(rowid, title_norm, artist_norm, composer_norm, conductor_norm, performer_norm, genre_norm)
  VALUES (new.id, new.title_norm, new.artist_norm, new.composer_norm, new.conductor_norm, new.performer_norm, new.genre_norm);
END;
"#;

pub const REBUILD_ALBUMS_SQL: &'static str = "INSERT INTO albums_fts(albums_fts) VALUES('rebuild')";

pub const REBUILD_TRACKS_SQL: &'static str = "INSERT INTO tracks_fts(tracks_fts) VALUES('rebuild')";

/// A column that a table must have.
#[derive(Debug, Clone, Copy)]
pub struct ColumnDef {
    pub table: &'static str,
    pub column: &'static str,
    pub definition: &'static str,
}

/// A step of a migration. Each can be repeated without harm.
#[derive(Debug, Clone, Copy)]
pub enum Task {
    /// Run a script.
    Script(&'static str),
    /// Add a column where it is missing.
    Column(ColumnDef),
    /// Run a statement.
    Run(&'static str),
    /// Work out the search forms that are missing in a table.
    Backfill(Table),
    /// Make the library's functions known to the connection.
    RegisterFunctions,
    /// Record the version that the schema now has, with [`record_version`].
    RecordVersion,
}

/// A table with search forms.
#[derive(Debug, Clone, Copy, PartialEq, Eq, Structural)]
pub enum Table {
    Tracks,
    Albums,
}

/// A step of a migration as text.
pub enum TaskView {
    Script(Seq<char>),
    Column { table: Seq<char>, column: Seq<char>, definition: Seq<char> },
    Run(Seq<char>),
    Backfill(Table),
    RegisterFunctions,
    RecordVersion,
}

impl View for Task {
    type V = TaskView;

    open spec fn view(&self) -> TaskView {
        match self {
            Task::Script(s) => TaskView::Script(s@),
            Task::Column(c) => TaskView::Column {
                table: c.table@,
                column: c.column@,
                definition: c.definition@,
            },
            Task::Run(s) => TaskView::Run(s@),
            Task::Backfill(t) => TaskView::Backfill(*t),
            Task::RegisterFunctions => TaskView::RegisterFunctions,
            Task::RecordVersion => TaskView::RecordVersion,
        }
    }
}

pub open spec fn tasks_view(tasks: Seq<Task>) -> Seq<TaskView> {
    tasks.map_values(|t: Task| t@)
}

pub open spec fn column_task(table: Seq<char>, column: Seq<char>, definition: Seq<char>) -> TaskView {
    TaskView::Column { table, column, definition }
}

/// The columns that came after the tables, in the order in which they came.
pub open spec fn column_tasks() -> Seq<TaskView> {
    seq![
        column_task("tracks"@, "play_count"@, "INTEGER NOT NULL DEFAULT 0"@),
        column_task("tracks"@, "last_played_at"@, "INTEGER"@),
        column_task("albums"@, "last_added_at"@, "INTEGER"@),
        column_task("albums"@, "last_played_at"@, "INTEGER"@),
        column_task("tracks"@, "composer"@, "TEXT"@),
        column_task("tracks"@, "conductor"@, "TEXT"@),
        column_task("tracks"@, "performer"@, "TEXT"@),
        column_task("tracks"@, "year"@, "INTEGER"@),
        column_task("tracks"@, "title_norm"@, "TEXT"@),
        column_task("tracks"@, "artist_norm"@, "TEXT"@),
        column_task("tracks"@, "genre_norm"@, "TEXT"@),
        column_task("tracks"@, "composer_norm"@, "TEXT"@),
        column_task("tracks"@, "conductor_norm"@, "TEXT"@),
        column_task("tracks"@, "performer_norm"@, "TEXT"@),
        column_task("albums"@, "album_norm"@, "TEXT"@),
        column_task("albums"@, "effective_album_artist_norm"@, "TEXT"@),
        column_task("tracks"@, "rg_track_gain"@, "REAL"@),
        column_task("tracks"@, "rg_track_peak"@, "REAL"@),
        column_task("tracks"@, "rg_album_gain"@, "REAL"@),
        column_task("tracks"@, "rg_album_peak"@, "REAL"@),
        column_task("tracks"@, "artist_sort"@, "TEXT"@),
        column_task("tracks"@, "album_artist_sort"@, "TEXT"@),
        column_task("tracks"@, "album_sort"@, "TEXT"@),
        column_task("tracks"@, "title_sort"@, "TEXT"@),
        column_task("tracks"@, "composer_sort"@, "TEXT"@),
        column_task("tracks"@, "original_year"@, "INTEGER"@),
        column_task("tracks"@, "mb_recording_id"@, "TEXT"@),
        column_task("tracks"@, "mb_release_id"@, "TEXT"@),
        column_task("tracks"@, "mb_release_group_id"@, "TEXT"@),
        column_task("tracks"@, "mb_artist_id"@, "TEXT"@),
        column_task("tracks"@, "mb_release_artist_id"@, "TEXT"@),
    ]
}

/// The indexes on those columns.
pub open spec fn index_tasks() -> Seq<TaskView> {
    seq![
        TaskView::Run("CREATE INDEX IF NOT EXISTS idx_trk_played ON tracks(last_played_at DESC)"@),
        TaskView::Run("CREATE INDEX IF NOT EXISTS idx_alb_last_added ON albums(last_added_at DESC)"@),
        TaskView::Run("CREATE INDEX IF NOT EXISTS idx_alb_last_played ON albums(last_played_at DESC)"@),
        TaskView::Run("CREATE INDEX IF NOT EXISTS idx_trk_composer ON tracks(composer)"@),
        TaskView::Run("CREATE INDEX IF NOT EXISTS idx_trk_conductor ON tracks(conductor)"@),
        TaskView::Run("CREATE INDEX IF NOT EXISTS idx_trk_performer ON tracks(performer)"@),
        TaskView::Run("CREATE INDEX IF NOT EXISTS idx_trk_year ON tracks(year)"@),
    ]
}

/// Everything that a migration does, in order.
pub open spec fn migration() -> Seq<TaskView> {
    seq![TaskView::Script(SCHEMA_SQL@)] + column_tasks() + index_tasks() + seq![
        TaskView::Backfill(Table::Tracks),
        TaskView::Backfill(Table::Albums),
        TaskView::Script(FTS5_SQL@),
        TaskView::Run(REBUILD_ALBUMS_SQL@),
        TaskView::Run(REBUILD_TRACKS_SQL@),
        TaskView::RegisterFunctions,
        TaskView::RecordVersion,
    ]
}

fn column_of(table: &'static str, column: &'static str, definition: &'static str) -> (r: Task)
    ensures
        r@ == column_task(table@, column@, definition@),
{
    Task::Column(ColumnDef { table, column, definition })
}

fn columns() -> (r: Vec<Task>)
    ensures
        tasks_view(r@) == column_tasks(),
{
    let r = vec![
        column_of("tracks", "play_count", "INTEGER NOT NULL DEFAULT 0"),
        column_of("tracks", "last_played_at", "INTEGER"),
        column_of("albums", "last_added_at", "INTEGER"),
        column_of("albums", "last_played_at", "INTEGER"),
        column_of("tracks", "composer", "TEXT"),
        column_of("tracks", "conductor", "TEXT"),
        column_of("tracks", "performer", "TEXT"),
        column_of("tracks", "year", "INTEGER"),
        column_of("tracks", "title_norm", "TEXT"),
        column_of("tracks", "artist_norm", "TEXT"),
        column_of("tracks", "genre_norm", "TEXT"),
        column_of("tracks", "composer_norm", "TEXT"),
        column_of("tracks", "conductor_norm", "TEXT"),
        column_of("tracks", "performer_norm", "TEXT"),
        column_of("albums", "album_norm", "TEXT"),
        column_of("albums", "effective_album_artist_norm", "TEXT"),
        column_of("tracks", "rg_track_gain", "REAL"),
        column_of("tracks", "rg_track_peak", "REAL"),
        column_of("tracks", "rg_album_gain", "REAL"),
        column_of("tracks", "rg_album_peak", "REAL"),
        column_of("tracks", "artist_sort", "TEXT"),
        column_of("tracks", "album_artist_sort", "TEXT"),
        column_of("tracks", "album_sort", "TEXT"),
        column_of("tracks", "title_sort", "TEXT"),
        column_of("tracks", "composer_sort", "TEXT"),
        column_of("tracks", "original_year", "INTEGER"),
        column_of("tracks", "mb_recording_id", "TEXT"),
        column_of("tracks", "mb_release_id", "TEXT"),
        column_of("tracks", "mb_release_group_id", "TEXT"),
        column_of("tracks", "mb_artist_id", "TEXT"),
        column_of("tracks", "mb_release_artist_id", "TEXT"),
    ];
    assert(tasks_view(r@) =~= column_tasks());
    r
}

fn indexes() -> (r: Vec<Task>)
    ensures
        tasks_view(r@) == index_tasks(),
{
    let r = vec![
        Task::Run("CREATE INDEX IF NOT EXISTS idx_trk_played ON tracks(last_played_at DESC)"),
        Task::Run("CREATE INDEX IF NOT EXISTS idx_alb_last_added ON albums(last_added_at DESC)"),
        Task::Run("CREATE INDEX IF NOT EXISTS idx_alb_last_played ON albums(last_played_at DESC)"),
        Task::Run("CREATE INDEX IF NOT EXISTS idx_trk_composer ON tracks(composer)"),
        Task::Run("CREATE INDEX IF NOT EXISTS idx_trk_conductor ON tracks(conductor)"),
        Task::Run("CREATE INDEX IF NOT EXISTS idx_trk_performer ON tracks(performer)"),
        Task::Run("CREATE INDEX IF NOT EXISTS idx_trk_year ON tracks(year)"),
    ];
    assert(tasks_view(r@) =~= index_tasks());
    r
}

/// What a migration does: lay out the tables, add the columns and indexes that are
/// missing, work out missing search forms, index them, and record the version last,
/// so that a recorded version means a finished migration.
pub fn migrate() -> (r: Vec<Task>)
    ensures
        tasks_view(r@) == migration(),
{
    let mut out: Vec<Task> = vec![Task::Script(SCHEMA_SQL)];
    let mut more = columns();
    let ghost c = more@;
    out.append(&mut more);
    let mut last = indexes();
    let ghost x = last@;
    out.append(&mut last);
    let ghost before = out@;
    out.push(Task::Backfill(Table::Tracks));
    out.push(Task::Backfill(Table::Albums));
    out.push(Task::Script(FTS5_SQL));
    out.push(Task::Run(REBUILD_ALBUMS_SQL));
    out.push(Task::Run(REBUILD_TRACKS_SQL));
    out.push(Task::RegisterFunctions);
    out.push(Task::RecordVersion);
    proof {
        assert(tasks_view(before) =~= seq![TaskView::Script(SCHEMA_SQL@)] + tasks_view(c)
            + tasks_view(x));
        assert(tasks_view(out@) =~= migration());
    }
    out
}

/// The version is recorded once, after everything else.
pub proof fn version_is_recorded_last()
    ensures
        migration().last() is RecordVersion,
        forall|i: int|
            0 <= i < migration().len() - 1 ==> !(#[trigger] migration()[i] is RecordVersion),
{
    let n = migration().len();
    assert forall|i: int| 0 <= i < n - 1 implies !(#[trigger] migration()[i] is RecordVersion) by {
        assert(column_tasks().len() == 31);
        assert(index_tasks().len() == 7);
        if 1 <= i < 1 + column_tasks().len() {
            assert(migration()[i] == column_tasks()[i - 1]);
        } else if i >= 1 + column_tasks().len() && i < 1 + column_tasks().len()
            + index_tasks().len() {
            assert(migration()[i] == index_tasks()[i - 1 - column_tasks().len()]);
        }
    }
}

// ── Columns ──────────────────────────────────────────────────────────────

pub open spec fn table_info_stmt(table: Seq<char>) -> StatementView {
    plain_stmt("PRAGMA table_info("@ + table + ")"@)
}

pub open spec fn add_column_stmt(
    table: Seq<char>,
    column: Seq<char>,
    definition: Seq<char>,
) -> StatementView {
    plain_stmt("ALTER TABLE "@ + table + " ADD COLUMN "@ + column + " "@ + definition)
}

/// Whether one of the rows names the column.
pub open spec fn names_column(rows: Seq<Seq<Cell>>, column: Seq<char>) -> bool {
    exists|i: int| 0 <= i < rows.len() && text_at(#[trigger] rows[i], 1) == Some(column)
}

/// Look at the table; add the column where it is missing.
pub open spec fn ensure_column_step(
    table: Seq<char>,
    column: Seq<char>,
    definition: Seq<char>,
    answers: Seq<AnswerView>,
) -> StepView<()> {
    if answers.len() == 0 {
        StepView::Query(table_info_stmt(table))
    } else {
        match rows_of(answers[0]) {
            Err(e) => StepView::Done(Err(e)),
            Ok(rows) => if names_column(rows, column) {
                StepView::Done(Ok(()))
            } else if answers.len() == 1 {
                StepView::Execute(add_column_stmt(table, column, definition))
            } else {
                StepView::Done(ran(answers[1]))
            },
        }
    }
}

fn has_column(rows: &Vec<Row>, column: &str) -> (r: bool)
    ensures
        r == names_column(rows_view(rows@), column@),
{
    let ghost all = rows_view(rows@);
    let mut i: usize = 0;
    while i < rows.len()
        invariant
            i <= rows.len(),
            all == rows_view(rows@),
            forall|j: int| 0 <= j < i ==> text_at(#[trigger] all[j], 1) != Some(column@),
        decreases rows.len() - i,
    {
        assert(all[i as int] == cells(rows@[i as int]@));
        if let Some(name) = get_text(&rows[i], 1) {
            if text::same(name.as_str(), column) {
                assert(text_at(all[i as int], 1) == Some(column@));
                return true;
            }
        }
        i = i + 1;
    }
    false
}

/// Add a column where it is missing.
pub fn ensure_column(table: &str, column: &str, definition: &str, answers: &[Answer]) -> (r: Step<
    (),
>)
    ensures
        r@ == ensure_column_step(table@, column@, definition@, answers_view(answers@)),
{
    if answers.len() == 0 {
        return Step::Query(plain(text::cat3("PRAGMA table_info(", table, ")").as_str()));
    }
    match &answers[0] {
        Answer::Failed(e) => Step::Done(Err(Error::Sqlite(copy_error(e)))),
        Answer::Rows(rows, _) => {
            if has_column(rows, column) {
                return Step::Done(Ok(()));
            }
            if answers.len() == 1 {
                let head = text::cat3("ALTER TABLE ", table, " ADD COLUMN ");
                let head = text::cat3(head.as_str(), column, " ");
                return Step::Execute(plain(text::cat(head.as_str(), definition).as_str()));
            }
            Step::Done(check(&answers[1]))
        },
    }
}

// ── Search forms ─────────────────────────────────────────────────────────

impl Table {
    pub open spec fn table_name(self) -> Seq<char> {
        match self {
            Table::Tracks => "tracks"@,
            Table::Albums => "albums"@,
        }
    }

    /// The columns that are searched, each with the column of its search form.
    pub open spec fn searched(self) -> Seq<(Seq<char>, Seq<char>)> {
        match self {
            Table::Tracks => seq![
                ("title"@, "title_norm"@),
                ("artist"@, "artist_norm"@),
                ("genre"@, "genre_norm"@),
                ("composer"@, "composer_norm"@),
                ("conductor"@, "conductor_norm"@),
                ("performer"@, "performer_norm"@),
            ],
            Table::Albums => seq![
                ("album"@, "album_norm"@),
                ("effective_album_artist"@, "effective_album_artist_norm"@),
            ],
        }
    }

    fn name(self) -> (r: &'static str)
        ensures
            r@ == self.table_name(),
    {
        match self {
            Table::Tracks => "tracks",
            Table::Albums => "albums",
        }
    }

    fn pairs(self) -> (r: Vec<(&'static str, &'static str)>)
        ensures
            pairs_view(r@) == self.searched(),
            r@.len() <= 6,
    {
        match self {
            Table::Tracks => {
                let r = vec![
                    ("title", "title_norm"),
                    ("artist", "artist_norm"),
                    ("genre", "genre_norm"),
                    ("composer", "composer_norm"),
                    ("conductor", "conductor_norm"),
                    ("performer", "performer_norm"),
                ];
                assert(pairs_view(r@) =~= self.searched());
                r
            },
            Table::Albums => {
                let r = vec![
                    ("album", "album_norm"),
                    ("effective_album_artist", "effective_album_artist_norm"),
                ];
                assert(pairs_view(r@) =~= self.searched());
                r
            },
        }
    }
}

pub open spec fn pairs_view(v: Seq<(&'static str, &'static str)>) -> Seq<(Seq<char>, Seq<char>)> {
    v.map_values(|p: (&'static str, &'static str)| (p.0@, p.1@))
}

/// Rows in which a searched column has a value and its search form has none.
pub open spec fn missing_forms(pairs: Seq<(Seq<char>, Seq<char>)>) -> Seq<char> {
    joined(
        pairs.map_values(
            |p: (Seq<char>, Seq<char>)| "("@ + p.0 + " IS NOT NULL AND "@ + p.1 + " IS NULL)"@,
        ),
        " OR "@,
    )
}

pub open spec fn backfill_select(table: Seq<char>, pairs: Seq<(Seq<char>, Seq<char>)>) -> StatementView {
    plain_stmt(
        "SELECT id, "@ + joined(pairs.map_values(|p: (Seq<char>, Seq<char>)| p.0), ", "@)
            + " FROM "@ + table + " WHERE "@ + missing_forms(pairs),
    )
}

/// A search form that is there already stays.
pub open spec fn form_setter(dst: Seq<char>, n: int) -> Seq<char> {
    dst + " = COALESCE("@ + dst + ", ?"@ + text::decimal(n as nat) + ")"@
}

pub open spec fn backfill_update_sql(table: Seq<char>, pairs: Seq<(Seq<char>, Seq<char>)>) -> Seq<char> {
    "UPDATE "@ + table + " SET "@ + joined(
        pairs.map(|i: int, p: (Seq<char>, Seq<char>)| form_setter(p.1, i + 1)),
        ", "@,
    ) + " WHERE id = ?"@ + text::decimal((pairs.len() + 1) as nat)
}

/// The search form of a column's value.
pub open spec fn form_cell(v: Option<Seq<char>>) -> Cell {
    match v {
        Some(s) => Cell::Text(search_form(s)),
        None => Cell::Null,
    }
}

/// Whether a row holds an id and `n` texts or absences.
pub open spec fn row_readable(row: Seq<Cell>, n: int) -> bool {
    &&& integer_at(row, 0) is Some
    &&& forall|i: int| 0 <= i < n ==> opt_text_at(row, #[trigger] (i + 1)) is Some
}

/// The statement that fills in the missing search forms of a row.
pub open spec fn backfill_row(sql: Seq<char>, row: Seq<Cell>, n: nat) -> StatementView {
    StatementView {
        sql,
        params: Seq::new(n, |i: int| form_cell(opt_text_at(row, i + 1)->0)).push(
            Cell::Integer(integer_at(row, 0)->0),
        ),
    }
}

/// The statements that fill in the missing search forms of the rows.
pub open spec fn backfill_script(sql: Seq<char>, rows: Seq<Seq<Cell>>, n: nat) -> Seq<StatementView>
    decreases rows.len(),
{
    if rows.len() == 0 {
        Seq::empty()
    } else {
        let before = backfill_script(sql, rows.drop_last(), n);
        if row_readable(rows.last(), n as int) {
            before.push(backfill_row(sql, rows.last(), n))
        } else {
            before
        }
    }
}

fn select_sql(table: &str, pairs: &Vec<(&'static str, &'static str)>) -> (r: String)
    ensures
        plain_stmt(r@) == backfill_select(table@, pairs_view(pairs@)),
{
    let ghost p = pairs_view(pairs@);
    let ghost fmiss = |p: (Seq<char>, Seq<char>)| "("@ + p.0 + " IS NOT NULL AND "@ + p.1
        + " IS NULL)"@;
    let ghost fsrc = |p: (Seq<char>, Seq<char>)| p.0;
    let mut conditions: Vec<String> = Vec::new();
    let mut sources: Vec<String> = Vec::new();
    let mut i: usize = 0;
    while i < pairs.len()
        invariant
            i <= pairs.len(),
            p == pairs_view(pairs@),
            fmiss == (|p: (Seq<char>, Seq<char>)| "("@ + p.0 + " IS NOT NULL AND "@ + p.1
                + " IS NULL)"@),
            fsrc == (|p: (Seq<char>, Seq<char>)| p.0),
            texts(conditions@) =~= p.map_values(fmiss).take(i as int),
            texts(sources@) =~= p.map_values(fsrc).take(i as int),
        decreases pairs.len() - i,
    {
        let (src, dst) = pairs[i];
        assert(p[i as int] == (src@, dst@));
        let head = text::cat3("(", src, " IS NOT NULL AND ");
        let condition = text::cat3(head.as_str(), dst, " IS NULL)");
        let source = text::owned(src);
        proof {
            text::lemma_texts_push(conditions@, condition);
            text::lemma_texts_push(sources@, source);
            assert(p.map_values(fmiss)[i as int] == condition@);
            assert(p.map_values(fsrc)[i as int] == source@);
        }
        conditions.push(condition);
        sources.push(source);
        i = i + 1;
    }
    assert(p.map_values(fmiss).take(i as int) =~= p.map_values(fmiss));
    assert(p.map_values(fsrc).take(i as int) =~= p.map_values(fsrc));
    let head = text::cat3("SELECT id, ", text::join(&sources, ", ").as_str(), " FROM ");
    let head = text::cat3(head.as_str(), table, " WHERE ");
    text::cat(head.as_str(), text::join(&conditions, " OR ").as_str())
}

fn update_sql(table: &str, pairs: &Vec<(&'static str, &'static str)>) -> (r: String)
    requires
        pairs@.len() <= 6,
    ensures
        r@ == backfill_update_sql(table@, pairs_view(pairs@)),
{
    let ghost p = pairs_view(pairs@);
    let ghost f = |i: int, p: (Seq<char>, Seq<char>)| form_setter(p.1, i + 1);
    let mut setters: Vec<String> = Vec::new();
    let mut i: usize = 0;
    while i < pairs.len()
        invariant
            i <= pairs.len() <= 6,
            p == pairs_view(pairs@),
            f == (|i: int, p: (Seq<char>, Seq<char>)| form_setter(p.1, i + 1)),
            texts(setters@) =~= p.map(f).take(i as int),
        decreases pairs.len() - i,
    {
        let (_, dst) = pairs[i];
        assert(p[i as int].1 == dst@);
        let head = text::cat3(dst, " = COALESCE(", dst);
        let number = text::number_text((i + 1) as u64);
        let head = text::cat3(head.as_str(), ", ?", number.as_str());
        let setter = text::cat(head.as_str(), ")");
        proof {
            text::lemma_texts_push(setters@, setter);
            assert(p.map(f)[i as int] == setter@);
        }
        setters.push(setter);
        i = i + 1;
    }
    assert(p.map(f).take(i as int) =~= p.map(f));
    let head = text::cat3("UPDATE ", table, " SET ");
    let number = text::number_text((pairs.len() + 1) as u64);
    let head = text::cat3(head.as_str(), text::join(&setters, ", ").as_str(), " WHERE id = ?");
    text::cat(head.as_str(), number.as_str())
}

/// The parameters that fill in a row's search forms, where the row can be read.
fn row_params(row: &Row, n: usize) -> (r: Option<Vec<SqlValue>>)
    requires
        n <= 6,
    ensures
        r is Some == row_readable(cells(row@), n as int),
        r matches Some(v) ==> forall|sql: Seq<char>|
            #![trigger backfill_row(sql, cells(row@), n as nat)]
            cells(v@) == backfill_row(sql, cells(row@), n as nat).params,
{
    let ghost c = cells(row@);
    let id: i64 = match get_integer(row, 0) {
        Some(id) => id,
        None => return None,
    };
    let mut out: Vec<SqlValue> = Vec::new();
    let mut i: usize = 0;
    let ghost forms = Seq::new(n as nat, |i: int| form_cell(opt_text_at(c, i + 1)->0));
    while i < n
        invariant
            i <= n <= 6,
            c == cells(row@),
            forms == Seq::new(n as nat, |i: int| form_cell(opt_text_at(c, i + 1)->0)),
            forall|j: int| 0 <= j < i ==> opt_text_at(c, #[trigger] (j + 1)) is Some,
            cells(out@) =~= forms.take(i as int),
        decreases n - i,
    {
        let ghost before = out@;
        let value = match get_opt_text(row, i + 1) {
            None => {
                assert(opt_text_at(c, i as int + 1) is None);
                return None;
            },
            Some(None) => SqlValue::Null,
            Some(Some(s)) => SqlValue::Text(for_search(s.as_str())),
        };
        out.push(value);
        assert(cells(out@) =~= cells(before).push(value@));
        assert(forms[i as int] == value@);
        i = i + 1;
    }
    assert(forms.take(n as int) =~= forms);
    out.push(SqlValue::Integer(id));
    assert(cells(out@) =~= forms.push(Cell::Integer(id)));
    Some(out)
}

/// Ask which rows of a table lack a search form; the result is the statements that
/// fill them in.
pub fn backfill(table: Table, answers: &[Answer]) -> (r: Step<Vec<Statement>>)
    ensures
        step_as(r, |v: Vec<Statement>| statements_view(v@)) == asked_once(
            backfill_select(table.table_name(), table.searched()),
            answers_view(answers@),
            |a: AnswerView|
                match rows_of(a) {
                    Ok(rows) => Ok(
                        backfill_script(
                            backfill_update_sql(table.table_name(), table.searched()),
                            rows,
                            table.searched().len(),
                        ),
                    ),
                    Err(e) => Err(e),
                },
        ),
{
    let pairs = table.pairs();
    if answers.len() == 0 {
        return Step::Query(plain(select_sql(table.name(), &pairs).as_str()));
    }
    let rows = match &answers[0] {
        Answer::Failed(e) => return Step::Done(Err(Error::Sqlite(copy_error(e)))),
        Answer::Rows(rows, _) => rows,
    };
    let sql = update_sql(table.name(), &pairs);
    let n: usize = pairs.len();
    let ghost all = rows_view(rows@);
    assert(n == table.searched().len());
    let mut out: Vec<Statement> = Vec::new();
    let mut i: usize = 0;
    assert(statements_view(out@) =~= backfill_script(sql@, all.take(0), n as nat));
    while i < rows.len()
        invariant
            i <= rows.len(),
            n <= 6,
            all == rows_view(rows@),
            statements_view(out@) == backfill_script(sql@, all.take(i as int), n as nat),
        decreases rows.len() - i,
    {
        let ghost before = out@;
        assert(all[i as int] == cells(rows@[i as int]@));
        if let Some(params) = row_params(&rows[i], n) {
            let ghost stmt = backfill_row(sql@, all[i as int], n as nat);
            out.push(bound(sql.as_str(), params));
            assert(statements_view(out@) =~= statements_view(before).push(stmt));
        }
        i = i + 1;
        assert(all.take(i as int).drop_last() =~= all.take(i - 1));
    }
    assert(all.take(i as int) =~= all);
    Step::Done(Ok(out))
}

/// The statement that records the version of the schema.
pub open spec fn record_version_stmt() -> StatementView {
    state_kv::set_stmt("schema_version"@, text::decimal(SCHEMA_VERSION as nat))
}

/// Record the version of the schema: what [`Task::RecordVersion`] stands for.
pub fn record_version() -> (r: Statement)
    ensures
        r@ == record_version_stmt(),
{
    state_kv::set_statement("schema_version", text::number_text(SCHEMA_VERSION as u64).as_str())
}

// ── What a migration makes of a database ─────────────────────────────────

/// A row of a table with search forms: the searched values, the form of each where
/// there is one, and everything else.
pub struct SearchedRow {
    pub id: i64,
    pub sources: Seq<Option<Seq<char>>>,
    pub forms: Seq<Option<Seq<char>>>,
    pub rest: Seq<Cell>,
}

/// What a migration can change in a database: what its scripts have made, which columns
/// its tables have, the rows with search forms, and the recorded version.
pub struct Database {
    pub made: Set<Seq<char>>,
    pub columns: Set<(Seq<char>, Seq<char>)>,
    pub tracks: Seq<SearchedRow>,
    pub albums: Seq<SearchedRow>,
    pub version: Option<Seq<char>>,
}

/// Whether a row is among those that [`backfill_select`] asks for: some searched value
/// has no form.
pub open spec fn lacks_form(row: SearchedRow) -> bool {
    exists|i: int|
        #![trigger row.forms[i]]
        0 <= i < row.forms.len() && row.sources[i] is Some && row.forms[i] is None
}

/// What [`backfill_update_sql`] makes of a form: one that is there stays, and a missing
/// one is filled in from the parameter.
pub open spec fn coalesced(form: Option<Seq<char>>, param: Cell) -> Option<Seq<char>> {
    match (form, param) {
        (Some(f), _) => Some(f),
        (None, Cell::Text(s)) => Some(s),
        _ => None,
    }
}

/// What the back-fill makes of a row.
pub open spec fn filled(row: SearchedRow) -> SearchedRow {
    SearchedRow {
        forms: Seq::new(
            row.forms.len(),
            |i: int| coalesced(row.forms[i], form_cell(row.sources[i])),
        ),
        ..row
    }
}

pub open spec fn all_filled(rows: Seq<SearchedRow>) -> Seq<SearchedRow> {
    rows.map_values(|row: SearchedRow| filled(row))
}

/// What a step of a migration makes of a database. A script makes what is missing, or
/// makes an index anew from its table, so that it has been run is all that counts.
pub open spec fn after_task(db: Database, task: TaskView) -> Database {
    match task {
        TaskView::Script(sql) => Database { made: db.made.insert(sql), ..db },
        TaskView::Run(sql) => Database { made: db.made.insert(sql), ..db },
        TaskView::Column { table, column, .. } => Database {
            columns: db.columns.insert((table, column)),
            ..db
        },
        TaskView::Backfill(Table::Tracks) => Database { tracks: all_filled(db.tracks), ..db },
        TaskView::Backfill(Table::Albums) => Database { albums: all_filled(db.albums), ..db },
        TaskView::RegisterFunctions => db,
        TaskView::RecordVersion => Database {
            version: Some(text::decimal(SCHEMA_VERSION as nat)),
            ..db
        },
    }
}

/// What the steps make of a database, one after the other.
pub open spec fn after_tasks(db: Database, tasks: Seq<TaskView>) -> Database
    decreases tasks.len(),
{
    if tasks.len() == 0 {
        db
    } else {
        after_task(after_tasks(db, tasks.drop_last()), tasks.last())
    }
}

/// The statements of a back-fill do to a row what [`filled`] says: their parameters are
/// the forms of the row's searched values, then its id.
pub proof fn backfill_fills_rows(sql: Seq<char>, row: SearchedRow, read: Seq<Cell>)
    requires
        row.forms.len() == row.sources.len(),
        integer_at(read, 0) == Some(row.id),
        forall|i: int|
            0 <= i < row.sources.len() ==> opt_text_at(read, #[trigger] (i + 1)) == Some(
                row.sources[i],
            ),
    ensures
        backfill_row(sql, read, row.sources.len()).params.last() == Cell::Integer(row.id),
        forall|i: int|
            0 <= i < row.forms.len() ==> #[trigger] filled(row).forms[i] == coalesced(
                row.forms[i],
                backfill_row(sql, read, row.sources.len()).params[i],
            ),
{
    let params = backfill_row(sql, read, row.sources.len()).params;
    assert forall|i: int| 0 <= i < row.forms.len() implies #[trigger] filled(row).forms[i]
        == coalesced(row.forms[i], params[i]) by {
        assert(opt_text_at(read, i + 1) == Some(row.sources[i]));
        assert(params[i] == form_cell(row.sources[i]));
    }
}

/// A back-fill keeps every form that is there, gives every other searched value its
/// search form, and touches nothing else. It leaves no row for a second one, and does
/// nothing to a row that it does not ask for.
pub proof fn backfill_keeps_what_is_there(row: SearchedRow, i: int)
    requires
        row.forms.len() == row.sources.len(),
        0 <= i < row.forms.len(),
    ensures
        filled(row).id == row.id,
        filled(row).sources == row.sources,
        filled(row).rest == row.rest,
        row.forms[i] is Some ==> filled(row).forms[i] == row.forms[i],
        row.forms[i] is None ==> filled(row).forms[i] == match row.sources[i] {
            Some(s) => Some(search_form(s)),
            None => None,
        },
        !lacks_form(filled(row)),
        !lacks_form(row) ==> filled(row) == row,
{
    let f = filled(row);
    if lacks_form(f) {
        let k = choose|k: int|
            #![trigger f.forms[k]]
            0 <= k < f.forms.len() && f.sources[k] is Some && f.forms[k] is None;
        assert(f.forms[k] == coalesced(row.forms[k], form_cell(row.sources[k])));
    }
    if !lacks_form(row) {
        assert forall|k: int| 0 <= k < row.forms.len() implies #[trigger] f.forms[k]
            == row.forms[k] by {
            assert(!(row.sources[k] is Some && row.forms[k] is None));
        }
        assert(f.forms =~= row.forms);
    }
}

/// A table that has a column is left as it is.
pub proof fn present_columns_stay(
    table: Seq<char>,
    column: Seq<char>,
    definition: Seq<char>,
    answers: Seq<AnswerView>,
)
    requires
        answers.len() > 0,
        rows_of(answers[0]) matches Ok(rows) && names_column(rows, column),
    ensures
        ensure_column_step(table, column, definition, answers) == StepView::<()>::Done(Ok(())),
{
}

/// A migration records the version of the schema and fills in the search forms that are
/// missing; a second one changes nothing.
pub proof fn second_migration_changes_nothing(db: Database)
    ensures
        after_tasks(db, migration()).version == Some(text::decimal(SCHEMA_VERSION as nat)),
        after_tasks(db, migration()).tracks == all_filled(db.tracks),
        after_tasks(db, migration()).albums == all_filled(db.albums),
        after_tasks(after_tasks(db, migration()), migration()) == after_tasks(db, migration()),
{
    let once = after_tasks(db, migration());
    lemma_all_settled(db, migration());
    lemma_settled_stays(once, migration());
    version_is_recorded_last();
    lemma_rows_filled(db);
}

proof fn lemma_rows_filled(db: Database)
    ensures
        after_tasks(db, migration()).tracks == all_filled(db.tracks),
        after_tasks(db, migration()).albums == all_filled(db.albums),
{
    let head = seq![TaskView::Script(SCHEMA_SQL@)] + column_tasks() + index_tasks();
    assert(column_tasks().len() == 31);
    assert(index_tasks().len() == 7);
    assert forall|i: int| 0 <= i < head.len() implies !(#[trigger] head[i] is Backfill) by {
        if 1 <= i < 32 {
            assert(head[i] == column_tasks()[i - 1]);
        } else if i >= 32 {
            assert(head[i] == index_tasks()[i - 32]);
        }
    }
    lemma_rows_stay(db, head);
    let m = migration();
    let t6 = m.drop_last();
    let t5 = t6.drop_last();
    let t4 = t5.drop_last();
    let t3 = t4.drop_last();
    let t2 = t3.drop_last();
    let t1 = t2.drop_last();
    assert(t1.drop_last() =~= head);
    assert(t1.last() == TaskView::Backfill(Table::Tracks));
    assert(t2.last() == TaskView::Backfill(Table::Albums));
    assert(t3.last() is Script && t4.last() is Run && t5.last() is Run);
    assert(t6.last() is RegisterFunctions && m.last() is RecordVersion);
    assert(after_tasks(db, t1) == after_task(after_tasks(db, head), t1.last()));
    assert(after_tasks(db, t2) == after_task(after_tasks(db, t1), t2.last()));
    assert(after_tasks(db, t3) == after_task(after_tasks(db, t2), t3.last()));
    assert(after_tasks(db, t4) == after_task(after_tasks(db, t3), t4.last()));
    assert(after_tasks(db, t5) == after_task(after_tasks(db, t4), t5.last()));
    assert(after_tasks(db, t6) == after_task(after_tasks(db, t5), t6.last()));
}

proof fn lemma_rows_stay(db: Database, tasks: Seq<TaskView>)
    requires
        forall|i: int| 0 <= i < tasks.len() ==> !(#[trigger] tasks[i] is Backfill),
    ensures
        after_tasks(db, tasks).tracks == db.tracks,
        after_tasks(db, tasks).albums == db.albums,
    decreases tasks.len(),
{
    if tasks.len() > 0 {
        let front = tasks.drop_last();
        assert forall|i: int| 0 <= i < front.len() implies !(#[trigger] front[i] is Backfill) by {
            assert(front[i] == tasks[i]);
        }
        lemma_rows_stay(db, front);
        assert(!(tasks[tasks.len() - 1] is Backfill));
    }
}

/// Whether a step finds nothing left to do.
spec fn settled(db: Database, task: TaskView) -> bool {
    after_task(db, task) == db
}

proof fn lemma_filled_twice(rows: Seq<SearchedRow>)
    ensures
        all_filled(all_filled(rows)) == all_filled(rows),
{
    let once = all_filled(rows);
    assert forall|k: int| 0 <= k < rows.len() implies #[trigger] all_filled(once)[k] == once[k] by {
        let row = rows[k];
        assert(once[k] == filled(row));
        assert(filled(filled(row)).forms =~= filled(row).forms);
    }
    assert(all_filled(once) =~= once);
}

proof fn lemma_task_settles(db: Database, task: TaskView)
    ensures
        settled(after_task(db, task), task),
{
    lemma_filled_twice(db.tracks);
    lemma_filled_twice(db.albums);
    let once = after_task(db, task);
    match task {
        TaskView::Script(sql) => {
            assert(once.made.insert(sql) =~= once.made);
        },
        TaskView::Run(sql) => {
            assert(once.made.insert(sql) =~= once.made);
        },
        TaskView::Column { table, column, .. } => {
            assert(once.columns.insert((table, column)) =~= once.columns);
        },
        _ => {},
    }
}

proof fn lemma_task_stays_settled(db: Database, task: TaskView, other: TaskView)
    requires
        settled(db, task),
    ensures
        settled(after_task(db, other), task),
{
    lemma_filled_twice(db.tracks);
    lemma_filled_twice(db.albums);
    let then = after_task(db, other);
    match task {
        TaskView::Script(sql) => {
            assert(db.made.contains(sql));
            assert(then.made.insert(sql) =~= then.made);
        },
        TaskView::Run(sql) => {
            assert(db.made.contains(sql));
            assert(then.made.insert(sql) =~= then.made);
        },
        TaskView::Column { table, column, .. } => {
            assert(db.columns.contains((table, column)));
            assert(then.columns.insert((table, column)) =~= then.columns);
        },
        _ => {},
    }
}

proof fn lemma_all_settled(db: Database, tasks: Seq<TaskView>)
    ensures
        forall|i: int| 0 <= i < tasks.len() ==> settled(after_tasks(db, tasks), #[trigger] tasks[i]),
    decreases tasks.len(),
{
    if tasks.len() > 0 {
        let front = tasks.drop_last();
        let before = after_tasks(db, front);
        lemma_all_settled(db, front);
        lemma_task_settles(before, tasks.last());
        assert forall|i: int| 0 <= i < tasks.len() implies settled(
            after_tasks(db, tasks),
            #[trigger] tasks[i],
        ) by {
            if i < front.len() {
                assert(front[i] == tasks[i]);
                lemma_task_stays_settled(before, front[i], tasks.last());
            }
        }
    }
}

proof fn lemma_settled_stays(db: Database, tasks: Seq<TaskView>)
    requires
        forall|i: int| 0 <= i < tasks.len() ==> settled(db, #[trigger] tasks[i]),
    ensures
        after_tasks(db, tasks) == db,
    decreases tasks.len(),
{
    if tasks.len() > 0 {
        let front = tasks.drop_last();
        assert forall|i: int| 0 <= i < front.len() implies settled(db, #[trigger] front[i]) by {
            assert(front[i] == tasks[i]);
        }
        lemma_settled_stays(db, front);
        assert(settled(db, tasks[tasks.len() - 1]));
    }
}

// ── Version ──────────────────────────────────────────────────────────────

pub const STATE_TABLE_SQL: &'static str =
    "SELECT 1 FROM sqlite_master WHERE type='table' AND name='server_state'";

/// Why a database with a newer schema is refused.
pub open spec fn newer_schema_message(recorded: nat) -> Seq<char> {
    "DB schema_version "@ + text::decimal(recorded) + " is newer than this binary's SCHEMA_VERSION "@
        + text::decimal(SCHEMA_VERSION as nat)
        + "; refusing to start (would silently corrupt data on downgrade)"@
}

/// What a recorded version means for this program.
pub open spec fn version_verdict(recorded: Option<Seq<char>>) -> Result<(), ErrorView> {
    match recorded {
        Some(s) => match parsed_number(s, u32::MAX as nat) {
            Some(v) => if v > SCHEMA_VERSION {
                Err(ErrorView::Sqlite(SqliteErrorView::Failure(newer_schema_message(v))))
            } else {
                Ok(())
            },
            None => Ok(()),
        },
        None => Ok(()),
    }
}

/// A database without the state table is new, and one without a version old; both
/// will be migrated.
pub open spec fn compatible_step(answers: Seq<AnswerView>) -> StepView<()> {
    if answers.len() == 0 {
        StepView::Query(plain_stmt(STATE_TABLE_SQL@))
    } else if answers[0] is Failed && !(answers[0]->Failed_0 is QueryReturnedNoRows) {
        StepView::Done(Err(ErrorView::Sqlite(answers[0]->Failed_0)))
    } else if answers[0] is Failed || answers[0]->Rows_0.len() == 0 {
        StepView::Done(Ok(()))
    } else if answers.len() == 1 {
        StepView::Query(state_kv::get_stmt("schema_version"@))
    } else {
        match crate::db::query::found_text(answers[1]) {
            Err(e) => StepView::Done(Err(e)),
            Ok(recorded) => StepView::Done(version_verdict(recorded)),
        }
    }
}

fn judge_version(recorded: &Option<String>) -> (r: Result<(), Error>)
    ensures
        r is Ok == version_verdict(text::opt_text(*recorded)) is Ok,
        r matches Err(e) ==> version_verdict(text::opt_text(*recorded)) == Err::<(), ErrorView>(e@),
{
    match recorded {
        Some(s) => match text::parse_number(s.as_str(), u32::MAX as u64) {
            Some(v) => {
                if v > SCHEMA_VERSION as u64 {
                    let head = text::cat3(
                        "DB schema_version ",
                        text::number_text(v).as_str(),
                        " is newer than this binary's SCHEMA_VERSION ",
                    );
                    let message = text::cat3(
                        head.as_str(),
                        text::number_text(SCHEMA_VERSION as u64).as_str(),
                        "; refusing to start (would silently corrupt data on downgrade)",
                    );
                    Err(Error::Sqlite(SqliteError::Failure(message)))
                } else {
                    Ok(())
                }
            },
            None => Ok(()),
        },
        None => Ok(()),
    }
}

/// Refuse a database that a newer program has laid out. To be asked before any
/// migration, which would record this program's version.
pub fn ensure_compatible_or_err(answers: &[Answer]) -> (r: Step<()>)
    ensures
        r@ == compatible_step(answers_view(answers@)),
{
    if answers.len() == 0 {
        return Step::Query(plain(STATE_TABLE_SQL));
    }
    let exists = match &answers[0] {
        Answer::Failed(e) => match e {
            SqliteError::QueryReturnedNoRows => false,
            _ => return Step::Done(Err(Error::Sqlite(copy_error(e)))),
        },
        Answer::Rows(rows, _) => rows.len() > 0,
    };
    if !exists {
        return Step::Done(Ok(()));
    }
    if answers.len() == 1 {
        let none: Vec<Answer> = Vec::new();
        assert(answers_view(none@).len() == 0);
        return match state_kv::get("schema_version", none.as_slice()) {
            Step::Query(s) => Step::Query(s),
            _ => Step::Done(Ok(())),
        };
    }
    match crate::db::query::optional_text(&answers[1]) {
        Err(e) => Step::Done(Err(e)),
        Ok(recorded) => Step::Done(judge_version(&recorded)),
    }
}

} // verus!
