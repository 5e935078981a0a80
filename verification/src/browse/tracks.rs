//! Tracks: one by itself, those of an album and those of a disc.
//!
//! An album on several discs holds a container for each disc, and the tracks stand
//! under those; any other album holds its tracks. Never both: a player that takes the
//! items of a list and goes into its containers would take every track twice.

use vstd::prelude::*;
use vstd::slice::slice_subrange;

use crate::browse::artist_tracks::tracks_listed;
use crate::browse::listing::CONTAINER_CLASS;
use crate::browse::{
    art_uri, art_uri_text, counted, counted_step, first_row, only_containers, only_items,
    page_statement, page_stmt, row_of, BrowseContext, ChildrenResult, ChildrenView, Counted,
    DidlOutput, DidlView,
};
use crate::db::query::{
    answers_view, bound, cells, copy_error, get_integer, get_opt_integer, get_opt_text, get_text,
    integer_at, misread, misread_error, opt_integer_at, opt_text_at, rows_of, rows_view, scalar,
    scalar_of, text_at, Answer, AnswerView, Cell, Row, SqlValue, Statement, StatementView, Step,
    StepView, Wanted,
};
use crate::error::{lookup_error, Error, ErrorView};
use crate::text::{self, decimal_int, opt_text};
use crate::upnp::didl::{
    authors_view, containers_view, items_view, Author, AuthorView, Container, ContainerView, Item,
    ItemView, Resource, ResourceView,
};
use crate::upnp::object_id::{encode, encoded, ObjectId, ObjectIdView};

verus! {

// ── A track's row ────────────────────────────────────────────────────────

/// What the database says of a track.
#[derive(Debug)]
pub struct TrackRow {
    pub album_id: i64,
    pub title: Option<String>,
    pub artist: Option<String>,
    pub genre: Option<String>,
    pub track_num: Option<i64>,
    pub disc_num: Option<i64>,
    /// Whether the album is on several discs.
    pub multi_disc: bool,
    pub duration_ms: Option<i64>,
    pub sample_rate: Option<i64>,
    pub bit_depth: Option<i64>,
    pub channels: Option<i64>,
    pub bitrate: Option<i64>,
    pub mime_type: String,
    pub file_size: i64,
    pub album: String,
    pub composer: Option<String>,
    pub conductor: Option<String>,
    pub performer: Option<String>,
}

/// What the database says of a track, as text.
pub struct TrackRowView {
    pub album_id: i64,
    pub title: Option<Seq<char>>,
    pub artist: Option<Seq<char>>,
    pub genre: Option<Seq<char>>,
    pub track_num: Option<i64>,
    pub disc_num: Option<i64>,
    pub multi_disc: bool,
    pub duration_ms: Option<i64>,
    pub sample_rate: Option<i64>,
    pub bit_depth: Option<i64>,
    pub channels: Option<i64>,
    pub bitrate: Option<i64>,
    pub mime_type: Seq<char>,
    pub file_size: i64,
    pub album: Seq<char>,
    pub composer: Option<Seq<char>>,
    pub conductor: Option<Seq<char>>,
    pub performer: Option<Seq<char>>,
}

impl View for TrackRow {
    type V = TrackRowView;

    open spec fn view(&self) -> TrackRowView {
        TrackRowView {
            album_id: self.album_id,
            title: opt_text(self.title),
            artist: opt_text(self.artist),
            genre: opt_text(self.genre),
            track_num: self.track_num,
            disc_num: self.disc_num,
            multi_disc: self.multi_disc,
            duration_ms: self.duration_ms,
            sample_rate: self.sample_rate,
            bit_depth: self.bit_depth,
            channels: self.channels,
            bitrate: self.bitrate,
            mime_type: self.mime_type@,
            file_size: self.file_size,
            album: self.album@,
            composer: opt_text(self.composer),
            conductor: opt_text(self.conductor),
            performer: opt_text(self.performer),
        }
    }
}

/// Whether a row says if the album is on several discs, or what it is known to be.
#[derive(Debug, Clone, Copy, PartialEq, Eq, Structural)]
pub enum RowLayout {
    /// The row says so, in a column after the album's title.
    Told,
    OneDisc,
    SeveralDiscs,
}

/// A track in the columns from `at` on, where each of them holds what it should.
pub open spec fn track_at(row: Seq<Cell>, at: int, layout: RowLayout) -> Option<TrackRowView> {
    let people = if layout is Told {
        at + 15
    } else {
        at + 14
    };
    if {
        &&& integer_at(row, at) is Some
        &&& opt_text_at(row, at + 1) is Some
        &&& opt_text_at(row, at + 2) is Some
        &&& opt_text_at(row, at + 3) is Some
        &&& opt_integer_at(row, at + 4) is Some
        &&& opt_integer_at(row, at + 5) is Some
        &&& opt_integer_at(row, at + 6) is Some
        &&& opt_integer_at(row, at + 7) is Some
        &&& opt_integer_at(row, at + 8) is Some
        &&& opt_integer_at(row, at + 9) is Some
        &&& opt_integer_at(row, at + 10) is Some
        &&& text_at(row, at + 11) is Some
        &&& integer_at(row, at + 12) is Some
        &&& text_at(row, at + 13) is Some
        &&& layout is Told ==> integer_at(row, at + 14) is Some
        &&& opt_text_at(row, people) is Some
        &&& opt_text_at(row, people + 1) is Some
        &&& opt_text_at(row, people + 2) is Some
    } {
        Some(
            TrackRowView {
                album_id: integer_at(row, at)->0,
                title: opt_text_at(row, at + 1)->0,
                artist: opt_text_at(row, at + 2)->0,
                genre: opt_text_at(row, at + 3)->0,
                track_num: opt_integer_at(row, at + 4)->0,
                disc_num: opt_integer_at(row, at + 5)->0,
                multi_disc: match layout {
                    RowLayout::Told => integer_at(row, at + 14)->0 != 0,
                    RowLayout::OneDisc => false,
                    RowLayout::SeveralDiscs => true,
                },
                duration_ms: opt_integer_at(row, at + 6)->0,
                sample_rate: opt_integer_at(row, at + 7)->0,
                bit_depth: opt_integer_at(row, at + 8)->0,
                channels: opt_integer_at(row, at + 9)->0,
                bitrate: opt_integer_at(row, at + 10)->0,
                mime_type: text_at(row, at + 11)->0,
                file_size: integer_at(row, at + 12)->0,
                album: text_at(row, at + 13)->0,
                composer: opt_text_at(row, people)->0,
                conductor: opt_text_at(row, people + 1)->0,
                performer: opt_text_at(row, people + 2)->0,
            },
        )
    } else {
        None
    }
}

pub open spec fn opt_row(r: Option<TrackRow>) -> Option<TrackRowView> {
    match r {
        Some(t) => Some(t@),
        None => None,
    }
}

#[verifier::rlimit(40)]
pub fn read_track(row: &Row, at: usize, layout: RowLayout) -> (r: Option<TrackRow>)
    requires
        at <= 1,
    ensures
        opt_row(r) == track_at(cells(row@), at as int, layout),
{
    let people: usize = if layout == RowLayout::Told { at + 15 } else { at + 14 };
    let multi_disc = match layout {
        RowLayout::Told => match get_integer(row, at + 14) {
            Some(n) => n != 0,
            None => return None,
        },
        RowLayout::OneDisc => false,
        RowLayout::SeveralDiscs => true,
    };
    match (
        get_integer(row, at),
        get_opt_text(row, at + 1),
        get_opt_text(row, at + 2),
        get_opt_text(row, at + 3),
        get_opt_integer(row, at + 4),
        get_opt_integer(row, at + 5),
        get_opt_integer(row, at + 6),
        get_opt_integer(row, at + 7),
    ) {
        (
            Some(album_id),
            Some(title),
            Some(artist),
            Some(genre),
            Some(track_num),
            Some(disc_num),
            Some(duration_ms),
            Some(sample_rate),
        ) => match (
            get_opt_integer(row, at + 8),
            get_opt_integer(row, at + 9),
            get_opt_integer(row, at + 10),
            get_text(row, at + 11),
            get_integer(row, at + 12),
            get_text(row, at + 13),
            get_opt_text(row, people),
            get_opt_text(row, people + 1),
            get_opt_text(row, people + 2),
        ) {
            (
                Some(bit_depth),
                Some(channels),
                Some(bitrate),
                Some(mime_type),
                Some(file_size),
                Some(album),
                Some(composer),
                Some(conductor),
                Some(performer),
            ) => Some(
                TrackRow {
                    album_id,
                    title,
                    artist,
                    genre,
                    track_num,
                    disc_num,
                    multi_disc,
                    duration_ms,
                    sample_rate,
                    bit_depth,
                    channels,
                    bitrate,
                    mime_type,
                    file_size,
                    album,
                    composer,
                    conductor,
                    performer,
                },
            ),
            _ => None,
        },
        _ => None,
    }
}

// ── A track's item ───────────────────────────────────────────────────────

/// Someone with a role, where there is one.
pub open spec fn author(role: Seq<char>, name: Option<Seq<char>>) -> Seq<AuthorView> {
    match name {
        Some(n) => if n.len() > 0 {
            seq![AuthorView { role, name: n }]
        } else {
            Seq::empty()
        },
        None => Seq::empty(),
    }
}

/// The people of a track other than its artist.
pub open spec fn authors_of(row: TrackRowView) -> Seq<AuthorView> {
    author("Composer"@, row.composer) + author("Conductor"@, row.conductor) + author(
        "Performer"@,
        row.performer,
    )
}

pub open spec fn as_u32(n: Option<i64>) -> Option<u32> {
    match n {
        Some(x) => Some(x as u32),
        None => None,
    }
}

pub open spec fn as_u8(n: Option<i64>) -> Option<u8> {
    match n {
        Some(x) => Some(x as u8),
        None => None,
    }
}

pub open spec fn as_u64(n: Option<i64>) -> Option<u64> {
    match n {
        Some(x) => Some(x as u64),
        None => None,
    }
}

/// The number of the disc, where the album is on several.
pub open spec fn shown_disc(row: TrackRowView) -> Option<u32> {
    match row.disc_num {
        Some(n) => if row.multi_disc && n > 0 {
            Some(n as u32)
        } else {
            None
        },
        None => None,
    }
}

/// The item of a track.
pub open spec fn track_item(
    art_base: Seq<char>,
    stream_base: Seq<char>,
    track_id: i64,
    row: TrackRowView,
) -> ItemView {
    ItemView {
        id: encoded(ObjectIdView::Track(track_id)),
        parent_id: encoded(ObjectIdView::Album(row.album_id)),
        title: match row.title {
            Some(t) => t,
            None => "Unknown"@,
        },
        upnp_class: "object.item.audioItem.musicTrack"@,
        artist: row.artist,
        album: Some(row.album),
        genre: row.genre,
        original_track_number: as_u32(row.track_num),
        original_disc_number: shown_disc(row),
        authors: authors_of(row),
        album_art_uri: Some(art_uri(art_base, row.album_id)),
        res: ResourceView {
            url: stream_base + "/"@ + decimal_int(track_id as int),
            protocol_info: "http-get:*:"@ + row.mime_type + ":*"@,
            size: row.file_size as u64,
            duration_ms: as_u64(row.duration_ms),
            bitrate: as_u32(row.bitrate),
            sample_frequency: as_u32(row.sample_rate),
            bits_per_sample: as_u8(row.bit_depth),
            nr_audio_channels: as_u8(row.channels),
        },
    }
}

fn cast_u32(n: Option<i64>) -> (r: Option<u32>)
    ensures
        r == as_u32(n),
{
    match n {
        Some(x) => Some(x as u32),
        None => None,
    }
}

fn cast_u8(n: Option<i64>) -> (r: Option<u8>)
    ensures
        r == as_u8(n),
{
    match n {
        Some(x) => Some(x as u8),
        None => None,
    }
}

fn cast_u64(n: Option<i64>) -> (r: Option<u64>)
    ensures
        r == as_u64(n),
{
    match n {
        Some(x) => Some(x as u64),
        None => None,
    }
}

fn add_author(authors: &mut Vec<Author>, role: &'static str, name: &Option<String>)
    ensures
        authors_view(final(authors)@) == authors_view(old(authors)@) + author(
            role@,
            opt_text(*name),
        ),
{
    let ghost before = authors@;
    match name {
        Some(n) => {
            if !n.as_str().is_empty() {
                authors.push(Author { role, name: text::owned(n.as_str()) });
            }
        },
        None => {},
    }
    assert(authors_view(authors@) =~= authors_view(before) + author(role@, opt_text(*name)));
}

/// The item of a track.
pub fn build_track_item(ctx: &BrowseContext, track_id: i64, row: TrackRow) -> (r: Item)
    ensures
        r@ == track_item(ctx.art_base_url@, ctx.stream_base_url@, track_id, row@),
{
    let ghost seen = row@;
    let mut authors: Vec<Author> = Vec::new();
    assert(authors_view(authors@) =~= Seq::empty());
    add_author(&mut authors, "Composer", &row.composer);
    add_author(&mut authors, "Conductor", &row.conductor);
    add_author(&mut authors, "Performer", &row.performer);
    assert(authors_view(authors@) =~= authors_of(seen));
    let original_disc_number: Option<u32> = match row.disc_num {
        Some(n) => if row.multi_disc && n > 0 { Some(n as u32) } else { None },
        None => None,
    };
    let title = match row.title {
        Some(t) => t,
        None => text::owned("Unknown"),
    };
    Item {
        id: encode(&ObjectId::Track(track_id)),
        parent_id: encode(&ObjectId::Album(row.album_id)),
        title,
        upnp_class: "object.item.audioItem.musicTrack",
        artist: row.artist,
        album: Some(row.album),
        genre: row.genre,
        original_track_number: cast_u32(row.track_num),
        original_disc_number,
        authors,
        album_art_uri: Some(art_uri_text(ctx.art_base_url, row.album_id)),
        res: Resource {
            url: text::cat3(ctx.stream_base_url, "/", text::integer_text(track_id).as_str()),
            protocol_info: text::cat3("http-get:*:", row.mime_type.as_str(), ":*"),
            size: row.file_size as u64,
            duration_ms: cast_u64(row.duration_ms),
            bitrate: cast_u32(row.bitrate),
            sample_frequency: cast_u32(row.sample_rate),
            bits_per_sample: cast_u8(row.bit_depth),
            nr_audio_channels: cast_u8(row.channels),
        },
    }
}

/// The item of a row that begins with the track's id.
pub open spec fn item_at(
    art_base: Seq<char>,
    stream_base: Seq<char>,
    layout: RowLayout,
    row: Seq<Cell>,
) -> Option<ItemView> {
    match (integer_at(row, 0), track_at(row, 1, layout)) {
        (Some(id), Some(track)) => Some(track_item(art_base, stream_base, id, track)),
        _ => None,
    }
}

/// The items of the rows. Rows of another form are passed over.
pub open spec fn items_at(
    art_base: Seq<char>,
    stream_base: Seq<char>,
    layout: RowLayout,
    rows: Seq<Seq<Cell>>,
) -> Seq<ItemView> {
    rows.filter_map(|row: Seq<Cell>| item_at(art_base, stream_base, layout, row))
}

/// The items of the rows.
pub fn make_items(ctx: &BrowseContext, layout: RowLayout, rows: &Vec<Row>) -> (r: Vec<Item>)
    ensures
        items_view(r@) == items_at(
            ctx.art_base_url@,
            ctx.stream_base_url@,
            layout,
            rows_view(rows@),
        ),
{
    let ghost art = ctx.art_base_url@;
    let ghost stream = ctx.stream_base_url@;
    let ghost f = |row: Seq<Cell>| item_at(art, stream, layout, row);
    let ghost all = rows_view(rows@);
    let mut out: Vec<Item> = Vec::new();
    let mut i: usize = 0;
    proof {
        reveal(Seq::filter_map);
    }
    assert(items_view(out@) =~= all.take(0).filter_map(f));
    while i < rows.len()
        invariant
            i <= rows.len(),
            all == rows_view(rows@),
            art == ctx.art_base_url@,
            stream == ctx.stream_base_url@,
            f == (|row: Seq<Cell>| item_at(art, stream, layout, row)),
            items_view(out@) == all.take(i as int).filter_map(f),
        decreases rows.len() - i,
    {
        broadcast use Seq::lemma_filter_map_take_succ;

        let ghost before = out@;
        assert(all[i as int] == cells(rows@[i as int]@));
        match (get_integer(&rows[i], 0), read_track(&rows[i], 1, layout)) {
            (Some(id), Some(track)) => {
                let item = build_track_item(ctx, id, track);
                out.push(item);
                assert(items_view(out@) =~= items_view(before).push(item@));
            },
            _ => {},
        }
        i = i + 1;
        assert(items_view(out@) =~= all.take(i as int).filter_map(f));
    }
    assert(all.take(i as int) =~= all);
    out
}

// ── One track ────────────────────────────────────────────────────────────

pub const TRACK_SQL: &'static str =
    "SELECT t.album_id, t.title, t.artist, t.genre, t.track_num, t.disc_num, \
    t.duration_ms, t.sample_rate, t.bit_depth, t.channels, \
    t.bitrate, t.mime_type, t.file_size, a.album, \
    (SELECT IFNULL(MAX(disc_num), 0) FROM tracks WHERE album_id = t.album_id) > 1, \
    t.composer, t.conductor, t.performer \
    FROM tracks t JOIN albums a ON t.album_id = a.id \
    WHERE t.id = ?1";

pub open spec fn track_stmt(track_id: i64) -> StatementView {
    StatementView { sql: TRACK_SQL@, params: seq![Cell::Integer(track_id)] }
}

/// What the columns of a track that is told its layout hold.
pub open spec fn track_columns() -> Seq<Wanted> {
    seq![
        Wanted::Integer,
        Wanted::OptText,
        Wanted::OptText,
        Wanted::OptText,
        Wanted::OptInteger,
        Wanted::OptInteger,
        Wanted::OptInteger,
        Wanted::OptInteger,
        Wanted::OptInteger,
        Wanted::OptInteger,
        Wanted::OptInteger,
        Wanted::Text,
        Wanted::Integer,
        Wanted::Text,
        Wanted::Integer,
        Wanted::OptText,
        Wanted::OptText,
        Wanted::OptText,
    ]
}

fn wanted_of_track() -> (r: Vec<Wanted>)
    ensures
        r@ == track_columns(),
{
    vec![
        Wanted::Integer,
        Wanted::OptText,
        Wanted::OptText,
        Wanted::OptText,
        Wanted::OptInteger,
        Wanted::OptInteger,
        Wanted::OptInteger,
        Wanted::OptInteger,
        Wanted::OptInteger,
        Wanted::OptInteger,
        Wanted::OptInteger,
        Wanted::Text,
        Wanted::Integer,
        Wanted::Text,
        Wanted::Integer,
        Wanted::OptText,
        Wanted::OptText,
        Wanted::OptText,
    ]
}

/// The track in an answer, or why it is not to be had.
pub open spec fn found_track(
    art_base: Seq<char>,
    stream_base: Seq<char>,
    track_id: i64,
    a: AnswerView,
) -> Result<DidlView, ErrorView> {
    match row_of(a) {
        Err(e) => Err(lookup_error(e, "track"@, decimal_int(track_id as int))),
        Ok(row) => match track_at(row, 0, RowLayout::Told) {
            Some(track) => Ok(
                only_items(seq![track_item(art_base, stream_base, track_id, track)]),
            ),
            None => Err(ErrorView::Sqlite(misread(a, track_columns()))),
        },
    }
}

/// A track by itself. Where there is none with the id, it is not found.
pub fn track_metadata(ctx: &BrowseContext, track_id: i64, answers: &[Answer]) -> (r: Step<
    DidlOutput,
>)
    ensures
        r@ == crate::db::query::asked_once(
            track_stmt(track_id),
            answers_view(answers@),
            |a: AnswerView| found_track(ctx.art_base_url@, ctx.stream_base_url@, track_id, a),
        ),
{
    if answers.len() == 0 {
        let params = vec![SqlValue::Integer(track_id)];
        assert(cells(params@) =~= seq![Cell::Integer(track_id)]);
        return Step::Query(bound(TRACK_SQL, params));
    }
    match first_row(&answers[0]) {
        Err(e) => Step::Done(
            Err(Error::sqlite_or_not_found(e, "track", text::integer_text(track_id))),
        ),
        Ok(row) => match read_track(row, 0, RowLayout::Told) {
            None => Step::Done(
                Err(Error::Sqlite(misread_error(&answers[0], &wanted_of_track()))),
            ),
            Some(track) => {
                let item = build_track_item(ctx, track_id, track);
                let items = vec![item];
                assert(items_view(items@) =~= seq![item@]);
                Step::Done(Ok(DidlOutput::of_items(items)))
            },
        },
    }
}

// ── Discs ────────────────────────────────────────────────────────────────

pub const DISC_LAYOUT_SQL: &'static str = "SELECT COUNT(DISTINCT disc_num), \
    IFNULL(SUM(CASE WHEN disc_num IS NULL OR disc_num <= 0 THEN 1 ELSE 0 END), 0) \
    FROM tracks WHERE album_id = ?1";

pub const DISCS_SQL: &'static str = "SELECT disc_num, COUNT(*) FROM tracks \
    WHERE album_id = ?1 AND disc_num IS NOT NULL AND disc_num > 0 \
    GROUP BY disc_num ORDER BY disc_num \
    LIMIT ?2 OFFSET ?3";

pub const ALBUM_TRACK_COUNT_SQL: &'static str = "SELECT COUNT(*) FROM tracks WHERE album_id = ?1";

pub const DISC_TRACK_COUNT_SQL: &'static str =
    "SELECT COUNT(*) FROM tracks WHERE album_id = ?1 AND disc_num = ?2";

pub const ALBUM_TRACKS_SQL: &'static str =
    "SELECT t.id, t.album_id, t.title, t.artist, t.genre, t.track_num, t.disc_num, \
    t.duration_ms, t.sample_rate, t.bit_depth, t.channels, \
    t.bitrate, t.mime_type, t.file_size, a.album, \
    t.composer, t.conductor, t.performer \
    FROM tracks t JOIN albums a ON t.album_id = a.id \
    WHERE t.album_id = ?1 \
    ORDER BY t.disc_num, t.track_num \
    LIMIT ?2 OFFSET ?3";

pub const DISC_TRACKS_SQL: &'static str =
    "SELECT t.id, t.album_id, t.title, t.artist, t.genre, t.track_num, t.disc_num, \
    t.duration_ms, t.sample_rate, t.bit_depth, t.channels, \
    t.bitrate, t.mime_type, t.file_size, a.album, \
    t.composer, t.conductor, t.performer \
    FROM tracks t JOIN albums a ON t.album_id = a.id \
    WHERE t.album_id = ?1 AND t.disc_num = ?2 \
    ORDER BY t.track_num \
    LIMIT ?3 OFFSET ?4";

pub open spec fn of_album(sql: Seq<char>, album_id: i64) -> StatementView {
    StatementView { sql, params: seq![Cell::Integer(album_id)] }
}

pub open spec fn disc_layout_stmt(album_id: i64) -> StatementView {
    of_album(DISC_LAYOUT_SQL@, album_id)
}

fn album_param(album_id: i64) -> (r: Vec<SqlValue>)
    ensures
        cells(r@) == seq![Cell::Integer(album_id)],
{
    let r = vec![SqlValue::Integer(album_id)];
    assert(cells(r@) =~= seq![Cell::Integer(album_id)]);
    r
}

pub fn disc_layout_statement(album_id: i64) -> (r: Statement)
    ensures
        r@ == disc_layout_stmt(album_id),
{
    bound(DISC_LAYOUT_SQL, album_param(album_id))
}

/// How many discs an album is on, and whether each is a container of its own: where
/// there are two or more, and every track says on which it is.
pub open spec fn layout_in(a: AnswerView) -> Result<(bool, i64), ErrorView> {
    match row_of(a) {
        Err(e) => Err(ErrorView::Sqlite(e)),
        Ok(row) => match (integer_at(row, 0), integer_at(row, 1)) {
            (Some(discs), Some(missing)) => Ok((discs >= 2 && missing == 0, discs)),
            _ => Err(ErrorView::Sqlite(misread(a, seq![Wanted::Integer, Wanted::Integer]))),
        },
    }
}

pub fn disc_layout(a: &Answer) -> (r: Result<(bool, i64), Error>)
    ensures
        match r {
            Ok(l) => layout_in(a@) == Ok::<(bool, i64), ErrorView>(l),
            Err(e) => layout_in(a@) == Err::<(bool, i64), ErrorView>(e@),
        },
{
    match first_row(a) {
        Err(e) => Err(Error::Sqlite(e)),
        Ok(row) => match (get_integer(row, 0), get_integer(row, 1)) {
            (Some(discs), Some(missing)) => Ok((discs >= 2 && missing == 0, discs)),
            _ => Err(
                Error::Sqlite(misread_error(a, &vec![Wanted::Integer, Wanted::Integer])),
            ),
        },
    }
}

/// How many children an album has: its discs, where they are containers; else its
/// tracks.
pub open spec fn child_count_of(layout: AnswerView, track_count: i64) -> i64 {
    match layout_in(layout) {
        Ok((true, discs)) => discs,
        _ => track_count,
    }
}

pub fn album_child_count(layout: &Answer, track_count: i64) -> (r: i64)
    ensures
        r == child_count_of(layout@, track_count),
{
    match disc_layout(layout) {
        Ok((folders, discs)) => if folders { discs } else { track_count },
        Err(_) => track_count,
    }
}

/// The container of a disc.
pub open spec fn disc_view(
    art_base: Seq<char>,
    album_id: i64,
    disc: i64,
    tracks: i64,
) -> ContainerView {
    ContainerView {
        id: encoded(ObjectIdView::Disc { album_id, disc }),
        parent_id: encoded(ObjectIdView::Album(album_id)),
        title: "Disc "@ + decimal_int(disc as int),
        upnp_class: CONTAINER_CLASS@,
        child_count: Some(tracks),
        artist: None,
        album_art_uri: Some(art_uri(art_base, album_id)),
    }
}

fn build_disc_container(ctx: &BrowseContext, album_id: i64, disc: i64, tracks: i64) -> (r: Container)
    ensures
        r@ == disc_view(ctx.art_base_url@, album_id, disc, tracks),
{
    Container {
        id: encode(&ObjectId::Disc { album_id, disc }),
        parent_id: encode(&ObjectId::Album(album_id)),
        title: text::cat("Disc ", text::integer_text(disc).as_str()),
        upnp_class: CONTAINER_CLASS,
        child_count: Some(tracks),
        artist: None,
        album_art_uri: Some(art_uri_text(ctx.art_base_url, album_id)),
    }
}

pub open spec fn disc_at(art_base: Seq<char>, album_id: i64, row: Seq<Cell>) -> Option<
    ContainerView,
> {
    match (integer_at(row, 0), integer_at(row, 1)) {
        (Some(disc), Some(n)) => Some(disc_view(art_base, album_id, disc, n)),
        _ => None,
    }
}

/// The containers of the discs in the rows.
pub open spec fn discs_at(art_base: Seq<char>, album_id: i64, rows: Seq<Seq<Cell>>) -> Seq<
    ContainerView,
> {
    rows.filter_map(|row: Seq<Cell>| disc_at(art_base, album_id, row))
}

fn make_discs(ctx: &BrowseContext, album_id: i64, rows: &Vec<Row>) -> (r: Vec<Container>)
    ensures
        containers_view(r@) == discs_at(ctx.art_base_url@, album_id, rows_view(rows@)),
{
    let ghost art = ctx.art_base_url@;
    let ghost f = |row: Seq<Cell>| disc_at(art, album_id, row);
    let ghost all = rows_view(rows@);
    let mut out: Vec<Container> = Vec::new();
    let mut i: usize = 0;
    proof {
        reveal(Seq::filter_map);
    }
    assert(containers_view(out@) =~= all.take(0).filter_map(f));
    while i < rows.len()
        invariant
            i <= rows.len(),
            all == rows_view(rows@),
            art == ctx.art_base_url@,
            f == (|row: Seq<Cell>| disc_at(art, album_id, row)),
            containers_view(out@) == all.take(i as int).filter_map(f),
        decreases rows.len() - i,
    {
        broadcast use Seq::lemma_filter_map_take_succ;

        let ghost before = out@;
        assert(all[i as int] == cells(rows@[i as int]@));
        match (get_integer(&rows[i], 0), get_integer(&rows[i], 1)) {
            (Some(disc), Some(n)) => {
                let c = build_disc_container(ctx, album_id, disc, n);
                out.push(c);
                assert(containers_view(out@) =~= containers_view(before).push(c@));
            },
            _ => {},
        }
        i = i + 1;
        assert(containers_view(out@) =~= all.take(i as int).filter_map(f));
    }
    assert(all.take(i as int) =~= all);
    out
}

/// Find out how the album is laid out, then ask for its discs, or for its tracks and
/// their number.
pub open spec fn album_tracks_step(
    art_base: Seq<char>,
    stream_base: Seq<char>,
    album_id: i64,
    start: usize,
    count: usize,
    answers: Seq<AnswerView>,
) -> StepView<ChildrenView> {
    let own = seq![Cell::Integer(album_id)];
    if answers.len() == 0 {
        StepView::Query(disc_layout_stmt(album_id))
    } else {
        match layout_in(answers[0]) {
            Err(e) => StepView::Done(Err(e)),
            Ok((folders, discs)) => if folders {
                if answers.len() == 1 {
                    StepView::Query(page_stmt(DISCS_SQL@, own, start, count))
                } else {
                    match rows_of(answers[1]) {
                        Err(e) => StepView::Done(Err(e)),
                        Ok(rows) => StepView::Done(
                            Ok(
                                ChildrenView {
                                    didl: only_containers(discs_at(art_base, album_id, rows)),
                                    total_matches: discs as usize,
                                },
                            ),
                        ),
                    }
                }
            } else {
                counted_step(
                    of_album(ALBUM_TRACK_COUNT_SQL@, album_id),
                    page_stmt(ALBUM_TRACKS_SQL@, own, start, count),
                    tracks_listed(art_base, stream_base, RowLayout::OneDisc),
                    answers.skip(1),
                )
            },
        }
    }
}

/// The children of an album: its discs or its tracks.
pub fn album_tracks_children(
    ctx: &BrowseContext,
    album_id: i64,
    start: usize,
    count: usize,
    answers: &[Answer],
) -> (r: Step<ChildrenResult>)
    ensures
        r@ == album_tracks_step(
            ctx.art_base_url@,
            ctx.stream_base_url@,
            album_id,
            start,
            count,
            answers_view(answers@),
        ),
{
    if answers.len() == 0 {
        return Step::Query(disc_layout_statement(album_id));
    }
    let (folders, discs) = match disc_layout(&answers[0]) {
        Err(e) => return Step::Done(Err(e)),
        Ok(l) => l,
    };
    if folders {
        if answers.len() == 1 {
            return Step::Query(page_statement(DISCS_SQL, album_param(album_id), start, count));
        }
        return match &answers[1] {
            Answer::Failed(e) => Step::Done(Err(Error::Sqlite(copy_error(e)))),
            Answer::Rows(rows, _) => Step::Done(
                Ok(
                    ChildrenResult {
                        didl: DidlOutput::of_containers(make_discs(ctx, album_id, rows)),
                        total_matches: discs as usize,
                    },
                ),
            ),
        };
    }
    let rest = slice_subrange(answers, 1, answers.len());
    assert(answers_view(rest@) =~= answers_view(answers@).skip(1));
    tracks_page(
        ctx,
        bound(ALBUM_TRACK_COUNT_SQL, album_param(album_id)),
        page_statement(ALBUM_TRACKS_SQL, album_param(album_id), start, count),
        RowLayout::OneDisc,
        rest,
    )
}

fn tracks_page(
    ctx: &BrowseContext,
    count: Statement,
    list: Statement,
    layout: RowLayout,
    answers: &[Answer],
) -> (r: Step<ChildrenResult>)
    ensures
        r@ == counted_step(
            count@,
            list@,
            tracks_listed(ctx.art_base_url@, ctx.stream_base_url@, layout),
            answers_view(answers@),
        ),
{
    let ghost make = tracks_listed(ctx.art_base_url@, ctx.stream_base_url@, layout);
    match counted(count, list, answers) {
        Counted::Pending(step) => step,
        Counted::Known(total_matches, rows) => {
            let didl = DidlOutput::of_items(make_items(ctx, layout, rows));
            assert(didl@ == make(rows_view(rows@)));
            Step::Done(Ok(ChildrenResult { didl, total_matches }))
        },
    }
}

pub open spec fn of_disc(album_id: i64, disc: i64) -> Seq<Cell> {
    seq![Cell::Integer(album_id), Cell::Integer(disc)]
}

fn disc_params(album_id: i64, disc: i64) -> (r: Vec<SqlValue>)
    ensures
        cells(r@) == of_disc(album_id, disc),
{
    let r = vec![SqlValue::Integer(album_id), SqlValue::Integer(disc)];
    assert(cells(r@) =~= of_disc(album_id, disc));
    r
}

/// A disc by itself.
pub fn disc_container(ctx: &BrowseContext, album_id: i64, disc: i64, answers: &[Answer]) -> (r:
    Step<DidlOutput>)
    ensures
        r@ == crate::db::query::asked_once(
            StatementView { sql: DISC_TRACK_COUNT_SQL@, params: of_disc(album_id, disc) },
            answers_view(answers@),
            |a: AnswerView|
                match scalar_of(a) {
                    Ok(n) => Ok(
                        only_containers(seq![disc_view(ctx.art_base_url@, album_id, disc, n)]),
                    ),
                    Err(e) => Err(e),
                },
        ),
{
    if answers.len() == 0 {
        return Step::Query(bound(DISC_TRACK_COUNT_SQL, disc_params(album_id, disc)));
    }
    match scalar(&answers[0]) {
        Err(e) => Step::Done(Err(e)),
        Ok(n) => Step::Done(
            Ok(DidlOutput::single(build_disc_container(ctx, album_id, disc, n))),
        ),
    }
}

/// The tracks of a disc.
pub fn disc_tracks_children(
    ctx: &BrowseContext,
    album_id: i64,
    disc: i64,
    start: usize,
    count: usize,
    answers: &[Answer],
) -> (r: Step<ChildrenResult>)
    ensures
        r@ == counted_step(
            StatementView { sql: DISC_TRACK_COUNT_SQL@, params: of_disc(album_id, disc) },
            page_stmt(DISC_TRACKS_SQL@, of_disc(album_id, disc), start, count),
            tracks_listed(ctx.art_base_url@, ctx.stream_base_url@, RowLayout::SeveralDiscs),
            answers_view(answers@),
        ),
{
    tracks_page(
        ctx,
        bound(DISC_TRACK_COUNT_SQL, disc_params(album_id, disc)),
        page_statement(DISC_TRACKS_SQL, disc_params(album_id, disc), start, count),
        RowLayout::SeveralDiscs,
        answers,
    )
}

/// No list of an album's children holds both containers and items.
pub proof fn discs_and_tracks_never_mix(
    art_base: Seq<char>,
    stream_base: Seq<char>,
    album_id: i64,
    start: usize,
    count: usize,
    answers: Seq<AnswerView>,
    r: ChildrenView,
)
    requires
        album_tracks_step(art_base, stream_base, album_id, start, count, answers) == StepView::<
            ChildrenView,
        >::Done(Ok(r)),
    ensures
        r.didl.containers.len() == 0 || r.didl.items.len() == 0,
{
}

/// An album says of itself that it has as many children as the list of them has in
/// all, as long as the number of its tracks that is kept is the one counted.
pub proof fn child_count_matches_children(
    art_base: Seq<char>,
    stream_base: Seq<char>,
    album_id: i64,
    start: usize,
    count: usize,
    answers: Seq<AnswerView>,
    track_count: i64,
    r: ChildrenView,
)
    requires
        album_tracks_step(art_base, stream_base, album_id, start, count, answers) == StepView::<
            ChildrenView,
        >::Done(Ok(r)),
        layout_in(answers[0]) matches Ok(l) ==> (!l.0 ==> scalar_of(answers[1]) == Ok::<
            i64,
            ErrorView,
        >(track_count)),
    ensures
        r.total_matches == child_count_of(answers[0], track_count) as usize,
{
}

// ── What items show ──────────────────────────────────────────────────────

/// An item and its resource are of one track: the id of the item and the address of the
/// resource end with the track's number. Its parent and its picture are those of the
/// album that the row tells.
pub proof fn items_lead_to_their_track(
    ctx: &BrowseContext,
    track_id: i64,
    row: TrackRow,
    r: Item,
)
    requires
        call_ensures(build_track_item, (ctx, track_id, row), r),
    ensures
        r.id@ == "trk:"@ + decimal_int(track_id as int),
        r.res.url@ == ctx.stream_base_url@ + "/"@ + decimal_int(track_id as int),
        r.parent_id@ == "alb:"@ + decimal_int(row.album_id as int),
        r.album_art_uri matches Some(uri) && uri@ == ctx.art_base_url@ + "/"@ + decimal_int(
            row.album_id as int,
        ),
        r.title@ == match row.title {
            Some(t) => t@,
            None => "Unknown"@,
        },
        r.upnp_class@ == "object.item.audioItem.musicTrack"@,
        opt_text(r.artist) == opt_text(row.artist),
        r.album matches Some(album) && album@ == row.album@,
        opt_text(r.genre) == opt_text(row.genre),
        r.res.protocol_info@ == "http-get:*:"@ + row.mime_type@ + ":*"@,
        row.file_size >= 0 ==> r.res.size == row.file_size,
        row.duration_ms matches Some(n) ==> n >= 0 ==> (r.res.duration_ms matches Some(m) && m == n),
        row.duration_ms is None ==> r.res.duration_ms is None,
        row.bitrate matches Some(n) ==> 0 <= n <= u32::MAX ==> (r.res.bitrate matches Some(m) && m
            == n),
        row.bitrate is None ==> r.res.bitrate is None,
        row.sample_rate matches Some(n) ==> 0 <= n <= u32::MAX ==> (
        r.res.sample_frequency matches Some(m) && m == n),
        row.sample_rate is None ==> r.res.sample_frequency is None,
        row.bit_depth matches Some(n) ==> 0 <= n <= u8::MAX ==> (
        r.res.bits_per_sample matches Some(m) && m == n),
        row.bit_depth is None ==> r.res.bits_per_sample is None,
        row.channels matches Some(n) ==> 0 <= n <= u8::MAX ==> (
        r.res.nr_audio_channels matches Some(m) && m == n),
        row.channels is None ==> r.res.nr_audio_channels is None,
        row.track_num matches Some(n) ==> 0 <= n <= u32::MAX ==> (
        r.original_track_number matches Some(m) && m == n),
        row.track_num is None ==> r.original_track_number is None,
        row.disc_num matches Some(n) ==> row.multi_disc && 0 < n <= u32::MAX ==> (
        r.original_disc_number matches Some(m) && m == n),
        !row.multi_disc || row.disc_num is None ==> r.original_disc_number is None,
        forall|role: Seq<char>, name: Seq<char>| #[trigger]
            authors_view(r.authors@).contains(AuthorView { role, name }) <==> name.len() > 0 && {
                ||| role == "Composer"@ && opt_text(row.composer) == Some(name)
                ||| role == "Conductor"@ && opt_text(row.conductor) == Some(name)
                ||| role == "Performer"@ && opt_text(row.performer) == Some(name)
            },
{
    let all = r@.authors;
    assert(all == authors_view(r.authors@));
    let a = author("Composer"@, opt_text(row.composer));
    let b = author("Conductor"@, opt_text(row.conductor));
    let c = author("Performer"@, opt_text(row.performer));
    assert(all == a + b + c);
    assert forall|role: Seq<char>, name: Seq<char>| #[trigger]
        all.contains(AuthorView { role, name }) implies name.len() > 0 && {
        ||| role == "Composer"@ && opt_text(row.composer) == Some(name)
        ||| role == "Conductor"@ && opt_text(row.conductor) == Some(name)
        ||| role == "Performer"@ && opt_text(row.performer) == Some(name)
    } by {
        let i = all.lemma_contains_to_index(AuthorView { role, name });
        if i < a.len() {
            assert(all[i] == a[i]);
        } else if i < a.len() + b.len() {
            assert(all[i] == b[i - a.len()]);
        } else {
            assert(all[i] == c[i - a.len() - b.len()]);
        }
    }
    assert(a.len() > 0 ==> all[0] == a[0]);
    assert(b.len() > 0 ==> all[a.len() as int] == b[0]);
    assert(c.len() > 0 ==> all[a.len() as int + b.len()] == c[0]);
}

/// Different tracks have different ids and are had from different places.
pub proof fn tracks_have_their_own_addresses(
    ctx: &BrowseContext,
    a: i64,
    row_a: TrackRow,
    item_a: Item,
    b: i64,
    row_b: TrackRow,
    item_b: Item,
)
    requires
        a != b,
        call_ensures(build_track_item, (ctx, a, row_a), item_a),
        call_ensures(build_track_item, (ctx, b, row_b), item_b),
    ensures
        item_a.id@ != item_b.id@,
        item_a.res.url@ != item_b.res.url@,
{
    items_lead_to_their_track(ctx, a, row_a, item_a);
    items_lead_to_their_track(ctx, b, row_b, item_b);
    text::lemma_decimal_int_differs(a as int, b as int);
    let base = ctx.stream_base_url@ + "/"@;
    let n = base.len() as int;
    assert(item_a.res.url@.skip(n) =~= decimal_int(a as int));
    assert(item_b.res.url@.skip(n) =~= decimal_int(b as int));
    let m = "trk:"@.len() as int;
    assert(item_a.id@.skip(m) =~= decimal_int(a as int));
    assert(item_b.id@.skip(m) =~= decimal_int(b as int));
}

/// A text, or nothing.
pub open spec fn maybe_text(c: Cell) -> bool {
    c is Text || c is Null
}

/// A whole number, or nothing.
pub open spec fn maybe_integer(c: Cell) -> bool {
    c is Integer || c is Null
}

/// Whether a row tells of a track, its id first: what has to be there is there, and what
/// need not be is of the right type or absent.
pub open spec fn is_track_row(row: Seq<Cell>, told: bool) -> bool {
    let people = if told {
        16int
    } else {
        15
    };
    &&& row.len() == people + 3
    &&& row[0] is Integer && row[1] is Integer
    &&& maybe_text(row[2]) && maybe_text(row[3]) && maybe_text(row[4])
    &&& maybe_integer(row[5]) && maybe_integer(row[6]) && maybe_integer(row[7])
    &&& maybe_integer(row[8]) && maybe_integer(row[9]) && maybe_integer(row[10])
    &&& maybe_integer(row[11])
    &&& row[12] is Text && row[13] is Integer && row[14] is Text
    &&& told ==> row[15] is Integer
    &&& maybe_text(row[people]) && maybe_text(row[people + 1]) && maybe_text(row[people + 2])
}

/// Where the columns of a track stand in a row: its id, then the columns of
/// `ALBUM_TRACKS_SQL` or, where the row tells the layout, those of `TRACKS_LIST_HEAD`.
pub open spec fn shows_row(item: ItemView, row: Seq<Cell>, told: bool) -> bool {
    let people = if told {
        16int
    } else {
        15
    };
    &&& row[0] matches Cell::Integer(id) && item.id == "trk:"@ + decimal_int(id as int)
    &&& row[1] matches Cell::Integer(album) && item.parent_id == "alb:"@ + decimal_int(album as int)
    &&& row[2] matches Cell::Text(t) ==> item.title == t
    &&& row[2] is Null ==> item.title == "Unknown"@
    &&& row[3] matches Cell::Text(t) ==> item.artist == Some(t)
    &&& row[3] is Null ==> item.artist is None
    &&& row[4] matches Cell::Text(t) ==> item.genre == Some(t)
    &&& row[4] is Null ==> item.genre is None
    &&& row[5] matches Cell::Integer(n) ==> 0 <= n <= u32::MAX ==> item.original_track_number
        == Some(n as u32)
    &&& told ==> (row[15] == Cell::Integer(0) ==> item.original_disc_number is None)
    &&& told && row[15] != Cell::Integer(0) ==> (row[6] matches Cell::Integer(n) ==> 0 < n
        <= u32::MAX ==> item.original_disc_number == Some(n as u32))
    &&& row[7] matches Cell::Integer(n) ==> 0 <= n ==> item.res.duration_ms == Some(n as u64)
    &&& row[8] matches Cell::Integer(n) ==> 0 <= n <= u32::MAX ==> item.res.sample_frequency
        == Some(n as u32)
    &&& row[9] matches Cell::Integer(n) ==> 0 <= n <= u8::MAX ==> item.res.bits_per_sample == Some(
        n as u8,
    )
    &&& row[10] matches Cell::Integer(n) ==> 0 <= n <= u8::MAX ==> item.res.nr_audio_channels
        == Some(n as u8)
    &&& row[11] matches Cell::Integer(n) ==> 0 <= n <= u32::MAX ==> item.res.bitrate == Some(
        n as u32,
    )
    &&& row[12] matches Cell::Text(t) ==> item.res.protocol_info == "http-get:*:"@ + t + ":*"@
    &&& row[13] matches Cell::Integer(n) ==> 0 <= n ==> item.res.size == n as u64
    &&& row[14] matches Cell::Text(t) ==> item.album == Some(t)
    &&& row[people] matches Cell::Text(t) ==> t.len() > 0 ==> item.authors.contains(
        AuthorView { role: "Composer"@, name: t },
    )
    &&& row[people + 1] matches Cell::Text(t) ==> t.len() > 0 ==> item.authors.contains(
        AuthorView { role: "Conductor"@, name: t },
    )
    &&& row[people + 2] matches Cell::Text(t) ==> t.len() > 0 ==> item.authors.contains(
        AuthorView { role: "Performer"@, name: t },
    )
}

/// An item shows what its row says.
pub proof fn lemma_item_shows_row(
    art_base: Seq<char>,
    stream_base: Seq<char>,
    layout: RowLayout,
    row: Seq<Cell>,
)
    requires
        item_at(art_base, stream_base, layout, row) is Some,
    ensures
        shows_row(item_at(art_base, stream_base, layout, row)->0, row, layout is Told),
        row[0] matches Cell::Integer(id) && (item_at(art_base, stream_base, layout, row)->0).res.url
            == stream_base + "/"@ + decimal_int(id as int),
        layout is OneDisc ==> (item_at(
            art_base,
            stream_base,
            layout,
            row,
        )->0).original_disc_number is None,
        layout is SeveralDiscs ==> (row[6] matches Cell::Integer(n) ==> 0 < n <= u32::MAX ==> (
        item_at(art_base, stream_base, layout, row)->0).original_disc_number == Some(n as u32)),
{
    let track = track_at(row, 1, layout)->0;
    let a = author("Composer"@, track.composer);
    let b = author("Conductor"@, track.conductor);
    let c = author("Performer"@, track.performer);
    let all = authors_of(track);
    assert(all =~= a + b + c);
    assert(a.len() > 0 ==> all[0] == a[0]);
    assert(b.len() > 0 ==> all[a.len() as int] == b[0]);
    assert(c.len() > 0 ==> all[a.len() as int + b.len()] == c[0]);
}

/// The items of a page are those of its rows, in their order, each with what its row
/// says, and each to be had under the number that its row begins with.
pub proof fn pages_show_their_rows(
    ctx: &BrowseContext,
    layout: RowLayout,
    rows: &Vec<Row>,
    r: Vec<Item>,
)
    requires
        call_ensures(make_items, (ctx, layout, rows), r),
        forall|i: int|
            0 <= i < rows@.len() ==> is_track_row(cells(#[trigger] rows@[i]@), layout is Told),
    ensures
        r@.len() == rows@.len(),
        forall|i: int|
            0 <= i < rows@.len() ==> shows_row(
                (#[trigger] r@[i])@,
                cells(rows@[i]@),
                layout is Told,
            ) && (cells(rows@[i]@)[0] matches Cell::Integer(id) && r@[i].res.url@
                == ctx.stream_base_url@ + "/"@ + decimal_int(id as int)),
{
    let art = ctx.art_base_url@;
    let stream = ctx.stream_base_url@;
    let f = |row: Seq<Cell>| item_at(art, stream, layout, row);
    let all = rows_view(rows@);
    assert forall|i: int| 0 <= i < all.len() implies f(#[trigger] all[i]) is Some by {
        assert(all[i] == cells(rows@[i]@));
    }
    text::lemma_filter_map_keeps_all(all, f);
    assert forall|i: int| 0 <= i < rows@.len() implies shows_row(
        (#[trigger] r@[i])@,
        cells(rows@[i]@),
        layout is Told,
    ) && (cells(rows@[i]@)[0] matches Cell::Integer(id) && r@[i].res.url@ == ctx.stream_base_url@
        + "/"@ + decimal_int(id as int)) by {
        assert(items_view(r@)[i] == r@[i]@);
        assert(all[i] == cells(rows@[i]@));
        lemma_item_shows_row(art, stream, layout, all[i]);
    }
}

} // verus!
