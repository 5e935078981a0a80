//! What lists hold, in terms of the library: of which albums, names and tracks each list
//! tells, in which order and on which page.

use vstd::prelude::*;

use crate::browse::albums::artist_step;
use crate::browse::artist_tracks::{
    artist_tracks_children, at_view, track_count_stmt, tracks_listed, ARTIST_TRACKS_SQL,
};
use crate::browse::categories::{
    category, category_view, root_children, root_step, says_any, tailed_step, unknown_decade_view,
    unknown_genre_view, unknown_year_view, Shown,
};
use crate::browse::listing::{album_view, listed, Named, ShapeView};
use crate::browse::tracks::{
    album_tracks_children, album_tracks_step, disc_at, disc_layout_stmt, disc_tracks_children,
    is_track_row, item_at, items_at, lemma_item_shows_row, of_disc, shows_row, RowLayout,
    ALBUM_TRACKS_SQL, ALBUM_TRACK_COUNT_SQL, DISCS_SQL, DISC_TRACKS_SQL, DISC_TRACK_COUNT_SQL,
};
use crate::browse::{
    browse_children, children_step, counted_step, page_stmt, BrowseContext, ChildrenResult,
    ChildrenView,
};
use crate::db::query::{
    answers_view, plain_stmt, rows_of, scalar_of, Answer, AnswerView, Cell, StatementView, Step,
    StepView,
};
use crate::normalize::search_form;
use crate::text::{self, comes_before, decimal_int, lowered, texts};
use crate::upnp::didl::{ContainerView, ItemView};
use crate::upnp::object_id::{encoded, ObjectId, ObjectIdView};

verus! {

// ── The library ──────────────────────────────────────────────────────────

/// What the database knows of a track, as far as lists depend on it.
pub struct TrackEntry {
    pub album_id: i64,
    pub artist: Option<Seq<char>>,
    pub artist_norm: Option<Seq<char>>,
    pub genre: Option<Seq<char>>,
    pub composer: Option<Seq<char>>,
    pub conductor: Option<Seq<char>>,
    pub performer: Option<Seq<char>>,
    pub year: Option<int>,
    pub disc_num: Option<i64>,
    pub track_num: Option<i64>,
    /// The columns of a list of tracks.
    pub row: Seq<Cell>,
    /// The columns of a list of tracks that also tells whether the album is on several
    /// discs.
    pub told_row: Seq<Cell>,
}

/// What the database knows of an album.
pub struct AlbumEntry {
    pub title: Seq<char>,
    pub title_norm: Seq<char>,
    pub artist: Seq<char>,
    pub track_count: i64,
    pub quality: Seq<char>,
    pub last_added_at: Option<i64>,
    pub last_played_at: Option<i64>,
}

/// Albums and tracks by their ids.
pub struct Shelves {
    pub albums: Map<i64, AlbumEntry>,
    pub tracks: Map<i64, TrackEntry>,
}

/// Whether an album has a track of which something holds.
pub open spec fn has_track(shelves: Shelves, album: i64, f: spec_fn(TrackEntry) -> bool) -> bool {
    exists|t: i64| #[trigger]
        shelves.tracks.contains_key(t) && shelves.tracks[t].album_id == album && f(
            shelves.tracks[t],
        )
}

/// Whether a text is there and not empty.
pub open spec fn is_tagged(tag: Option<Seq<char>>) -> bool {
    tag matches Some(s) && s.len() > 0
}

/// Which albums stand under an object.
pub open spec fn belongs(shelves: Shelves, id: ObjectIdView, album: i64) -> bool {
    let a = shelves.albums[album];
    match id {
        ObjectIdView::CatAl => true,
        ObjectIdView::CatHires => a.quality == "hires"@,
        ObjectIdView::CatLossy => a.quality == "lossy"@,
        ObjectIdView::CatMixed => a.quality == "mixed"@,
        ObjectIdView::CatPlayed => a.last_played_at is Some,
        ObjectIdView::CatRecent => a.last_added_at is Some,
        ObjectIdView::AlbumArtist(name) => a.artist == name,
        ObjectIdView::Artist(name) => has_track(
            shelves,
            album,
            |t: TrackEntry| t.artist == Some(name),
        ),
        ObjectIdView::Genre(name) => has_track(
            shelves,
            album,
            |t: TrackEntry| t.genre == Some(name),
        ),
        ObjectIdView::Composer(name) => has_track(
            shelves,
            album,
            |t: TrackEntry| t.composer == Some(name),
        ),
        ObjectIdView::Conductor(name) => has_track(
            shelves,
            album,
            |t: TrackEntry| t.conductor == Some(name),
        ),
        ObjectIdView::Performer(name) => has_track(
            shelves,
            album,
            |t: TrackEntry| t.performer == Some(name),
        ),
        ObjectIdView::Year(y) => has_track(
            shelves,
            album,
            |t: TrackEntry| t.year == Some(y as int),
        ),
        ObjectIdView::Decade(d) => has_track(
            shelves,
            album,
            |t: TrackEntry| t.year matches Some(y) && d <= y < d + 10,
        ),
        ObjectIdView::UnknownGenre => !has_track(
            shelves,
            album,
            |t: TrackEntry| is_tagged(t.genre),
        ),
        ObjectIdView::UnknownYear => !has_track(shelves, album, |t: TrackEntry| t.year is Some),
        ObjectIdView::UnknownDecade => !has_track(shelves, album, |t: TrackEntry| t.year is Some),
        _ => false,
    }
}

/// In which order albums come.
pub enum Order {
    Title,
    ArtistThenTitle,
    LastAddedFirst,
    LastPlayedFirst,
}

pub open spec fn order_of(id: ObjectIdView) -> Order {
    match id {
        ObjectIdView::CatHires => Order::ArtistThenTitle,
        ObjectIdView::CatLossy => Order::ArtistThenTitle,
        ObjectIdView::CatMixed => Order::ArtistThenTitle,
        ObjectIdView::CatPlayed => Order::LastPlayedFirst,
        ObjectIdView::CatRecent => Order::LastAddedFirst,
        _ => Order::Title,
    }
}

/// Whether a time comes before another one, the later first; what is of the same time goes
/// by the id, the greater first.
pub open spec fn later_first(a: Option<i64>, x: i64, b: Option<i64>, y: i64) -> bool {
    match (a, b) {
        (Some(s), Some(t)) => s > t || (s == t && x > y),
        _ => false,
    }
}

/// Whether an album has to come before another one.
pub open spec fn precedes(shelves: Shelves, order: Order, x: i64, y: i64) -> bool {
    let a = shelves.albums[x];
    let b = shelves.albums[y];
    match order {
        Order::Title => comes_before(a.title, b.title),
        Order::ArtistThenTitle => comes_before(a.artist, b.artist) || (a.artist == b.artist
            && comes_before(a.title, b.title)),
        Order::LastAddedFirst => later_first(a.last_added_at, x, b.last_added_at, y),
        Order::LastPlayedFirst => later_first(a.last_played_at, x, b.last_played_at, y),
    }
}

/// The albums under an object.
pub open spec fn albums_under(shelves: Shelves, id: ObjectIdView) -> Set<i64> {
    shelves.albums.dom().filter(|a: i64| belongs(shelves, id, a))
}

/// Whether `ids` are the albums under an object, each once and in order.
pub open spec fn in_order(shelves: Shelves, id: ObjectIdView, ids: Seq<i64>) -> bool {
    &&& ids.no_duplicates()
    &&& forall|a: i64| #[trigger] ids.contains(a) <==> albums_under(shelves, id).contains(a)
    &&& forall|i: int, j: int|
        0 <= i < j < ids.len() ==> !precedes(
            shelves,
            order_of(id),
            #[trigger] ids[j],
            #[trigger] ids[i],
        )
}

/// The elements from `start` on, `count` at most.
pub open spec fn cut<T>(s: Seq<T>, start: int, count: int) -> Seq<T> {
    if start >= s.len() {
        Seq::empty()
    } else if start + count >= s.len() {
        s.skip(start)
    } else {
        s.subrange(start, start + count)
    }
}

/// An album as a row of a list.
pub open spec fn album_row(shelves: Shelves, album: i64) -> Seq<Cell> {
    let a = shelves.albums[album];
    seq![
        Cell::Integer(album),
        Cell::Text(a.title),
        Cell::Text(a.artist),
        Cell::Integer(a.track_count),
    ]
}

/// An album as a row of a list of one artist's.
pub open spec fn own_album_row(shelves: Shelves, album: i64) -> Seq<Cell> {
    let a = shelves.albums[album];
    seq![Cell::Integer(album), Cell::Text(a.title), Cell::Integer(a.track_count)]
}

/// An album as a container.
pub open spec fn shelved(
    shelves: Shelves,
    art_base: Seq<char>,
    parent: Seq<char>,
    album: i64,
) -> ContainerView {
    let a = shelves.albums[album];
    ContainerView {
        id: "alb:"@ + decimal_int(album as int),
        parent_id: parent,
        title: a.title,
        upnp_class: "object.container.album.musicAlbum"@,
        child_count: Some(a.track_count),
        artist: Some(a.artist),
        album_art_uri: Some(art_base + "/"@ + decimal_int(album as int)),
    }
}

// ── Questions and answers ────────────────────────────────────────────────

/// Whether an answer is the number of albums under an object.
pub open spec fn counts_albums(shelves: Shelves, id: ObjectIdView, a: AnswerView) -> bool {
    scalar_of(a) matches Ok(n) && n == albums_under(shelves, id).len()
}

/// Whether an answer is a page of the albums under an object.
pub open spec fn lists_albums(
    shelves: Shelves,
    id: ObjectIdView,
    offset: int,
    limit: int,
    a: AnswerView,
) -> bool {
    rows_of(a) matches Ok(rows) && exists|ids: Seq<i64>| #[trigger]
        in_order(shelves, id, ids) && rows == cut(ids, offset, limit).map_values(
            |album: i64|
                if id is AlbumArtist {
                    own_album_row(shelves, album)
                } else {
                    album_row(shelves, album)
                },
        )
}

/// The question for the number of albums with a track that meets a condition.
pub open spec fn count_with_track(condition: Seq<char>) -> Seq<char> {
    "SELECT COUNT(*) FROM albums a WHERE EXISTS (SELECT 1 FROM tracks t WHERE t.album_id = a.id AND "@
        + condition + ")"@
}

/// The question for a page of them.
pub open spec fn list_with_track(condition: Seq<char>, page: Seq<char>) -> Seq<char> {
    "SELECT a.id, a.album, a.effective_album_artist, a.track_count FROM albums a WHERE EXISTS (SELECT 1 FROM tracks t WHERE t.album_id = a.id AND "@
        + condition + ") ORDER BY a.album "@ + page
}

/// The question for the number of albums without a track that meets a condition.
pub open spec fn count_without(condition: Seq<char>) -> Seq<char> {
    "SELECT COUNT(*) FROM albums a WHERE NOT EXISTS (SELECT 1 FROM tracks t WHERE t.album_id = a.id AND "@
        + condition + ")"@
}

/// The question for a page of them.
pub open spec fn list_without(condition: Seq<char>) -> Seq<char> {
    "SELECT a.id, a.album, a.effective_album_artist, a.track_count FROM albums a WHERE NOT EXISTS (SELECT 1 FROM tracks t WHERE t.album_id = a.id AND "@
        + condition + ") ORDER BY a.album LIMIT ?1 OFFSET ?2"@
}

/// Whether a question, by its text, counts the albums under an object.
pub open spec fn asks_how_many(q: StatementView, id: ObjectIdView) -> bool {
    match id {
        ObjectIdView::CatAl => q == (StatementView {
            sql: "SELECT COUNT(*) FROM albums"@,
            params: Seq::empty(),
        }),
        ObjectIdView::CatHires => q == (StatementView {
            sql: "SELECT COUNT(*) FROM albums WHERE quality = ?1"@,
            params: seq![Cell::Text("hires"@)],
        }),
        ObjectIdView::CatLossy => q == (StatementView {
            sql: "SELECT COUNT(*) FROM albums WHERE quality = ?1"@,
            params: seq![Cell::Text("lossy"@)],
        }),
        ObjectIdView::CatMixed => q == (StatementView {
            sql: "SELECT COUNT(*) FROM albums WHERE quality = ?1"@,
            params: seq![Cell::Text("mixed"@)],
        }),
        ObjectIdView::CatPlayed => q == (StatementView {
            sql: "SELECT COUNT(*) FROM albums WHERE last_played_at IS NOT NULL"@,
            params: Seq::empty(),
        }),
        ObjectIdView::CatRecent => q == (StatementView {
            sql: "SELECT COUNT(*) FROM albums WHERE last_added_at IS NOT NULL"@,
            params: Seq::empty(),
        }),
        ObjectIdView::AlbumArtist(name) => q == (StatementView {
            sql: "SELECT COUNT(*) FROM albums WHERE effective_album_artist = ?1"@,
            params: seq![Cell::Text(name)],
        }),
        ObjectIdView::Artist(name) => q == (StatementView {
            sql: count_with_track("t.artist = ?1"@),
            params: seq![Cell::Text(name)],
        }),
        ObjectIdView::Genre(name) => q == (StatementView {
            sql: count_with_track("t.genre = ?1"@),
            params: seq![Cell::Text(name)],
        }),
        ObjectIdView::Composer(name) => q == (StatementView {
            sql: count_with_track("t.composer = ?1"@),
            params: seq![Cell::Text(name)],
        }),
        ObjectIdView::Conductor(name) => q == (StatementView {
            sql: count_with_track("t.conductor = ?1"@),
            params: seq![Cell::Text(name)],
        }),
        ObjectIdView::Performer(name) => q == (StatementView {
            sql: count_with_track("t.performer = ?1"@),
            params: seq![Cell::Text(name)],
        }),
        ObjectIdView::Year(y) => q == (StatementView {
            sql: count_with_track("t.year = ?1"@),
            params: seq![Cell::Integer(y as i64)],
        }),
        ObjectIdView::Decade(d) => q == (StatementView {
            sql: count_with_track("t.year BETWEEN ?1 AND ?2"@),
            params: seq![Cell::Integer(d as i64), Cell::Integer((d + 9) as i64)],
        }),
        ObjectIdView::UnknownGenre => q == (StatementView {
            sql: count_without("t.genre IS NOT NULL AND t.genre != ''"@),
            params: Seq::empty(),
        }),
        ObjectIdView::UnknownYear => q == (StatementView {
            sql: count_without("t.year IS NOT NULL"@),
            params: Seq::empty(),
        }),
        ObjectIdView::UnknownDecade => q == (StatementView {
            sql: count_without("t.year IS NOT NULL"@),
            params: Seq::empty(),
        }),
        _ => false,
    }
}

/// Whether a question, by its text, asks for the albums under an object from `offset` on,
/// `limit` at most.
pub open spec fn asks_which(q: StatementView, id: ObjectIdView, offset: int, limit: int) -> bool {
    let page = seq![Cell::Integer(limit as i64), Cell::Integer(offset as i64)];
    match id {
        ObjectIdView::CatAl => q == (StatementView {
            sql: "SELECT id, album, effective_album_artist, track_count \
    FROM albums ORDER BY album LIMIT ?1 OFFSET ?2"@,
            params: Seq::empty() + page,
        }),
        ObjectIdView::CatHires => q == (StatementView {
            sql: "SELECT id, album, effective_album_artist, track_count \
    FROM albums \
    WHERE quality = ?1 \
    ORDER BY effective_album_artist, album \
    LIMIT ?2 OFFSET ?3"@,
            params: seq![Cell::Text("hires"@)] + page,
        }),
        ObjectIdView::CatLossy => q == (StatementView {
            sql: "SELECT id, album, effective_album_artist, track_count \
    FROM albums \
    WHERE quality = ?1 \
    ORDER BY effective_album_artist, album \
    LIMIT ?2 OFFSET ?3"@,
            params: seq![Cell::Text("lossy"@)] + page,
        }),
        ObjectIdView::CatMixed => q == (StatementView {
            sql: "SELECT id, album, effective_album_artist, track_count \
    FROM albums \
    WHERE quality = ?1 \
    ORDER BY effective_album_artist, album \
    LIMIT ?2 OFFSET ?3"@,
            params: seq![Cell::Text("mixed"@)] + page,
        }),
        ObjectIdView::CatPlayed => q == (StatementView {
            sql: "SELECT id, album, effective_album_artist, track_count \
    FROM albums \
    WHERE last_played_at IS NOT NULL \
    ORDER BY last_played_at DESC, id DESC \
    LIMIT ?1 OFFSET ?2"@,
            params: Seq::empty() + page,
        }),
        ObjectIdView::CatRecent => q == (StatementView {
            sql: "SELECT id, album, effective_album_artist, track_count \
    FROM albums \
    WHERE last_added_at IS NOT NULL \
    ORDER BY last_added_at DESC, id DESC \
    LIMIT ?1 OFFSET ?2"@,
            params: Seq::empty() + page,
        }),
        ObjectIdView::AlbumArtist(name) => q == (StatementView {
            sql: "SELECT id, album, track_count FROM albums \
    WHERE effective_album_artist = ?1 ORDER BY album LIMIT ?2 OFFSET ?3"@,
            params: seq![Cell::Text(name)] + page,
        }),
        ObjectIdView::Artist(name) => q == (StatementView {
            sql: list_with_track("t.artist = ?1"@, "LIMIT ?2 OFFSET ?3"@),
            params: seq![Cell::Text(name)] + page,
        }),
        ObjectIdView::Genre(name) => q == (StatementView {
            sql: list_with_track("t.genre = ?1"@, "LIMIT ?2 OFFSET ?3"@),
            params: seq![Cell::Text(name)] + page,
        }),
        ObjectIdView::Composer(name) => q == (StatementView {
            sql: list_with_track("t.composer = ?1"@, "LIMIT ?2 OFFSET ?3"@),
            params: seq![Cell::Text(name)] + page,
        }),
        ObjectIdView::Conductor(name) => q == (StatementView {
            sql: list_with_track("t.conductor = ?1"@, "LIMIT ?2 OFFSET ?3"@),
            params: seq![Cell::Text(name)] + page,
        }),
        ObjectIdView::Performer(name) => q == (StatementView {
            sql: list_with_track("t.performer = ?1"@, "LIMIT ?2 OFFSET ?3"@),
            params: seq![Cell::Text(name)] + page,
        }),
        ObjectIdView::Year(y) => q == (StatementView {
            sql: list_with_track("t.year = ?1"@, "LIMIT ?2 OFFSET ?3"@),
            params: seq![Cell::Integer(y as i64)] + page,
        }),
        ObjectIdView::Decade(d) => q == (StatementView {
            sql: list_with_track("t.year BETWEEN ?1 AND ?2"@, "LIMIT ?3 OFFSET ?4"@),
            params: seq![Cell::Integer(d as i64), Cell::Integer((d + 9) as i64)] + page,
        }),
        ObjectIdView::UnknownGenre => q == (StatementView {
            sql: list_without("t.genre IS NOT NULL AND t.genre != ''"@),
            params: Seq::empty() + page,
        }),
        ObjectIdView::UnknownYear => q == (StatementView {
            sql: list_without("t.year IS NOT NULL"@),
            params: Seq::empty() + page,
        }),
        ObjectIdView::UnknownDecade => q == (StatementView {
            sql: list_without("t.year IS NOT NULL"@),
            params: Seq::empty() + page,
        }),
        _ => false,
    }
}

/// The tracks of an artist, by the search form of the name.
pub open spec fn tracks_by(shelves: Shelves, norm: Seq<char>) -> Set<i64> {
    shelves.tracks.dom().filter(|t: i64| shelves.tracks[t].artist_norm == Some(norm))
}

/// The values under a category: names, or years.
pub open spec fn values_under(shelves: Shelves, cat: ObjectIdView) -> Set<Cell> {
    let tracks = shelves.tracks;
    match cat {
        ObjectIdView::CatAa => shelves.albums.dom().map(
            |a: i64| Cell::Text(shelves.albums[a].artist),
        ),
        ObjectIdView::CatAr => tracks.dom().filter(|t: i64| is_tagged(tracks[t].artist)).map(
            |t: i64| Cell::Text(tracks[t].artist->0),
        ),
        ObjectIdView::CatGn => tracks.dom().filter(|t: i64| is_tagged(tracks[t].genre)).map(
            |t: i64| Cell::Text(tracks[t].genre->0),
        ),
        ObjectIdView::CatCm => tracks.dom().filter(|t: i64| is_tagged(tracks[t].composer)).map(
            |t: i64| Cell::Text(tracks[t].composer->0),
        ),
        ObjectIdView::CatCn => tracks.dom().filter(|t: i64| is_tagged(tracks[t].conductor)).map(
            |t: i64| Cell::Text(tracks[t].conductor->0),
        ),
        ObjectIdView::CatPf => tracks.dom().filter(|t: i64| is_tagged(tracks[t].performer)).map(
            |t: i64| Cell::Text(tracks[t].performer->0),
        ),
        ObjectIdView::CatYr => tracks.dom().filter(|t: i64| tracks[t].year is Some).map(
            |t: i64| Cell::Integer(tracks[t].year->0 as i64),
        ),
        ObjectIdView::CatDec => tracks.dom().filter(|t: i64| tracks[t].year is Some).map(
            |t: i64| Cell::Integer(decade_of(tracks[t].year->0) as i64),
        ),
        _ => Set::empty(),
    }
}

/// The first year of the ten that a year is among.
pub open spec fn decade_of(year: int) -> int {
    if year >= 0 {
        (year / 10) * 10
    } else {
        -(((-year) / 10) * 10)
    }
}

/// Whether a value has to come before another one: names in their order, those of
/// composers, conductors and performers without regard to case, and years newest first.
pub open spec fn value_precedes(cat: ObjectIdView, x: Cell, y: Cell) -> bool {
    match (x, y) {
        (Cell::Text(a), Cell::Text(b)) => if cat is CatCm || cat is CatCn || cat is CatPf {
            comes_before(lowered(a), lowered(b))
        } else {
            comes_before(a, b)
        },
        (Cell::Integer(a), Cell::Integer(b)) => a > b,
        _ => false,
    }
}

/// Whether `values` are those under a category, each once and in order.
pub open spec fn values_in_order(shelves: Shelves, cat: ObjectIdView, values: Seq<Cell>) -> bool {
    &&& values.no_duplicates()
    &&& values.to_set() == values_under(shelves, cat)
    &&& forall|i: int, j: int|
        0 <= i < j < values.len() ==> !value_precedes(
            cat,
            #[trigger] values[j],
            #[trigger] values[i],
        )
}

/// Whether an answer is the number of values under a category.
pub open spec fn counts_values(shelves: Shelves, cat: ObjectIdView, a: AnswerView) -> bool {
    scalar_of(a) matches Ok(n) && n == values_under(shelves, cat).len()
}

/// Whether an answer is a page of the values under a category.
pub open spec fn lists_values(
    shelves: Shelves,
    cat: ObjectIdView,
    offset: int,
    limit: int,
    a: AnswerView,
) -> bool {
    rows_of(a) matches Ok(rows) && exists|values: Seq<Cell>| #[trigger]
        values_in_order(shelves, cat, values) && rows == cut(values, offset, limit).map_values(
            |v: Cell| seq![v],
        )
}

/// Whether a column of a track holds anything.
pub open spec fn holds_anything(column: Seq<char>) -> Seq<char> {
    column + " IS NOT NULL AND "@ + column + " != ''"@
}

pub open spec fn count_distinct(column: Seq<char>) -> StatementView {
    StatementView {
        sql: "SELECT COUNT(DISTINCT "@ + column + ") FROM tracks WHERE "@ + holds_anything(column),
        params: Seq::empty(),
    }
}

pub open spec fn list_distinct(column: Seq<char>, collation: Seq<char>) -> Seq<char> {
    "SELECT DISTINCT "@ + column + " FROM tracks WHERE "@ + holds_anything(column) + " ORDER BY "@
        + column + collation + " LIMIT ?1 OFFSET ?2"@
}

/// Whether a question, by its text, counts the values under a category.
pub open spec fn asks_how_many_values(q: StatementView, cat: ObjectIdView) -> bool {
    match cat {
        ObjectIdView::CatAa => q == (StatementView {
            sql: "SELECT COUNT(DISTINCT effective_album_artist) FROM albums"@,
            params: Seq::empty(),
        }),
        ObjectIdView::CatAr => q == count_distinct("artist"@),
        ObjectIdView::CatGn => q == count_distinct("genre"@),
        ObjectIdView::CatCm => q == count_distinct("composer"@),
        ObjectIdView::CatCn => q == count_distinct("conductor"@),
        ObjectIdView::CatPf => q == count_distinct("performer"@),
        ObjectIdView::CatYr => q == (StatementView {
            sql: "SELECT COUNT(DISTINCT year) FROM tracks WHERE year IS NOT NULL"@,
            params: Seq::empty(),
        }),
        ObjectIdView::CatDec => q == (StatementView {
            sql: "SELECT COUNT(DISTINCT (year / 10) * 10) FROM tracks WHERE year IS NOT NULL"@,
            params: Seq::empty(),
        }),
        _ => false,
    }
}

/// Whether a question, by its text, asks for the values under a category from `offset` on,
/// `limit` at most.
pub open spec fn asks_which_values(
    q: StatementView,
    cat: ObjectIdView,
    offset: int,
    limit: int,
) -> bool {
    &&& q.params == Seq::<Cell>::empty() + seq![
        Cell::Integer(limit as i64),
        Cell::Integer(offset as i64),
    ]
    &&& match cat {
        ObjectIdView::CatAa => q.sql == "SELECT DISTINCT effective_album_artist FROM albums \
    ORDER BY effective_album_artist LIMIT ?1 OFFSET ?2"@,
        ObjectIdView::CatAr => q.sql == list_distinct("artist"@, ""@),
        ObjectIdView::CatGn => q.sql == list_distinct("genre"@, ""@),
        ObjectIdView::CatCm => q.sql == list_distinct("composer"@, " COLLATE NOCASE"@),
        ObjectIdView::CatCn => q.sql == list_distinct("conductor"@, " COLLATE NOCASE"@),
        ObjectIdView::CatPf => q.sql == list_distinct("performer"@, " COLLATE NOCASE"@),
        ObjectIdView::CatYr => q.sql == "SELECT DISTINCT year FROM tracks WHERE year IS NOT NULL \
    ORDER BY year DESC LIMIT ?1 OFFSET ?2"@,
        ObjectIdView::CatDec => q.sql
            == "SELECT DISTINCT (year / 10) * 10 AS decade FROM tracks WHERE year IS NOT NULL \
    ORDER BY decade DESC LIMIT ?1 OFFSET ?2"@,
        _ => false,
    }
}

/// Whether a question, by its text, asks whether some track has anything in a column.
pub open spec fn asks_whether_any(q: StatementView, column: Seq<char>) -> bool {
    q == (StatementView {
        sql: "SELECT EXISTS(SELECT 1 FROM tracks WHERE "@ + holds_anything(column) + ")"@,
        params: Seq::empty(),
    })
}

/// Whether an answer says yes exactly where some track is such as `f` says.
pub open spec fn says_whether(
    shelves: Shelves,
    f: spec_fn(TrackEntry) -> bool,
    a: AnswerView,
) -> bool {
    scalar_of(a) matches Ok(n) && (n != 0 <==> exists|t: i64| #[trigger]
        shelves.tracks.contains_key(t) && f(shelves.tracks[t]))
}

/// The tracks of an album.
pub open spec fn tracks_on(shelves: Shelves, album: i64) -> Set<i64> {
    shelves.tracks.dom().filter(|t: i64| shelves.tracks[t].album_id == album)
}

/// The tracks of one disc of an album.
pub open spec fn tracks_on_disc(shelves: Shelves, album: i64, disc: i64) -> Set<i64> {
    tracks_on(shelves, album).filter(|t: i64| shelves.tracks[t].disc_num == Some(disc))
}

/// The numbers of the discs of an album.
pub open spec fn discs_of(shelves: Shelves, album: i64) -> Set<i64> {
    tracks_on(shelves, album).filter(|t: i64| shelves.tracks[t].disc_num is Some).map(
        |t: i64| shelves.tracks[t].disc_num->0,
    )
}

/// The tracks of an album that do not say on which disc they are.
pub open spec fn strays_of(shelves: Shelves, album: i64) -> Set<i64> {
    tracks_on(shelves, album).filter(
        |t: i64| !(shelves.tracks[t].disc_num matches Some(d) && d > 0),
    )
}

/// Whether what is absent or less comes before what is more.
pub open spec fn less(a: Option<i64>, b: Option<i64>) -> bool {
    match (a, b) {
        (None, Some(_)) => true,
        (Some(x), Some(y)) => x < y,
        _ => false,
    }
}

/// Whether a track has to come before another one of a list: by disc and number, and
/// across albums by the album's title first.
pub open spec fn track_precedes(shelves: Shelves, across: bool, x: i64, y: i64) -> bool {
    let a = shelves.tracks[x];
    let b = shelves.tracks[y];
    let s = shelves.albums[a.album_id].title_norm;
    let t = shelves.albums[b.album_id].title_norm;
    if across && s != t {
        comes_before(s, t)
    } else {
        less(a.disc_num, b.disc_num) || (a.disc_num == b.disc_num && less(a.track_num, b.track_num))
    }
}

/// Whether `ids` are the given tracks, each once and in order.
pub open spec fn tracks_in_order(
    shelves: Shelves,
    across: bool,
    tracks: Set<i64>,
    ids: Seq<i64>,
) -> bool {
    &&& ids.no_duplicates()
    &&& ids.to_set() == tracks
    &&& forall|i: int, j: int|
        0 <= i < j < ids.len() ==> !track_precedes(
            shelves,
            across,
            #[trigger] ids[j],
            #[trigger] ids[i],
        )
}

/// Whether an answer is a page of the given tracks.
pub open spec fn lists_tracks(
    shelves: Shelves,
    across: bool,
    tracks: Set<i64>,
    offset: int,
    limit: int,
    a: AnswerView,
) -> bool {
    rows_of(a) matches Ok(rows) && exists|ids: Seq<i64>| #[trigger]
        tracks_in_order(shelves, across, tracks, ids) && rows == cut(
            ids,
            offset,
            limit,
        ).map_values(
            |t: i64|
                if across {
                    shelves.tracks[t].told_row
                } else {
                    shelves.tracks[t].row
                },
        )
}

/// Whether `discs` are those of an album in order.
pub open spec fn discs_in_order(shelves: Shelves, album: i64, discs: Seq<i64>) -> bool {
    &&& discs.no_duplicates()
    &&& discs.to_set() == discs_of(shelves, album).filter(|d: i64| d > 0)
    &&& forall|i: int, j: int| 0 <= i < j < discs.len() ==> #[trigger] discs[i] < #[trigger] discs[j]
}

/// Whether an answer is a page of the discs of an album, each with the number of its
/// tracks.
pub open spec fn lists_discs(
    shelves: Shelves,
    album: i64,
    offset: int,
    limit: int,
    a: AnswerView,
) -> bool {
    rows_of(a) matches Ok(rows) && exists|discs: Seq<i64>| #[trigger]
        discs_in_order(shelves, album, discs) && rows == cut(discs, offset, limit).map_values(
            |d: i64|
                seq![
                    Cell::Integer(d),
                    Cell::Integer(tracks_on_disc(shelves, album, d).len() as i64),
                ],
        )
}

/// Whether an answer is the one that the database gives to a question about tracks.
pub open spec fn is_right_of_tracks(shelves: Shelves, q: StatementView, a: AnswerView) -> bool {
    &&& forall|album: i64|
        q.params == #[trigger] seq![Cell::Integer(album)] && q.sql
            == "SELECT COUNT(DISTINCT disc_num), \
    IFNULL(SUM(CASE WHEN disc_num IS NULL OR disc_num <= 0 THEN 1 ELSE 0 END), 0) \
    FROM tracks WHERE album_id = ?1"@ ==> (rows_of(a) matches Ok(rows) && rows.len() == 1
            && rows[0] == seq![
            Cell::Integer(discs_of(shelves, album).len() as i64),
            Cell::Integer(strays_of(shelves, album).len() as i64),
        ])
    &&& forall|album: i64|
        q.params == #[trigger] seq![Cell::Integer(album)] && q.sql
            == "SELECT COUNT(*) FROM tracks WHERE album_id = ?1"@ ==> (scalar_of(
            a,
        ) matches Ok(n) && n == tracks_on(shelves, album).len())
    &&& forall|album: i64, disc: i64|
        q.params == #[trigger] of_disc(album, disc) && q.sql
            == "SELECT COUNT(*) FROM tracks WHERE album_id = ?1 AND disc_num = ?2"@ ==> (scalar_of(
            a,
        ) matches Ok(n) && n == tracks_on_disc(shelves, album, disc).len())
    &&& forall|album: i64, offset: usize, limit: usize|
        offset <= i64::MAX && limit <= i64::MAX && q.params == #[trigger] page_params(
            seq![Cell::Integer(album)],
            offset,
            limit,
        ) && q.sql
            == "SELECT disc_num, COUNT(*) FROM tracks \
    WHERE album_id = ?1 AND disc_num IS NOT NULL AND disc_num > 0 \
    GROUP BY disc_num ORDER BY disc_num \
    LIMIT ?2 OFFSET ?3"@ ==> lists_discs(shelves, album, offset as int, limit as int, a)
    &&& forall|album: i64, offset: usize, limit: usize|
        offset <= i64::MAX && limit <= i64::MAX && q.params == #[trigger] page_params(
            seq![Cell::Integer(album)],
            offset,
            limit,
        ) && q.sql
            == "SELECT t.id, t.album_id, t.title, t.artist, t.genre, t.track_num, t.disc_num, \
    t.duration_ms, t.sample_rate, t.bit_depth, t.channels, \
    t.bitrate, t.mime_type, t.file_size, a.album, \
    t.composer, t.conductor, t.performer \
    FROM tracks t JOIN albums a ON t.album_id = a.id \
    WHERE t.album_id = ?1 \
    ORDER BY t.disc_num, t.track_num \
    LIMIT ?2 OFFSET ?3"@ ==> lists_tracks(
            shelves,
            false,
            tracks_on(shelves, album),
            offset as int,
            limit as int,
            a,
        )
    &&& forall|album: i64, disc: i64, offset: usize, limit: usize|
        offset <= i64::MAX && limit <= i64::MAX && q.params == #[trigger] page_params(
            of_disc(album, disc),
            offset,
            limit,
        ) && q.sql
            == "SELECT t.id, t.album_id, t.title, t.artist, t.genre, t.track_num, t.disc_num, \
    t.duration_ms, t.sample_rate, t.bit_depth, t.channels, \
    t.bitrate, t.mime_type, t.file_size, a.album, \
    t.composer, t.conductor, t.performer \
    FROM tracks t JOIN albums a ON t.album_id = a.id \
    WHERE t.album_id = ?1 AND t.disc_num = ?2 \
    ORDER BY t.track_num \
    LIMIT ?3 OFFSET ?4"@ ==> lists_tracks(
            shelves,
            false,
            tracks_on_disc(shelves, album, disc),
            offset as int,
            limit as int,
            a,
        )
    &&& forall|norm: Seq<char>, offset: usize, limit: usize|
        offset <= i64::MAX && limit <= i64::MAX && q.params == #[trigger] page_params(
            seq![Cell::Text(norm)],
            offset,
            limit,
        ) && q.sql
            == "SELECT t.id, t.album_id, t.title, t.artist, t.genre, t.track_num, t.disc_num, \
    t.duration_ms, t.sample_rate, t.bit_depth, t.channels, \
    t.bitrate, t.mime_type, t.file_size, a.album, \
    (SELECT IFNULL(MAX(disc_num), 0) FROM tracks WHERE album_id = t.album_id) > 1, \
    t.composer, t.conductor, t.performer \
    FROM tracks t JOIN albums a ON t.album_id = a.id \
    WHERE t.artist_norm = ?1 \
    ORDER BY a.album_norm, t.disc_num, t.track_num \
    LIMIT ?2 OFFSET ?3"@ ==> lists_tracks(
            shelves,
            true,
            tracks_by(shelves, norm),
            offset as int,
            limit as int,
            a,
        )
}

/// The parameters of a question for a page: its own, how many rows, and from which on.
pub open spec fn page_params(own: Seq<Cell>, offset: usize, limit: usize) -> Seq<Cell> {
    own + seq![Cell::Integer(limit as i64), Cell::Integer(offset as i64)]
}

/// Whether an answer is the one that the database gives to a question.
pub open spec fn is_right(shelves: Shelves, q: StatementView, a: AnswerView) -> bool {
    &&& is_right_of_tracks(shelves, q, a)
    &&& asks_whether_any(q, "composer"@) ==> says_whether(
        shelves,
        |t: TrackEntry| is_tagged(t.composer),
        a,
    )
    &&& asks_whether_any(q, "conductor"@) ==> says_whether(
        shelves,
        |t: TrackEntry| is_tagged(t.conductor),
        a,
    )
    &&& asks_whether_any(q, "performer"@) ==> says_whether(
        shelves,
        |t: TrackEntry| is_tagged(t.performer),
        a,
    )
    &&& asks_whether_any(q, "year"@) ==> says_whether(
        shelves,
        |t: TrackEntry| t.year is Some,
        a,
    )
    &&& q.sql == "SELECT COUNT(*) FROM tracks WHERE artist_norm = ?1"@ && q.params.len() == 1 ==> (
    q.params[0] matches Cell::Text(norm) ==> (scalar_of(a) matches Ok(n) && n == tracks_by(
        shelves,
        norm,
    ).len()))
    &&& forall|cat: ObjectIdView| #[trigger]
        asks_how_many_values(q, cat) ==> counts_values(shelves, cat, a)
    &&& forall|cat: ObjectIdView, offset: int, limit: int| #[trigger]
        asks_which_values(q, cat, offset, limit) && 0 <= offset <= i64::MAX && 0 <= limit
            <= i64::MAX ==> lists_values(shelves, cat, offset, limit, a)
    &&& forall|id: ObjectIdView| #[trigger] asks_how_many(q, id) ==> counts_albums(shelves, id, a)
    &&& forall|id: ObjectIdView, offset: int, limit: int| #[trigger]
        asks_which(q, id, offset, limit) && 0 <= offset <= i64::MAX && 0 <= limit <= i64::MAX
            ==> lists_albums(shelves, id, offset, limit, a)
}

// ── Laws ─────────────────────────────────────────────────────────────────

/// Whether an object holds nothing but albums.
pub open spec fn holds_albums(id: ObjectIdView) -> bool {
    match id {
        ObjectIdView::CatAl | ObjectIdView::CatHires | ObjectIdView::CatLossy
        | ObjectIdView::CatMixed | ObjectIdView::CatPlayed | ObjectIdView::Genre(_)
        | ObjectIdView::Composer(_) | ObjectIdView::Conductor(_) | ObjectIdView::Performer(_)
        | ObjectIdView::Year(_) | ObjectIdView::Decade(_) | ObjectIdView::UnknownGenre
        | ObjectIdView::UnknownYear | ObjectIdView::UnknownDecade => true,
        _ => false,
    }
}

proof fn lemma_album_rows(
    shelves: Shelves,
    art_base: Seq<char>,
    parent: Seq<char>,
    id: ObjectIdView,
    ids: Seq<i64>,
    shape: ShapeView,
)
    requires
        match id {
            ObjectIdView::AlbumArtist(name) => shape == (ShapeView::AlbumsOf {
                artist: name,
                parent,
            }) && forall|i: int| 0 <= i < ids.len() ==> shelves.albums[#[trigger] ids[i]].artist
                == name,
            _ => shape == (ShapeView::Albums { parent }),
        },
    ensures
        shape.containers(
            art_base,
            ids.map_values(
                |album: i64|
                    if id is AlbumArtist {
                        own_album_row(shelves, album)
                    } else {
                        album_row(shelves, album)
                    },
            ),
        ) == ids.map_values(|album: i64| shelved(shelves, art_base, parent, album)),
{
    let rows = ids.map_values(
        |album: i64|
            if id is AlbumArtist {
                own_album_row(shelves, album)
            } else {
                album_row(shelves, album)
            },
    );
    let f = |row: Seq<Cell>| shape.made(art_base, row);
    assert forall|i: int| 0 <= i < rows.len() implies f(#[trigger] rows[i]) == Some(
        shelved(shelves, art_base, parent, ids[i]),
    ) by {
        let a = shelves.albums[ids[i]];
        if id is AlbumArtist {
            assert(rows[i] == own_album_row(shelves, ids[i]));
        } else {
            assert(rows[i] == album_row(shelves, ids[i]));
        }
        assert(album_view(art_base, ids[i], a.title, a.artist, a.track_count, parent) == shelved(
            shelves,
            art_base,
            parent,
            ids[i],
        ));
    }
    text::lemma_filter_map_keeps_all(rows, f);
    assert forall|i: int| 0 <= i < rows.len() implies #[trigger] rows.filter_map(f)[i] == shelved(
        shelves,
        art_base,
        parent,
        ids[i],
    ) by {
        assert(f(rows[i]) == Some(rows.filter_map(f)[i]));
    }
    assert(shape.containers(art_base, rows) =~= ids.map_values(
        |album: i64| shelved(shelves, art_base, parent, album),
    ));
}

/// The two questions for the albums under an object.
#[verifier::rlimit(50)]
pub proof fn lemma_album_questions(ctx: BrowseContext, id: ObjectIdView, start: usize, count: usize) -> (q: (
    StatementView,
    StatementView,
))
    requires
        holds_albums(id),
    ensures
        asks_how_many(q.0, id),
        asks_which(q.1, id, start as int, count as int),
        forall|answers: Seq<AnswerView>| #[trigger]
            children_step(ctx, id, start, count, answers) == counted_step(
                q.0,
                q.1,
                listed(ShapeView::Albums { parent: encoded(id) }, ctx.art_base_url@),
                answers,
            ),
{
    let none = Seq::<Cell>::empty();
    match id {
        ObjectIdView::CatAl => (
            StatementView { sql: "SELECT COUNT(*) FROM albums"@, params: none },
            page_stmt(crate::browse::categories::ALBUMS_SQL@, none, start, count),
        ),
        ObjectIdView::CatHires => quality_questions("hires"@, start, count),
        ObjectIdView::CatLossy => quality_questions("lossy"@, start, count),
        ObjectIdView::CatMixed => quality_questions("mixed"@, start, count),
        ObjectIdView::CatPlayed => (
            StatementView { sql: crate::browse::played::PLAYED_COUNT_SQL@, params: none },
            page_stmt(crate::browse::played::PLAYED_SQL@, none, start, count),
        ),
        ObjectIdView::Genre(name) => track_questions(
            "t.genre = ?1"@,
            "LIMIT ?2 OFFSET ?3"@,
            seq![Cell::Text(name)],
            start,
            count,
        ),
        ObjectIdView::Composer(name) => track_questions(
            "t.composer = ?1"@,
            "LIMIT ?2 OFFSET ?3"@,
            seq![Cell::Text(name)],
            start,
            count,
        ),
        ObjectIdView::Conductor(name) => track_questions(
            "t.conductor = ?1"@,
            "LIMIT ?2 OFFSET ?3"@,
            seq![Cell::Text(name)],
            start,
            count,
        ),
        ObjectIdView::Performer(name) => track_questions(
            "t.performer = ?1"@,
            "LIMIT ?2 OFFSET ?3"@,
            seq![Cell::Text(name)],
            start,
            count,
        ),
        ObjectIdView::Year(y) => track_questions(
            "t.year = ?1"@,
            "LIMIT ?2 OFFSET ?3"@,
            seq![Cell::Integer(y as i64)],
            start,
            count,
        ),
        ObjectIdView::Decade(d) => track_questions(
            "t.year BETWEEN ?1 AND ?2"@,
            "LIMIT ?3 OFFSET ?4"@,
            seq![Cell::Integer(d as i64), Cell::Integer((d + 9) as i64)],
            start,
            count,
        ),
        ObjectIdView::UnknownGenre => untagged_questions(
            "t.genre IS NOT NULL AND t.genre != ''"@,
            start,
            count,
        ),
        _ => untagged_questions("t.year IS NOT NULL"@, start, count),
    }
}

spec fn quality_questions(label: Seq<char>, start: usize, count: usize) -> (
    StatementView,
    StatementView,
) {
    (
        StatementView {
            sql: crate::browse::quality::QUALITY_COUNT_SQL@,
            params: seq![Cell::Text(label)],
        },
        page_stmt(
            crate::browse::quality::QUALITY_SQL@,
            seq![Cell::Text(label)],
            start,
            count,
        ),
    )
}

spec fn track_questions(
    condition: Seq<char>,
    page: Seq<char>,
    own: Seq<Cell>,
    start: usize,
    count: usize,
) -> (StatementView, StatementView) {
    (
        StatementView { sql: count_with_track(condition), params: own },
        page_stmt(list_with_track(condition, page), own, start, count),
    )
}

spec fn untagged_questions(condition: Seq<char>, start: usize, count: usize) -> (
    StatementView,
    StatementView,
) {
    (
        StatementView { sql: count_without(condition), params: Seq::empty() },
        page_stmt(list_without(condition), Seq::empty(), start, count),
    )
}

/// Whether the questions of some work got the right answers.
pub open spec fn work_answered_rightly(
    shelves: Shelves,
    step: spec_fn(Seq<AnswerView>) -> StepView<ChildrenView>,
    answers: Seq<AnswerView>,
) -> bool {
    forall|i: int|
        0 <= i < answers.len() ==> (step(#[trigger] answers.take(i)) matches StepView::Query(q)
            ==> is_right(shelves, q, answers[i]))
}

proof fn lemma_counted_albums(
    shelves: Shelves,
    art_base: Seq<char>,
    parent: Seq<char>,
    id: ObjectIdView,
    start: usize,
    count: usize,
    q: (StatementView, StatementView),
    step: spec_fn(Seq<AnswerView>) -> StepView<ChildrenView>,
    all: Seq<AnswerView>,
    r: ChildrenView,
)
    requires
        !(id is AlbumArtist),
        asks_how_many(q.0, id),
        asks_which(q.1, id, start as int, count as int),
        start <= i64::MAX,
        count <= i64::MAX,
        albums_under(shelves, id).len() <= usize::MAX,
        forall|a: Seq<AnswerView>| #[trigger]
            step(a) == counted_step(q.0, q.1, listed(ShapeView::Albums { parent }, art_base), a),
        work_answered_rightly(shelves, step, all),
        step(all) == StepView::<ChildrenView>::Done(Ok(r)),
    ensures
        r.total_matches == albums_under(shelves, id).len(),
        r.didl.items.len() == 0,
        exists|ids: Seq<i64>| #[trigger]
            in_order(shelves, id, ids) && r.didl.containers == cut(
                ids,
                start as int,
                count as int,
            ).map_values(|album: i64| shelved(shelves, art_base, parent, album)),
{
    assert(all.take(0).len() == 0);
    assert(step(all.take(0)) == StepView::<ChildrenView>::Query(q.0));
    assert(is_right(shelves, q.0, all[0]));
    assert(counts_albums(shelves, id, all[0]));
    assert(all.take(1).len() == 1 && all.take(1)[0] == all[0]);
    assert(step(all.take(1)) == StepView::<ChildrenView>::Query(q.1));
    assert(is_right(shelves, q.1, all[1]));
    assert(lists_albums(shelves, id, start as int, count as int, all[1]));
    let rows = rows_of(all[1])->Ok_0;
    let ids = choose|ids: Seq<i64>| #[trigger]
        in_order(shelves, id, ids) && rows == cut(ids, start as int, count as int).map_values(
            |album: i64|
                if id is AlbumArtist {
                    own_album_row(shelves, album)
                } else {
                    album_row(shelves, album)
                },
        );
    lemma_album_rows(
        shelves,
        art_base,
        parent,
        id,
        cut(ids, start as int, count as int),
        ShapeView::Albums { parent },
    );
}

/// What stands under a genre, a composer, a conductor, a performer, a year, a decade, a
/// quality, or among the albums without a tag, all albums or those ever played: exactly the
/// albums that belong there, in their order. The number told is that of all of them, and a
/// page holds those from its start on, as many as were asked for.
#[verifier::rlimit(100)]
pub proof fn lists_hold_the_albums_that_belong(
    shelves: Shelves,
    ctx: &BrowseContext,
    id: &ObjectId,
    start: usize,
    count: usize,
    answers: &[Answer],
    r: ChildrenResult,
)
    requires
        call_ensures(
            browse_children,
            (ctx, id, start, count, answers),
            Step::Done(Ok::<ChildrenResult, crate::error::Error>(r)),
        ),
        holds_albums(id@),
        start <= i64::MAX,
        count <= i64::MAX,
        albums_under(shelves, id@).len() <= usize::MAX,
        work_answered_rightly(
            shelves,
            |a: Seq<AnswerView>| children_step(*ctx, id@, start, count, a),
            answers_view(answers@),
        ),
    ensures
        r.total_matches == albums_under(shelves, id@).len(),
        r@.didl.items.len() == 0,
        exists|ids: Seq<i64>| #[trigger]
            in_order(shelves, id@, ids) && r@.didl.containers == cut(
                ids,
                start as int,
                count as int,
            ).map_values(
                |album: i64| shelved(shelves, ctx.art_base_url@, encoded(id@), album),
            ),
{
    let all = answers_view(answers@);
    let q = lemma_album_questions(*ctx, id@, start, count);
    let step = |a: Seq<AnswerView>| children_step(*ctx, id@, start, count, a);
    lemma_counted_albums(
        shelves,
        ctx.art_base_url@,
        encoded(id@),
        id@,
        start,
        count,
        q,
        step,
        all,
        r@,
    );
}

// ── Artists ──────────────────────────────────────────────────────────────

/// Whether a container stands for all tracks of an artist.
pub open spec fn is_shortcut(
    c: ContainerView,
    name: Seq<char>,
    tracks: int,
    parent: Seq<char>,
) -> bool {
    &&& c.id == encoded(ObjectIdView::ArtistTracks(name))
    &&& c.parent_id == parent
    &&& c.title == "All tracks ("@ + decimal_int(tracks) + ")"@
    &&& c.child_count == Some(tracks as i64)
}

/// The two questions for the albums of an artist.
pub proof fn lemma_artist_questions(
    ctx: BrowseContext,
    id: ObjectIdView,
    name: Seq<char>,
    start: usize,
    count: usize,
) -> (r: (StatementView, Seq<char>, ShapeView))
    requires
        id == ObjectIdView::AlbumArtist(name) || id == ObjectIdView::Artist(name),
    ensures
        asks_how_many(r.0, id),
        forall|from: usize, n: usize| #[trigger]
            asks_which(
                page_stmt(r.1, seq![Cell::Text(name)], from, n),
                id,
                from as int,
                n as int,
            ),
        id is AlbumArtist ==> r.2 == (ShapeView::AlbumsOf { artist: name, parent: encoded(id) }),
        id is Artist ==> r.2 == (ShapeView::Albums { parent: encoded(id) }),
        forall|answers: Seq<AnswerView>| #[trigger]
            children_step(ctx, id, start, count, answers) == artist_step(
                r.0,
                r.1,
                r.2,
                name,
                encoded(id),
                ctx.art_base_url@,
                start,
                count,
                answers,
            ),
{
    if id is AlbumArtist {
        (
            StatementView {
                sql: crate::browse::albums::BY_ALBUM_ARTIST_COUNT_SQL@,
                params: seq![Cell::Text(name)],
            },
            crate::browse::albums::BY_ALBUM_ARTIST_SQL@,
            ShapeView::AlbumsOf { artist: name, parent: encoded(id) },
        )
    } else {
        (
            StatementView {
                sql: count_with_track("t.artist = ?1"@),
                params: seq![Cell::Text(name)],
            },
            list_with_track("t.artist = ?1"@, "LIMIT ?2 OFFSET ?3"@),
            ShapeView::Albums { parent: encoded(id) },
        )
    }
}

proof fn lemma_artist_albums(
    shelves: Shelves,
    art_base: Seq<char>,
    id: ObjectIdView,
    name: Seq<char>,
    start: usize,
    count: usize,
    q: (StatementView, Seq<char>, ShapeView),
    step: spec_fn(Seq<AnswerView>) -> StepView<ChildrenView>,
    all: Seq<AnswerView>,
    r: ChildrenView,
)
    requires
        id == ObjectIdView::AlbumArtist(name) || id == ObjectIdView::Artist(name),
        asks_how_many(q.0, id),
        forall|from: usize, n: usize| #[trigger]
            asks_which(
                page_stmt(q.1, seq![Cell::Text(name)], from, n),
                id,
                from as int,
                n as int,
            ),
        id is AlbumArtist ==> q.2 == (ShapeView::AlbumsOf { artist: name, parent: encoded(id) }),
        id is Artist ==> q.2 == (ShapeView::Albums { parent: encoded(id) }),
        start <= i64::MAX,
        count <= i64::MAX,
        albums_under(shelves, id).len() < usize::MAX,
        forall|a: Seq<AnswerView>| #[trigger]
            step(a) == artist_step(
                q.0,
                q.1,
                q.2,
                name,
                encoded(id),
                art_base,
                start,
                count,
                a,
            ),
        work_answered_rightly(shelves, step, all),
        step(all) == StepView::<ChildrenView>::Done(Ok(r)),
    ensures
        ({
            let tracks = tracks_by(shelves, search_form(name)).len();
            &&& r.didl.items.len() == 0
            &&& r.total_matches == albums_under(shelves, id).len() + if tracks > 0 {
                1int
            } else {
                0
            }
            &&& exists|ids: Seq<i64>, shortcut: ContainerView| #[trigger]
                in_order(shelves, id, ids) && #[trigger] is_shortcut(
                    shortcut,
                    name,
                    tracks as int,
                    encoded(id),
                ) && r.didl.containers == cut(
                    (if tracks > 0 {
                        seq![shortcut]
                    } else {
                        Seq::empty()
                    }) + ids.map_values(
                        |album: i64| shelved(shelves, art_base, encoded(id), album),
                    ),
                    start as int,
                    count as int,
                )
        }),
{
    let norm = search_form(name);
    let own = seq![Cell::Text(name)];
    let parent = encoded(id);
    let made = |album: i64| shelved(shelves, art_base, parent, album);
    assert(all.take(0).len() == 0);
    assert(step(all.take(0)) == StepView::<ChildrenView>::Query(track_count_stmt(name)));
    assert(is_right(shelves, track_count_stmt(name), all[0]));
    let tracks = scalar_of(all[0])->Ok_0;
    assert(tracks == tracks_by(shelves, norm).len());
    assert(all.take(1).len() == 1 && all.take(1)[0] == all[0]);
    assert(step(all.take(1)) == StepView::<ChildrenView>::Query(q.0));
    assert(is_right(shelves, q.0, all[1]));
    assert(counts_albums(shelves, id, all[1]));
    let (from, n) = if tracks > 0 {
        crate::browse::albums::behind_shortcut(start, count)
    } else {
        (start, count)
    };
    let list = page_stmt(q.1, own, from, n);
    assert(all.take(2).len() == 2 && all.take(2)[0] == all[0] && all.take(2)[1] == all[1]);
    assert(step(all.take(2)) == StepView::<ChildrenView>::Query(list));
    assert(is_right(shelves, list, all[2]));
    assert(asks_which(list, id, from as int, n as int));
    assert(lists_albums(shelves, id, from as int, n as int, all[2]));
    let rows = rows_of(all[2])->Ok_0;
    let ids = choose|ids: Seq<i64>| #[trigger]
        in_order(shelves, id, ids) && rows == cut(ids, from as int, n as int).map_values(
            |album: i64|
                if id is AlbumArtist {
                    own_album_row(shelves, album)
                } else {
                    album_row(shelves, album)
                },
        );
    let page = cut(ids, from as int, n as int);
    assert forall|i: int| 0 <= i < page.len() && id is AlbumArtist implies shelves.albums[#[trigger] page[i]].artist
        == name by {
        let k = if from + i < ids.len() {
            from + i
        } else {
            0
        };
        assert(page[i] == ids[k]);
        assert(ids.contains(ids[k]));
    }
    lemma_album_rows(shelves, art_base, parent, id, page, q.2);
    let shortcut = at_view(art_base, name, tracks, parent);
    assert(is_shortcut(shortcut, name, tracks as int, parent));
    let full = (if tracks > 0 {
        seq![shortcut]
    } else {
        Seq::empty()
    }) + ids.map_values(made);
    let c = r.didl.containers;
    if tracks > 0 && start == 0 && count > 0 {
        assert(c == seq![shortcut] + page.map_values(made));
        assert(c =~= cut(full, start as int, count as int));
    } else {
        assert(c == page.map_values(made));
        assert(c =~= cut(full, start as int, count as int));
    }
    assert(in_order(shelves, id, ids));
}

/// Under an artist stands, where the artist has tracks, a container of all of them, told
/// with their number, and behind it the albums: those of an album artist, or those with a
/// track of an artist, in the order of their titles. Pages are cut from the list as a
/// whole.
#[verifier::rlimit(100)]
pub proof fn artists_hold_all_tracks_and_their_albums(
    shelves: Shelves,
    ctx: &BrowseContext,
    id: &ObjectId,
    name: Seq<char>,
    start: usize,
    count: usize,
    answers: &[Answer],
    r: ChildrenResult,
)
    requires
        call_ensures(
            browse_children,
            (ctx, id, start, count, answers),
            Step::Done(Ok::<ChildrenResult, crate::error::Error>(r)),
        ),
        id@ == ObjectIdView::AlbumArtist(name) || id@ == ObjectIdView::Artist(name),
        start <= i64::MAX,
        count <= i64::MAX,
        albums_under(shelves, id@).len() < usize::MAX,
        work_answered_rightly(
            shelves,
            |a: Seq<AnswerView>| children_step(*ctx, id@, start, count, a),
            answers_view(answers@),
        ),
    ensures
        ({
            let tracks = tracks_by(shelves, search_form(name)).len();
            &&& r@.didl.items.len() == 0
            &&& r.total_matches == albums_under(shelves, id@).len() + if tracks > 0 {
                1int
            } else {
                0
            }
            &&& exists|ids: Seq<i64>, shortcut: ContainerView| #[trigger]
                in_order(shelves, id@, ids) && #[trigger] is_shortcut(
                    shortcut,
                    name,
                    tracks as int,
                    encoded(id@),
                ) && r@.didl.containers == cut(
                    (if tracks > 0 {
                        seq![shortcut]
                    } else {
                        Seq::empty()
                    }) + ids.map_values(
                        |album: i64| shelved(shelves, ctx.art_base_url@, encoded(id@), album),
                    ),
                    start as int,
                    count as int,
                )
        }),
{
    let q = lemma_artist_questions(*ctx, id@, name, start, count);
    lemma_artist_albums(
        shelves,
        ctx.art_base_url@,
        id@,
        name,
        start,
        count,
        q,
        |a: Seq<AnswerView>| children_step(*ctx, id@, start, count, a),
        answers_view(answers@),
        r@,
    );
}

// ── Values ───────────────────────────────────────────────────────────────

/// The container of a value under a category.
pub open spec fn value_container(cat: ObjectIdView, v: Cell) -> ContainerView {
    let name = v->Text_0;
    let n = v->Integer_0 as int;
    let person = "object.container.person.musicArtist"@;
    let (id, title, class) = match cat {
        ObjectIdView::CatAa => (encoded(ObjectIdView::AlbumArtist(name)), name, person),
        ObjectIdView::CatAr => (encoded(ObjectIdView::Artist(name)), name, person),
        ObjectIdView::CatGn => (
            encoded(ObjectIdView::Genre(name)),
            name,
            "object.container.genre.musicGenre"@,
        ),
        ObjectIdView::CatCm => (encoded(ObjectIdView::Composer(name)), name, person),
        ObjectIdView::CatCn => (encoded(ObjectIdView::Conductor(name)), name, person),
        ObjectIdView::CatPf => (encoded(ObjectIdView::Performer(name)), name, person),
        ObjectIdView::CatYr => ("yr:"@ + decimal_int(n), decimal_int(n), "object.container"@),
        _ => ("dec:"@ + decimal_int(n), decimal_int(n) + "s"@, "object.container"@),
    };
    ContainerView {
        id,
        parent_id: encoded(cat),
        title,
        upnp_class: class,
        child_count: None,
        artist: None,
        album_art_uri: None,
    }
}

/// What stands behind the values of a category for the albums without one, where there
/// is such a place.
pub open spec fn tail_of(cat: ObjectIdView) -> Option<(ObjectIdView, ContainerView)> {
    let tail = |id: Seq<char>, title: Seq<char>, class: Seq<char>|
        ContainerView {
            id,
            parent_id: encoded(cat),
            title,
            upnp_class: class,
            child_count: None,
            artist: None,
            album_art_uri: None,
        };
    match cat {
        ObjectIdView::CatGn => Some(
            (
                ObjectIdView::UnknownGenre,
                tail("gn:"@, "Unknown Genre"@, "object.container.genre.musicGenre"@),
            ),
        ),
        ObjectIdView::CatYr => Some(
            (ObjectIdView::UnknownYear, tail("yr:0"@, "Unknown Year"@, "object.container"@)),
        ),
        ObjectIdView::CatDec => Some(
            (ObjectIdView::UnknownDecade, tail("dec:0"@, "Unknown Decade"@, "object.container"@)),
        ),
        _ => None,
    }
}

/// What stands behind the values of a category: a place for the albums without a value,
/// where there are such albums.
pub open spec fn tail_under(shelves: Shelves, cat: ObjectIdView) -> Seq<ContainerView> {
    match tail_of(cat) {
        Some((unknown, tail)) => if albums_under(shelves, unknown).len() > 0 {
            seq![tail]
        } else {
            Seq::empty()
        },
        None => Seq::empty(),
    }
}

/// Whether an object is a category of values.
pub open spec fn holds_values(cat: ObjectIdView) -> bool {
    match cat {
        ObjectIdView::CatAa | ObjectIdView::CatAr | ObjectIdView::CatGn | ObjectIdView::CatCm
        | ObjectIdView::CatCn | ObjectIdView::CatPf | ObjectIdView::CatYr
        | ObjectIdView::CatDec => true,
        _ => false,
    }
}

/// What the rows of a category become.
pub open spec fn value_shape(cat: ObjectIdView) -> ShapeView {
    match cat {
        ObjectIdView::CatAa => ShapeView::Names(Named::AlbumArtist),
        ObjectIdView::CatAr => ShapeView::Names(Named::Artist),
        ObjectIdView::CatGn => ShapeView::Names(Named::Genre),
        ObjectIdView::CatCm => ShapeView::Names(Named::Composer),
        ObjectIdView::CatCn => ShapeView::Names(Named::Conductor),
        ObjectIdView::CatPf => ShapeView::Names(Named::Performer),
        ObjectIdView::CatYr => ShapeView::Years,
        _ => ShapeView::Decades,
    }
}

/// Whether a value is one that a category can hold.
spec fn fits(cat: ObjectIdView, v: Cell) -> bool {
    if cat is CatYr || cat is CatDec {
        v matches Cell::Integer(n) && i32::MIN <= n <= i32::MAX
    } else {
        v is Text
    }
}

proof fn lemma_values_fit(shelves: Shelves, cat: ObjectIdView, values: Seq<Cell>)
    requires
        holds_values(cat),
        values.to_set() == values_under(shelves, cat),
        forall|t: i64| #[trigger]
            shelves.tracks.contains_key(t) ==> (shelves.tracks[t].year matches Some(y) ==> i32::MIN
                <= y <= i32::MAX),
    ensures
        forall|i: int| 0 <= i < values.len() ==> fits(cat, #[trigger] values[i]),
{
    assert forall|i: int| 0 <= i < values.len() implies fits(cat, #[trigger] values[i]) by {
        assert(values.to_set().contains(values[i]));
        let v = values[i];
        assert(values_under(shelves, cat).contains(v));
        if cat is CatYr || cat is CatDec {
            let some = shelves.tracks.dom().filter(|t: i64| shelves.tracks[t].year is Some);
            let t = choose|t: i64|
                #![auto]
                some.contains(t) && v == (if cat is CatYr {
                    Cell::Integer(shelves.tracks[t].year->0 as i64)
                } else {
                    Cell::Integer(decade_of(shelves.tracks[t].year->0) as i64)
                });
            assert(some.contains(t));
            assert(shelves.tracks.contains_key(t));
        }
    }
}

proof fn lemma_value_rows(art_base: Seq<char>, cat: ObjectIdView, values: Seq<Cell>)
    requires
        holds_values(cat),
        forall|i: int| 0 <= i < values.len() ==> fits(cat, #[trigger] values[i]),
    ensures
        value_shape(cat).containers(art_base, values.map_values(|v: Cell| seq![v]))
            == values.map_values(|v: Cell| value_container(cat, v)),
{
    let shape = value_shape(cat);
    let rows = values.map_values(|v: Cell| seq![v]);
    let f = |row: Seq<Cell>| shape.made(art_base, row);
    assert forall|i: int| 0 <= i < rows.len() implies f(#[trigger] rows[i]) == Some(
        value_container(cat, values[i]),
    ) by {
        assert(rows[i] == seq![values[i]]);
        assert(fits(cat, values[i]));
    }
    text::lemma_filter_map_keeps_all(rows, f);
    assert forall|i: int| 0 <= i < rows.len() implies #[trigger] rows.filter_map(f)[i]
        == value_container(cat, values[i]) by {
        assert(f(rows[i]) == Some(rows.filter_map(f)[i]));
    }
    assert(shape.containers(art_base, rows) =~= values.map_values(
        |v: Cell| value_container(cat, v),
    ));
}

/// The questions for the values of a category, and what is made of the answers.
#[verifier::rlimit(50)]
pub proof fn lemma_value_questions(ctx: BrowseContext, cat: ObjectIdView, start: usize, count: usize) -> (q: (
    StatementView,
    StatementView,
    StatementView,
))
    requires
        holds_values(cat),
    ensures
        asks_how_many_values(q.0, cat),
        tail_of(cat) matches Some(t) ==> asks_how_many(q.1, t.0),
        asks_which_values(q.2, cat, start as int, count as int),
        forall|answers: Seq<AnswerView>| #[trigger]
            children_step(ctx, cat, start, count, answers) == match tail_of(cat) {
                None => counted_step(
                    q.0,
                    q.2,
                    listed(value_shape(cat), ctx.art_base_url@),
                    answers,
                ),
                Some(t) => tailed_step(
                    q.0,
                    q.1,
                    q.2,
                    value_shape(cat),
                    ctx.art_base_url@,
                    t.1,
                    start,
                    count,
                    answers,
                ),
            },
{
    let none = Seq::<Cell>::empty();
    let list = |sql: Seq<char>| page_stmt(sql, none, start, count);
    match cat {
        ObjectIdView::CatAa => {
            let c = StatementView {
                sql: crate::browse::categories::ALBUM_ARTISTS_COUNT_SQL@,
                params: none,
            };
            (c, c, list(crate::browse::categories::ALBUM_ARTISTS_SQL@))
        },
        ObjectIdView::CatAr => (
            count_distinct("artist"@),
            count_distinct("artist"@),
            list(list_distinct("artist"@, ""@)),
        ),
        ObjectIdView::CatCm => (
            count_distinct("composer"@),
            count_distinct("composer"@),
            list(list_distinct("composer"@, " COLLATE NOCASE"@)),
        ),
        ObjectIdView::CatCn => (
            count_distinct("conductor"@),
            count_distinct("conductor"@),
            list(list_distinct("conductor"@, " COLLATE NOCASE"@)),
        ),
        ObjectIdView::CatPf => (
            count_distinct("performer"@),
            count_distinct("performer"@),
            list(list_distinct("performer"@, " COLLATE NOCASE"@)),
        ),
        ObjectIdView::CatGn => {
            assert(unknown_genre_view() == (tail_of(cat)->0).1);
            (
                count_distinct("genre"@),
                untagged_questions("t.genre IS NOT NULL AND t.genre != ''"@, start, count).0,
                list(list_distinct("genre"@, ""@)),
            )
        },
        ObjectIdView::CatYr => {
            assert(unknown_year_view() == (tail_of(cat)->0).1);
            (
                StatementView {
                    sql: crate::browse::categories::YEARS_COUNT_SQL@,
                    params: none,
                },
                untagged_questions("t.year IS NOT NULL"@, start, count).0,
                list(crate::browse::categories::YEARS_SQL@),
            )
        },
        _ => {
            assert(unknown_decade_view() == (tail_of(cat)->0).1);
            (
                StatementView {
                    sql: crate::browse::categories::DECADES_COUNT_SQL@,
                    params: none,
                },
                untagged_questions("t.year IS NOT NULL"@, start, count).0,
                list(crate::browse::categories::DECADES_SQL@),
            )
        },
    }
}

proof fn lemma_listed_values(
    shelves: Shelves,
    art_base: Seq<char>,
    cat: ObjectIdView,
    start: usize,
    count: usize,
    q: (StatementView, StatementView, StatementView),
    step: spec_fn(Seq<AnswerView>) -> StepView<ChildrenView>,
    all: Seq<AnswerView>,
    r: ChildrenView,
)
    requires
        holds_values(cat),
        asks_how_many_values(q.0, cat),
        tail_of(cat) matches Some(t) ==> asks_how_many(q.1, t.0),
        asks_which_values(q.2, cat, start as int, count as int),
        start <= i64::MAX,
        count <= i64::MAX,
        values_under(shelves, cat).len() < usize::MAX,
        forall|t: i64| #[trigger]
            shelves.tracks.contains_key(t) ==> (shelves.tracks[t].year matches Some(y) ==> i32::MIN
                <= y <= i32::MAX),
        forall|answers: Seq<AnswerView>| #[trigger]
            step(answers) == match tail_of(cat) {
                None => counted_step(q.0, q.2, listed(value_shape(cat), art_base), answers),
                Some(t) => tailed_step(
                    q.0,
                    q.1,
                    q.2,
                    value_shape(cat),
                    art_base,
                    t.1,
                    start,
                    count,
                    answers,
                ),
            },
        work_answered_rightly(shelves, step, all),
        step(all) == StepView::<ChildrenView>::Done(Ok(r)),
    ensures
        r.didl.items.len() == 0,
        r.total_matches == values_under(shelves, cat).len() + tail_under(shelves, cat).len(),
        exists|values: Seq<Cell>| #[trigger]
            values_in_order(shelves, cat, values) && r.didl.containers == cut(
                values.map_values(|v: Cell| value_container(cat, v)) + tail_under(shelves, cat),
                start as int,
                count as int,
            ),
{
    assert(all.take(0).len() == 0);
    assert(step(all.take(0)) == StepView::<ChildrenView>::Query(q.0));
    assert(is_right(shelves, q.0, all[0]));
    assert(counts_values(shelves, cat, all[0]));
    assert(all.take(1).len() == 1 && all.take(1)[0] == all[0]);
    let at: int = if tail_of(cat) is Some {
        2
    } else {
        1
    };
    if tail_of(cat) is Some {
        assert(step(all.take(1)) == StepView::<ChildrenView>::Query(q.1));
        assert(is_right(shelves, q.1, all[1]));
        assert(counts_albums(shelves, (tail_of(cat)->0).0, all[1]));
        assert(all.take(2).len() == 2 && all.take(2)[0] == all[0] && all.take(2)[1] == all[1]);
    }
    assert(step(all.take(at)) == StepView::<ChildrenView>::Query(q.2));
    assert(is_right(shelves, q.2, all[at]));
    assert(lists_values(shelves, cat, start as int, count as int, all[at]));
    let rows = rows_of(all[at])->Ok_0;
    let values = choose|values: Seq<Cell>| #[trigger]
        values_in_order(shelves, cat, values) && rows == cut(
            values,
            start as int,
            count as int,
        ).map_values(|v: Cell| seq![v]);
    values.unique_seq_to_set();
    let n = values.len();
    assert(n == values_under(shelves, cat).len());
    lemma_values_fit(shelves, cat, values);
    let page = cut(values, start as int, count as int);
    assert forall|i: int| 0 <= i < page.len() implies fits(cat, #[trigger] page[i]) by {
        assert(page[i] == values[start + i]);
    }
    lemma_value_rows(art_base, cat, page);
    let made = |v: Cell| value_container(cat, v);
    let tail = tail_under(shelves, cat);
    let full = values.map_values(made) + tail;
    let c = r.didl.containers;
    if tail.len() > 0 && start <= n && n - start < count {
        assert(c == page.map_values(made).push(tail[0]));
        assert(c =~= cut(full, start as int, count as int));
    } else {
        assert(c == page.map_values(made));
        assert(c =~= cut(full, start as int, count as int));
    }
}

/// Under a category of names, years or decades stands each value that an album or a track
/// has, once and in order, and behind them, where some album has no genre or no year, the
/// place of those albums. The number told is that of all of these, and pages are cut from
/// the list as a whole.
#[verifier::rlimit(100)]
pub proof fn categories_hold_the_values_there_are(
    shelves: Shelves,
    ctx: &BrowseContext,
    id: &ObjectId,
    start: usize,
    count: usize,
    answers: &[Answer],
    r: ChildrenResult,
)
    requires
        call_ensures(
            browse_children,
            (ctx, id, start, count, answers),
            Step::Done(Ok::<ChildrenResult, crate::error::Error>(r)),
        ),
        holds_values(id@),
        start <= i64::MAX,
        count <= i64::MAX,
        values_under(shelves, id@).len() < usize::MAX,
        forall|t: i64| #[trigger]
            shelves.tracks.contains_key(t) ==> (shelves.tracks[t].year matches Some(y) ==> i32::MIN
                <= y <= i32::MAX),
        work_answered_rightly(
            shelves,
            |a: Seq<AnswerView>| children_step(*ctx, id@, start, count, a),
            answers_view(answers@),
        ),
    ensures
        r@.didl.items.len() == 0,
        r.total_matches == values_under(shelves, id@).len() + tail_under(shelves, id@).len(),
        exists|values: Seq<Cell>| #[trigger]
            values_in_order(shelves, id@, values) && r@.didl.containers == cut(
                values.map_values(|v: Cell| value_container(id@, v)) + tail_under(shelves, id@),
                start as int,
                count as int,
            ),
{
    let q = lemma_value_questions(*ctx, id@, start, count);
    lemma_listed_values(
        shelves,
        ctx.art_base_url@,
        id@,
        start,
        count,
        q,
        |a: Seq<AnswerView>| children_step(*ctx, id@, start, count, a),
        answers_view(answers@),
        r@,
    );
}

// ── The root ─────────────────────────────────────────────────────────────

/// The title of a category that is shown under the root; none where it is not shown, or
/// is no category.
pub open spec fn shown_title(shelves: Shelves, quality: bool, id: Seq<char>) -> Option<Seq<char>> {
    let some = |f: spec_fn(TrackEntry) -> bool| exists|t: i64| #[trigger]
        shelves.tracks.contains_key(t) && f(shelves.tracks[t]);
    let when = |shown: bool, title: Seq<char>|
        if shown {
            Some(title)
        } else {
            None
        };
    if id == "cat:aa"@ {
        Some("Album Artist"@)
    } else if id == "cat:ar"@ {
        Some("Artist"@)
    } else if id == "cat:al"@ {
        Some("Album"@)
    } else if id == "cat:gn"@ {
        Some("Genre"@)
    } else if id == "cat:recent"@ {
        Some("Recently Added"@)
    } else if id == "cat:played"@ {
        Some("Recently Played"@)
    } else if id == "cat:random"@ {
        Some("Random Albums"@)
    } else if id == "cat:hires"@ {
        when(quality, "Hi-Res Albums"@)
    } else if id == "cat:lossy"@ {
        when(quality, "Lossy Albums"@)
    } else if id == "cat:mixed"@ {
        when(quality, "Mixed Quality"@)
    } else if id == "cat:cm"@ {
        when(some(|t: TrackEntry| is_tagged(t.composer)), "Composer"@)
    } else if id == "cat:cn"@ {
        when(some(|t: TrackEntry| is_tagged(t.conductor)), "Conductor"@)
    } else if id == "cat:pf"@ {
        when(some(|t: TrackEntry| is_tagged(t.performer)), "Performer"@)
    } else if id == "cat:yr"@ {
        when(some(|t: TrackEntry| t.year is Some), "Year"@)
    } else if id == "cat:dec"@ {
        when(some(|t: TrackEntry| t.year is Some), "Decade"@)
    } else {
        None
    }
}

/// The categories that are shown of those named, in their order.
pub open spec fn shown_categories(shelves: Shelves, quality: bool, ids: Seq<Seq<char>>) -> Seq<
    ContainerView,
>
    decreases ids.len(),
{
    if ids.len() == 0 {
        Seq::empty()
    } else {
        let rest = shown_categories(shelves, quality, ids.skip(1));
        match shown_title(shelves, quality, ids[0]) {
            Some(title) => seq![
                ContainerView {
                    id: ids[0],
                    parent_id: "0"@,
                    title,
                    upnp_class: "object.container"@,
                    child_count: None,
                    artist: None,
                    album_art_uri: None,
                },
            ] + rest,
            None => rest,
        }
    }
}

proof fn lemma_shown_categories(
    shelves: Shelves,
    ids: Seq<Seq<char>>,
    quality: bool,
    answers: Seq<AnswerView>,
    shown: Seq<ContainerView>,
    r: ChildrenView,
)
    requires
        root_step(ids, quality, answers, shown) == StepView::<ChildrenView>::Done(Ok(r)),
        work_answered_rightly(
            shelves,
            |a: Seq<AnswerView>| root_step(ids, quality, a, shown),
            answers,
        ),
    ensures
        r.didl.containers == shown + shown_categories(shelves, quality, ids),
        r.didl.items.len() == 0,
        r.total_matches == r.didl.containers.len() as usize,
    decreases ids.len(),
{
    let step = |a: Seq<AnswerView>| root_step(ids, quality, a, shown);
    if ids.len() == 0 {
        assert(shown + shown_categories(shelves, quality, ids) =~= shown);
    } else {
        let rest = ids.skip(1);
        match category(ids[0]) {
            None => {
                let next = |a: Seq<AnswerView>| root_step(rest, quality, a, shown);
                assert forall|i: int| 0 <= i < answers.len() implies (next(
                    #[trigger] answers.take(i),
                ) matches StepView::Query(q) ==> is_right(shelves, q, answers[i])) by {
                    assert(step(answers.take(i)) == next(answers.take(i)));
                }
                lemma_shown_categories(shelves, rest, quality, answers, shown, r);
            },
            Some((title, when)) => {
                let with = shown.push(category_view(ids[0], title));
                match when {
                    Shown::WithAny(column) => {
                        assert(answers.take(0).len() == 0);
                        let q = plain_stmt(crate::browse::categories::has_any_sql(column));
                        assert(step(answers.take(0)) == StepView::<ChildrenView>::Query(q));
                        assert(is_right(shelves, q, answers[0]));
                        assert(asks_whether_any(q, column));
                        let then = if says_any(answers[0]) {
                            with
                        } else {
                            shown
                        };
                        let left = answers.skip(1);
                        let next = |a: Seq<AnswerView>| root_step(rest, quality, a, then);
                        assert forall|i: int| 0 <= i < left.len() implies (next(
                            #[trigger] left.take(i),
                        ) matches StepView::Query(q) ==> is_right(shelves, q, left[i])) by {
                            let a = answers.take(i + 1);
                            assert(a.skip(1) =~= left.take(i));
                            assert(a[0] == answers[0]);
                            assert(step(a) == next(left.take(i)));
                            assert(answers[i + 1] == left[i]);
                        }
                        lemma_shown_categories(shelves, rest, quality, left, then, r);
                        assert(says_any(answers[0]) <==> shown_title(shelves, quality, ids[0])
                            is Some);
                    },
                    _ => {
                        let then = if when is Always || quality {
                            with
                        } else {
                            shown
                        };
                        let next = |a: Seq<AnswerView>| root_step(rest, quality, a, then);
                        assert forall|i: int| 0 <= i < answers.len() implies (next(
                            #[trigger] answers.take(i),
                        ) matches StepView::Query(q) ==> is_right(shelves, q, answers[i])) by {
                            assert(step(answers.take(i)) == next(answers.take(i)));
                        }
                        lemma_shown_categories(shelves, rest, quality, answers, then, r);
                    },
                }
                assert(r.didl.containers =~= shown + shown_categories(shelves, quality, ids));
            },
        }
    }
}

/// Under the root stand the categories that the settings name, in their order and with
/// their titles: those of qualities where they are wanted, those of composers, conductors,
/// performers, years and decades where some track has one, and the others always.
pub proof fn root_shows_the_categories_named(
    shelves: Shelves,
    ctx: &BrowseContext,
    answers: &[Answer],
    r: ChildrenResult,
)
    requires
        call_ensures(
            root_children,
            (ctx, answers),
            Step::Done(Ok::<ChildrenResult, crate::error::Error>(r)),
        ),
        work_answered_rightly(
            shelves,
            |a: Seq<AnswerView>|
                root_step(
                    texts(ctx.settings.top_level@),
                    ctx.settings.quality_categories,
                    a,
                    Seq::empty(),
                ),
            answers_view(answers@),
        ),
    ensures
        r@.didl.containers == shown_categories(
            shelves,
            ctx.settings.quality_categories,
            texts(ctx.settings.top_level@),
        ),
        r@.didl.items.len() == 0,
        r.total_matches == r.didl.containers@.len(),
{
    let shown = shown_categories(
        shelves,
        ctx.settings.quality_categories,
        texts(ctx.settings.top_level@),
    );
    lemma_shown_categories(
        shelves,
        texts(ctx.settings.top_level@),
        ctx.settings.quality_categories,
        answers_view(answers@),
        Seq::empty(),
        r@,
    );
    assert(Seq::<ContainerView>::empty() + shown =~= shown);
    assert(r@.didl.containers.len() == r.didl.containers@.len());
    assert(r.didl.containers@.len() == r.didl.containers.len());
}

// ── Tracks ───────────────────────────────────────────────────────────────

/// Whether the rows of tracks are such as lists of tracks have.
pub open spec fn rows_fit(shelves: Shelves) -> bool {
    forall|t: i64| #[trigger]
        shelves.tracks.contains_key(t) ==> {
            let e = shelves.tracks[t];
            &&& is_track_row(e.row, false) && e.row[0] == Cell::Integer(t)
            &&& is_track_row(e.told_row, true) && e.told_row[0] == Cell::Integer(t)
        }
}

/// Whether items are those of the tracks, in their order, each with what is known of its
/// track and to be had under its number.
pub open spec fn shows_tracks(
    shelves: Shelves,
    stream_base: Seq<char>,
    told: bool,
    ids: Seq<i64>,
    items: Seq<ItemView>,
) -> bool {
    &&& items.len() == ids.len()
    &&& forall|i: int|
        0 <= i < ids.len() ==> {
            let e = shelves.tracks[ids[i]];
            &&& shows_row(
                #[trigger] items[i],
                if told {
                    e.told_row
                } else {
                    e.row
                },
                told,
            )
            &&& items[i].id == "trk:"@ + decimal_int(ids[i] as int)
            &&& items[i].res.url == stream_base + "/"@ + decimal_int(ids[i] as int)
        }
}

proof fn lemma_track_rows(
    shelves: Shelves,
    art_base: Seq<char>,
    stream_base: Seq<char>,
    layout: RowLayout,
    ids: Seq<i64>,
)
    requires
        rows_fit(shelves),
        forall|i: int| 0 <= i < ids.len() ==> shelves.tracks.contains_key(#[trigger] ids[i]),
    ensures
        shows_tracks(
            shelves,
            stream_base,
            layout is Told,
            ids,
            items_at(
                art_base,
                stream_base,
                layout,
                ids.map_values(
                    |t: i64|
                        if layout is Told {
                            shelves.tracks[t].told_row
                        } else {
                            shelves.tracks[t].row
                        },
                ),
            ),
        ),
{
    let rows = ids.map_values(
        |t: i64|
            if layout is Told {
                shelves.tracks[t].told_row
            } else {
                shelves.tracks[t].row
            },
    );
    let f = |row: Seq<Cell>| item_at(art_base, stream_base, layout, row);
    assert forall|i: int| 0 <= i < rows.len() implies f(#[trigger] rows[i]) is Some by {
        assert(shelves.tracks.contains_key(ids[i]));
    }
    text::lemma_filter_map_keeps_all(rows, f);
    let items = items_at(art_base, stream_base, layout, rows);
    assert(items == rows.filter_map(f));
    assert forall|i: int| 0 <= i < ids.len() implies {
        let e = shelves.tracks[ids[i]];
        &&& shows_row(
            #[trigger] items[i],
            if layout is Told {
                e.told_row
            } else {
                e.row
            },
            layout is Told,
        )
        &&& items[i].id == "trk:"@ + decimal_int(ids[i] as int)
        &&& items[i].res.url == stream_base + "/"@ + decimal_int(ids[i] as int)
    } by {
        assert(shelves.tracks.contains_key(ids[i]));
        assert(f(rows[i]) == Some(rows.filter_map(f)[i]));
        lemma_item_shows_row(art_base, stream_base, layout, rows[i]);
    }
}

proof fn lemma_listed_tracks(
    shelves: Shelves,
    art_base: Seq<char>,
    stream_base: Seq<char>,
    layout: RowLayout,
    tracks: Set<i64>,
    start: usize,
    count: usize,
    a: AnswerView,
) -> (ids: Seq<i64>)
    requires
        rows_fit(shelves),
        tracks.subset_of(shelves.tracks.dom()),
        lists_tracks(shelves, layout is Told, tracks, start as int, count as int, a),
    ensures
        tracks_in_order(shelves, layout is Told, tracks, ids),
        rows_of(a) is Ok,
        shows_tracks(
            shelves,
            stream_base,
            layout is Told,
            cut(ids, start as int, count as int),
            items_at(art_base, stream_base, layout, rows_of(a)->Ok_0),
        ),
{
    let across = layout is Told;
    let rows = rows_of(a)->Ok_0;
    let ids = choose|ids: Seq<i64>| #[trigger]
        tracks_in_order(shelves, across, tracks, ids) && rows == cut(
            ids,
            start as int,
            count as int,
        ).map_values(
            |t: i64|
                if across {
                    shelves.tracks[t].told_row
                } else {
                    shelves.tracks[t].row
                },
        );
    let page = cut(ids, start as int, count as int);
    assert forall|i: int| 0 <= i < page.len() implies shelves.tracks.contains_key(
        #[trigger] page[i],
    ) by {
        assert(page[i] == ids[start + i]);
        assert(ids.to_set().contains(ids[start + i]));
    }
    lemma_track_rows(shelves, art_base, stream_base, layout, page);
    assert(rows =~= page.map_values(
        |t: i64|
            if layout is Told {
                shelves.tracks[t].told_row
            } else {
                shelves.tracks[t].row
            },
    ));
    ids
}

/// Under all tracks of an artist stand the tracks whose artist has that name, but for
/// case, accents and the like, across albums: by album, disc and number.
#[verifier::rlimit(50)]
pub proof fn all_tracks_of_an_artist_are_listed(
    shelves: Shelves,
    ctx: &BrowseContext,
    name: &str,
    start: usize,
    count: usize,
    answers: &[Answer],
    r: ChildrenResult,
)
    requires
        call_ensures(
            artist_tracks_children,
            (ctx, name, start, count, answers),
            Step::Done(Ok::<ChildrenResult, crate::error::Error>(r)),
        ),
        start <= i64::MAX,
        count <= i64::MAX,
        rows_fit(shelves),
        tracks_by(shelves, search_form(name@)).len() <= usize::MAX,
        work_answered_rightly(
            shelves,
            |a: Seq<AnswerView>|
                counted_step(
                    track_count_stmt(name@),
                    page_stmt(
                        ARTIST_TRACKS_SQL@,
                        seq![Cell::Text(search_form(name@))],
                        start,
                        count,
                    ),
                    tracks_listed(ctx.art_base_url@, ctx.stream_base_url@, RowLayout::Told),
                    a,
                ),
            answers_view(answers@),
        ),
    ensures
        r.total_matches == tracks_by(shelves, search_form(name@)).len(),
        r@.didl.containers.len() == 0,
        exists|ids: Seq<i64>| #[trigger]
            tracks_in_order(shelves, true, tracks_by(shelves, search_form(name@)), ids)
                && shows_tracks(
                shelves,
                ctx.stream_base_url@,
                true,
                cut(ids, start as int, count as int),
                r@.didl.items,
            ),
{
    let all = answers_view(answers@);
    let norm = search_form(name@);
    let own = seq![Cell::Text(norm)];
    let list = page_stmt(ARTIST_TRACKS_SQL@, own, start, count);
    let make = tracks_listed(ctx.art_base_url@, ctx.stream_base_url@, RowLayout::Told);
    let step = |a: Seq<AnswerView>| counted_step(track_count_stmt(name@), list, make, a);
    assert(all.take(0).len() == 0);
    assert(step(all.take(0)) == StepView::<ChildrenView>::Query(track_count_stmt(name@)));
    assert(is_right(shelves, track_count_stmt(name@), all[0]));
    assert(all.take(1).len() == 1 && all.take(1)[0] == all[0]);
    assert(step(all.take(1)) == StepView::<ChildrenView>::Query(list));
    assert(is_right(shelves, list, all[1]));
    assert(list.params == page_params(own, start, count));
    let ids = lemma_listed_tracks(
        shelves,
        ctx.art_base_url@,
        ctx.stream_base_url@,
        RowLayout::Told,
        tracks_by(shelves, norm),
        start,
        count,
        all[1],
    );
}

/// Under a disc stand its tracks, by number.
#[verifier::rlimit(50)]
pub proof fn tracks_of_a_disc_are_listed(
    shelves: Shelves,
    ctx: &BrowseContext,
    album: i64,
    disc: i64,
    start: usize,
    count: usize,
    answers: &[Answer],
    r: ChildrenResult,
)
    requires
        call_ensures(
            disc_tracks_children,
            (ctx, album, disc, start, count, answers),
            Step::Done(Ok::<ChildrenResult, crate::error::Error>(r)),
        ),
        start <= i64::MAX,
        count <= i64::MAX,
        rows_fit(shelves),
        tracks_on_disc(shelves, album, disc).len() <= usize::MAX,
        work_answered_rightly(
            shelves,
            |a: Seq<AnswerView>|
                counted_step(
                    StatementView { sql: DISC_TRACK_COUNT_SQL@, params: of_disc(album, disc) },
                    page_stmt(DISC_TRACKS_SQL@, of_disc(album, disc), start, count),
                    tracks_listed(ctx.art_base_url@, ctx.stream_base_url@, RowLayout::SeveralDiscs),
                    a,
                ),
            answers_view(answers@),
        ),
    ensures
        r.total_matches == tracks_on_disc(shelves, album, disc).len(),
        r@.didl.containers.len() == 0,
        exists|ids: Seq<i64>| #[trigger]
            tracks_in_order(shelves, false, tracks_on_disc(shelves, album, disc), ids)
                && shows_tracks(
                shelves,
                ctx.stream_base_url@,
                false,
                cut(ids, start as int, count as int),
                r@.didl.items,
            ),
{
    let all = answers_view(answers@);
    let own = of_disc(album, disc);
    let q = StatementView { sql: DISC_TRACK_COUNT_SQL@, params: own };
    let list = page_stmt(DISC_TRACKS_SQL@, own, start, count);
    let make = tracks_listed(ctx.art_base_url@, ctx.stream_base_url@, RowLayout::SeveralDiscs);
    let step = |a: Seq<AnswerView>| counted_step(q, list, make, a);
    assert(all.take(0).len() == 0);
    assert(step(all.take(0)) == StepView::<ChildrenView>::Query(q));
    assert(is_right(shelves, q, all[0]));
    assert(all.take(1).len() == 1 && all.take(1)[0] == all[0]);
    assert(step(all.take(1)) == StepView::<ChildrenView>::Query(list));
    assert(is_right(shelves, list, all[1]));
    assert(list.params == page_params(own, start, count));
    let ids = lemma_listed_tracks(
        shelves,
        ctx.art_base_url@,
        ctx.stream_base_url@,
        RowLayout::SeveralDiscs,
        tracks_on_disc(shelves, album, disc),
        start,
        count,
        all[1],
    );
}

/// The container of a disc.
pub open spec fn disc_container_of(
    shelves: Shelves,
    art_base: Seq<char>,
    album: i64,
    disc: i64,
) -> ContainerView {
    ContainerView {
        id: "disc:"@ + decimal_int(album as int) + ":"@ + decimal_int(disc as int),
        parent_id: "alb:"@ + decimal_int(album as int),
        title: "Disc "@ + decimal_int(disc as int),
        upnp_class: "object.container"@,
        child_count: Some(tracks_on_disc(shelves, album, disc).len() as i64),
        artist: None,
        album_art_uri: Some(art_base + "/"@ + decimal_int(album as int)),
    }
}

/// Under an album on several discs, all of whose tracks say on which they are, stand its
/// discs, each told with the number of its tracks. Under any other album stand its tracks,
/// by disc and number.
#[verifier::rlimit(100)]
pub proof fn albums_hold_their_discs_or_tracks(
    shelves: Shelves,
    ctx: &BrowseContext,
    album: i64,
    start: usize,
    count: usize,
    answers: &[Answer],
    r: ChildrenResult,
)
    requires
        call_ensures(
            album_tracks_children,
            (ctx, album, start, count, answers),
            Step::Done(Ok::<ChildrenResult, crate::error::Error>(r)),
        ),
        start <= i64::MAX,
        count <= i64::MAX,
        rows_fit(shelves),
        tracks_on(shelves, album).len() <= i64::MAX,
        tracks_on(shelves, album).len() <= usize::MAX,
        discs_of(shelves, album).len() <= i64::MAX,
        discs_of(shelves, album).len() <= usize::MAX,
        strays_of(shelves, album).len() <= i64::MAX,
        work_answered_rightly(
            shelves,
            |a: Seq<AnswerView>|
                album_tracks_step(
                    ctx.art_base_url@,
                    ctx.stream_base_url@,
                    album,
                    start,
                    count,
                    a,
                ),
            answers_view(answers@),
        ),
    ensures
        ({
            let discs = discs_of(shelves, album).len();
            if discs > 1 && strays_of(shelves, album).len() == 0 {
                &&& r.total_matches == discs
                &&& r@.didl.items.len() == 0
                &&& exists|order: Seq<i64>| #[trigger]
                    discs_in_order(shelves, album, order) && r@.didl.containers == cut(
                        order,
                        start as int,
                        count as int,
                    ).map_values(
                        |d: i64| disc_container_of(shelves, ctx.art_base_url@, album, d),
                    )
            } else {
                &&& r.total_matches == tracks_on(shelves, album).len()
                &&& r@.didl.containers.len() == 0
                &&& exists|ids: Seq<i64>| #[trigger]
                    tracks_in_order(shelves, false, tracks_on(shelves, album), ids)
                        && shows_tracks(
                        shelves,
                        ctx.stream_base_url@,
                        false,
                        cut(ids, start as int, count as int),
                        r@.didl.items,
                    )
            }
        }),
{
    let all = answers_view(answers@);
    let art = ctx.art_base_url@;
    let stream = ctx.stream_base_url@;
    let own = seq![Cell::Integer(album)];
    let step = |a: Seq<AnswerView>| album_tracks_step(art, stream, album, start, count, a);
    let layout = disc_layout_stmt(album);
    assert(all.take(0).len() == 0);
    assert(step(all.take(0)) == StepView::<ChildrenView>::Query(layout));
    assert(is_right(shelves, layout, all[0]));
    assert(layout.params == own);
    let discs = discs_of(shelves, album).len();
    let rows = rows_of(all[0])->Ok_0;
    assert(rows[0] == seq![
        Cell::Integer(discs as i64),
        Cell::Integer(strays_of(shelves, album).len() as i64),
    ]);
    assert(all.take(1).len() == 1 && all.take(1)[0] == all[0]);
    if discs > 1 && strays_of(shelves, album).len() == 0 {
        let list = page_stmt(DISCS_SQL@, own, start, count);
        assert(step(all.take(1)) == StepView::<ChildrenView>::Query(list));
        assert(is_right(shelves, list, all[1]));
        assert(list.params == page_params(own, start, count));
        let found = rows_of(all[1])->Ok_0;
        let order = choose|order: Seq<i64>| #[trigger]
            discs_in_order(shelves, album, order) && found == cut(
                order,
                start as int,
                count as int,
            ).map_values(
                |d: i64|
                    seq![
                        Cell::Integer(d),
                        Cell::Integer(tracks_on_disc(shelves, album, d).len() as i64),
                    ],
            );
        let page = cut(order, start as int, count as int);
        let f = |row: Seq<Cell>| disc_at(art, album, row);
        assert forall|i: int| 0 <= i < found.len() implies f(#[trigger] found[i]) == Some(
            disc_container_of(shelves, art, album, page[i]),
        ) by {
            assert(found[i] == seq![
                Cell::Integer(page[i]),
                Cell::Integer(tracks_on_disc(shelves, album, page[i]).len() as i64),
            ]);
        }
        text::lemma_filter_map_keeps_all(found, f);
        assert forall|i: int| 0 <= i < found.len() implies #[trigger] found.filter_map(f)[i]
            == disc_container_of(shelves, art, album, page[i]) by {
            assert(f(found[i]) == Some(found.filter_map(f)[i]));
        }
        assert(r@.didl.containers =~= page.map_values(
            |d: i64| disc_container_of(shelves, art, album, d),
        ));
        assert(discs_in_order(shelves, album, order));
    } else {
        let q = StatementView { sql: ALBUM_TRACK_COUNT_SQL@, params: own };
        let list = page_stmt(ALBUM_TRACKS_SQL@, own, start, count);
        assert(all.take(1).skip(1).len() == 0);
        assert(step(all.take(1)) == StepView::<ChildrenView>::Query(q));
        assert(is_right(shelves, q, all[1]));
        assert(all.take(2).len() == 2 && all.take(2)[0] == all[0]);
        assert(all.take(2).skip(1).len() == 1 && all.take(2).skip(1)[0] == all[1]);
        assert(step(all.take(2)) == StepView::<ChildrenView>::Query(list));
        assert(is_right(shelves, list, all[2]));
        assert(list.params == page_params(own, start, count));
        assert(all.skip(1)[0] == all[1] && all.skip(1)[1] == all[2]);
        let ids = lemma_listed_tracks(
            shelves,
            art,
            stream,
            RowLayout::OneDisc,
            tracks_on(shelves, album),
            start,
            count,
            all[2],
        );
    }
}

} // verus!
