//! What an object of the directory is, and what it holds.
//!
//! A container's children come a page at a time: those from `start` on, `count` at
//! most, together with the number of all of them.

use vstd::prelude::*;

use crate::browse::albums::{
    album_metadata, album_metadata_step, albums_by_aa_children, albums_by_artist_children,
    albums_by_composer_children, albums_by_conductor_children, albums_by_decade_children,
    albums_by_genre_children, albums_by_performer_children, albums_by_unknown_decade_children,
    albums_by_unknown_genre_children, albums_by_unknown_year_children, albums_by_year_children,
    artist_step, decade_end, named_step, person_metadata, person_step, untagged_count_stmt, untagged_step,
    with_track_count_sql, with_track_list_sql, with_track_step, AFTER_ONE,
    BY_ALBUM_ARTIST_COUNT_SQL, BY_ALBUM_ARTIST_SQL, GENRE_TAGGED, YEAR_TAGGED,
};
use crate::browse::artist_tracks::{
    artist_tracks_children, artist_tracks_metadata, artist_tracks_metadata_step, track_count_stmt,
    tracks_listed, ARTIST_TRACKS_SQL,
};
use crate::browse::categories::{
    album_artists_children, albums_children, artists_children, category_view, column_step,
    composers_children, conductors_children, decades_children, distinct_count_sql,
    distinct_list_sql, genres_children, performers_children, plain_cat, root_children,
    root_container, root_metadata_step, root_step, tailed_step, unknown_decade_container,
    unknown_decade_view, unknown_genre_container, unknown_genre_view, unknown_year_container,
    unknown_year_view, years_children, ALBUMS_SQL, ALBUM_ARTISTS_COUNT_SQL, ALBUM_ARTISTS_SQL,
    DECADES_COUNT_SQL, DECADES_SQL, YEARS_COUNT_SQL, YEARS_SQL,
};
use crate::browse::listing::{
    decade_container, decade_view, listed, year_container, year_view, Named, ShapeView,
};
use crate::browse::played::played_albums_children;
use crate::browse::quality::{quality_albums_children, quality_step};
use crate::browse::random::{random_albums_children, random_step};
use crate::browse::recent::{recent_root_children, recent_step};
use crate::browse::tracks::{
    album_tracks_children, album_tracks_step, disc_container, disc_tracks_children, disc_view,
    found_track, of_disc, track_metadata, track_stmt, RowLayout, DISC_TRACKS_SQL,
    DISC_TRACK_COUNT_SQL,
};
use crate::db::query::{
    answers_view, asked_once, bound, cells, copy_error, plain_stmt, rows_of, rows_view, scalar,
    scalar_of, Answer, AnswerView, Cell, Row, SqlValue, Statement, StatementView, Step, StepView,
};
use crate::error::{Error, SqliteError, SqliteErrorView};
use crate::normalize::search_form;
use crate::random::{page_of, RandomState};
use crate::state::BrowseSettings;
use crate::text::{self, decimal_int, texts};
use crate::upnp::didl::{
    containers_view, items_view, Container, ContainerView, Item, ItemView,
};
use crate::upnp::object_id::{encoded, ObjectId, ObjectIdView};

pub mod albums;
pub mod artist_tracks;
pub mod categories;
pub mod criteria;
pub mod listing;
pub mod meaning;
pub mod objects;
pub mod played;
pub mod quality;
pub mod random;
pub mod recent;
pub mod search;
pub mod shelves;
pub mod tracks;

verus! {

/// Objects to be told of.
#[derive(Debug)]
pub struct DidlOutput {
    pub containers: Vec<Container>,
    pub items: Vec<Item>,
}

/// Objects as text.
pub struct DidlView {
    pub containers: Seq<ContainerView>,
    pub items: Seq<ItemView>,
}

impl View for DidlOutput {
    type V = DidlView;

    open spec fn view(&self) -> DidlView {
        DidlView {
            containers: containers_view(self.containers@),
            items: items_view(self.items@),
        }
    }
}

/// No objects.
pub open spec fn nothing() -> DidlView {
    DidlView { containers: Seq::empty(), items: Seq::empty() }
}

/// Containers and no items.
pub open spec fn only_containers(containers: Seq<ContainerView>) -> DidlView {
    DidlView { containers, items: Seq::empty() }
}

/// Items and no containers.
pub open spec fn only_items(items: Seq<ItemView>) -> DidlView {
    DidlView { containers: Seq::empty(), items }
}

impl DidlOutput {
    pub fn empty() -> (r: Self)
        ensures
            r@ == nothing(),
    {
        let r = DidlOutput { containers: Vec::new(), items: Vec::new() };
        assert(r@.containers =~= Seq::empty());
        assert(r@.items =~= Seq::empty());
        r
    }

    pub fn of_containers(containers: Vec<Container>) -> (r: Self)
        ensures
            r@ == only_containers(containers_view(containers@)),
    {
        let r = DidlOutput { containers, items: Vec::new() };
        assert(r@.items =~= Seq::empty());
        r
    }

    pub fn of_items(items: Vec<Item>) -> (r: Self)
        ensures
            r@ == only_items(items_view(items@)),
    {
        let r = DidlOutput { containers: Vec::new(), items };
        assert(r@.containers =~= Seq::empty());
        r
    }

    /// One container alone.
    pub fn single(c: Container) -> (r: Self)
        ensures
            r@ == only_containers(seq![c@]),
    {
        let containers = vec![c];
        assert(containers_view(containers@) =~= seq![c@]);
        DidlOutput::of_containers(containers)
    }
}

/// A page of children, and how many there are in all.
#[derive(Debug)]
pub struct ChildrenResult {
    pub didl: DidlOutput,
    pub total_matches: usize,
}

/// A page of children as text.
pub struct ChildrenView {
    pub didl: DidlView,
    pub total_matches: usize,
}

impl View for ChildrenResult {
    type V = ChildrenView;

    open spec fn view(&self) -> ChildrenView {
        ChildrenView { didl: self.didl@, total_matches: self.total_matches }
    }
}

/// What browsing depends on apart from the database.
pub struct BrowseContext<'a> {
    /// Such as `http://192.168.1.10:8200/art`.
    pub art_base_url: &'a str,
    /// Such as `http://192.168.1.10:8200/stream`.
    pub stream_base_url: &'a str,
    pub random_state: &'a RandomState,
    /// The present time, in seconds of Unix time.
    pub now_secs: i64,
    pub settings: &'a BrowseSettings,
}

/// The address of the picture of an album.
pub open spec fn art_uri(base: Seq<char>, album_id: i64) -> Seq<char> {
    base + "/"@ + decimal_int(album_id as int)
}

pub fn art_uri_text(base: &str, album_id: i64) -> (r: String)
    ensures
        r@ == art_uri(base@, album_id),
{
    text::cat3(base, "/", text::integer_text(album_id).as_str())
}

// ── Rows and pages ───────────────────────────────────────────────────────

/// The first row of an answer that has to have one.
pub open spec fn row_of(a: AnswerView) -> Result<Seq<Cell>, SqliteErrorView> {
    match a {
        AnswerView::Failed(e) => Err(e),
        AnswerView::Rows(rows, _) => if rows.len() == 0 {
            Err(SqliteErrorView::QueryReturnedNoRows)
        } else {
            Ok(rows[0])
        },
    }
}

pub fn first_row<'a>(a: &'a Answer) -> (r: Result<&'a Row, SqliteError>)
    ensures
        match r {
            Ok(row) => row_of(a@) == Ok::<Seq<Cell>, SqliteErrorView>(cells(row@)),
            Err(e) => row_of(a@) == Err::<Seq<Cell>, SqliteErrorView>(e@),
        },
{
    match a {
        Answer::Failed(e) => Err(copy_error(e)),
        Answer::Rows(rows, _) => if rows.len() == 0 {
            Err(SqliteError::QueryReturnedNoRows)
        } else {
            assert(rows_view(rows@)[0] == cells(rows@[0]@));
            Ok(&rows[0])
        },
    }
}

/// A statement for a page: its own parameters, then how many rows and from which on.
pub open spec fn page_stmt(
    sql: Seq<char>,
    own: Seq<Cell>,
    start: usize,
    count: usize,
) -> StatementView {
    StatementView { sql, params: own + seq![Cell::Integer(count as i64), Cell::Integer(start as i64)] }
}

pub fn page_statement(sql: &str, own: Vec<SqlValue>, start: usize, count: usize) -> (r: Statement)
    ensures
        r@ == page_stmt(sql@, cells(own@), start, count),
{
    let ghost before = own@;
    let mut params = own;
    params.push(SqlValue::Integer(count as i64));
    params.push(SqlValue::Integer(start as i64));
    assert(cells(params@) =~= cells(before) + seq![
        Cell::Integer(count as i64),
        Cell::Integer(start as i64),
    ]);
    bound(sql, params)
}

/// Ask for the number of children, then for a page of them, and make of the page what
/// `make` says.
pub open spec fn counted_step(
    count_stmt: StatementView,
    list_stmt: StatementView,
    make: spec_fn(Seq<Seq<Cell>>) -> DidlView,
    answers: Seq<AnswerView>,
) -> StepView<ChildrenView> {
    if answers.len() == 0 {
        StepView::Query(count_stmt)
    } else {
        match scalar_of(answers[0]) {
            Err(e) => StepView::Done(Err(e)),
            Ok(total) => if answers.len() == 1 {
                StepView::Query(list_stmt)
            } else {
                match rows_of(answers[1]) {
                    Err(e) => StepView::Done(Err(e)),
                    Ok(rows) => StepView::Done(
                        Ok(ChildrenView { didl: make(rows), total_matches: total as usize }),
                    ),
                }
            },
        }
    }
}

/// How far the two questions for a page have come.
pub enum Counted<'a> {
    /// Not all is known yet.
    Pending(Step<ChildrenResult>),
    /// How many children there are, and the rows of the page.
    Known(usize, &'a Vec<Row>),
}

/// Ask the two questions for a page.
pub fn counted<'a>(count: Statement, list: Statement, answers: &'a [Answer]) -> (r: Counted<'a>)
    ensures
        match r {
            Counted::Pending(step) => forall|make: spec_fn(Seq<Seq<Cell>>) -> DidlView|
                step@ == #[trigger] counted_step(count@, list@, make, answers_view(answers@)),
            Counted::Known(total, rows) => forall|make: spec_fn(Seq<Seq<Cell>>) -> DidlView|
                #[trigger] counted_step(count@, list@, make, answers_view(answers@))
                    == StepView::<ChildrenView>::Done(
                    Ok(ChildrenView { didl: make(rows_view(rows@)), total_matches: total }),
                ),
        },
{
    if answers.len() == 0 {
        return Counted::Pending(Step::Query(count));
    }
    let total: i64 = match scalar(&answers[0]) {
        Err(e) => return Counted::Pending(Step::Done(Err(e))),
        Ok(n) => n,
    };
    if answers.len() == 1 {
        return Counted::Pending(Step::Query(list));
    }
    match &answers[1] {
        Answer::Failed(e) => Counted::Pending(Step::Done(Err(Error::Sqlite(copy_error(e))))),
        Answer::Rows(rows, _) => Counted::Known(total as usize, rows),
    }
}

// ── Objects ──────────────────────────────────────────────────────────────

/// The container that an object is without asking the database, where it is one.
pub open spec fn plain_object(id: ObjectIdView) -> Option<ContainerView> {
    match id {
        ObjectIdView::CatAa => Some(category_view("cat:aa"@, "Album Artist"@)),
        ObjectIdView::CatAr => Some(category_view("cat:ar"@, "Artist"@)),
        ObjectIdView::CatAl => Some(category_view("cat:al"@, "Album"@)),
        ObjectIdView::CatGn => Some(category_view("cat:gn"@, "Genre"@)),
        ObjectIdView::CatRecent => Some(category_view("cat:recent"@, "Recently Added"@)),
        ObjectIdView::CatPlayed => Some(category_view("cat:played"@, "Recently Played"@)),
        ObjectIdView::CatRandom => Some(category_view("cat:random"@, "Random Albums"@)),
        ObjectIdView::CatHires => Some(category_view("cat:hires"@, "Hi-Res Albums"@)),
        ObjectIdView::CatLossy => Some(category_view("cat:lossy"@, "Lossy Albums"@)),
        ObjectIdView::CatMixed => Some(category_view("cat:mixed"@, "Mixed Quality"@)),
        ObjectIdView::CatCm => Some(category_view("cat:cm"@, "Composer"@)),
        ObjectIdView::CatCn => Some(category_view("cat:cn"@, "Conductor"@)),
        ObjectIdView::CatPf => Some(category_view("cat:pf"@, "Performer"@)),
        ObjectIdView::CatYr => Some(category_view("cat:yr"@, "Year"@)),
        ObjectIdView::CatDec => Some(category_view("cat:dec"@, "Decade"@)),
        ObjectIdView::Genre(name) => Some(Named::Genre.container(name)),
        ObjectIdView::Year(y) => Some(year_view(y)),
        ObjectIdView::Decade(d) => Some(decade_view(d)),
        ObjectIdView::UnknownGenre => Some(unknown_genre_view()),
        ObjectIdView::UnknownYear => Some(unknown_year_view()),
        ObjectIdView::UnknownDecade => Some(unknown_decade_view()),
        _ => None,
    }
}

fn plain_container(id: &ObjectId) -> (r: Option<Container>)
    ensures
        match r {
            Some(c) => plain_object(id@) == Some(c@),
            None => plain_object(id@) is None,
        },
{
    match id {
        ObjectId::CatAa => Some(plain_cat("cat:aa", "Album Artist")),
        ObjectId::CatAr => Some(plain_cat("cat:ar", "Artist")),
        ObjectId::CatAl => Some(plain_cat("cat:al", "Album")),
        ObjectId::CatGn => Some(plain_cat("cat:gn", "Genre")),
        ObjectId::CatRecent => Some(plain_cat("cat:recent", "Recently Added")),
        ObjectId::CatPlayed => Some(plain_cat("cat:played", "Recently Played")),
        ObjectId::CatRandom => Some(plain_cat("cat:random", "Random Albums")),
        ObjectId::CatHires => Some(plain_cat("cat:hires", "Hi-Res Albums")),
        ObjectId::CatLossy => Some(plain_cat("cat:lossy", "Lossy Albums")),
        ObjectId::CatMixed => Some(plain_cat("cat:mixed", "Mixed Quality")),
        ObjectId::CatCm => Some(plain_cat("cat:cm", "Composer")),
        ObjectId::CatCn => Some(plain_cat("cat:cn", "Conductor")),
        ObjectId::CatPf => Some(plain_cat("cat:pf", "Performer")),
        ObjectId::CatYr => Some(plain_cat("cat:yr", "Year")),
        ObjectId::CatDec => Some(plain_cat("cat:dec", "Decade")),
        ObjectId::Genre(name) => Some(Named::Genre.container_of(name.as_str())),
        ObjectId::Year(y) => Some(year_container(*y)),
        ObjectId::Decade(d) => Some(decade_container(*d)),
        ObjectId::UnknownGenre => Some(unknown_genre_container()),
        ObjectId::UnknownYear => Some(unknown_year_container()),
        ObjectId::UnknownDecade => Some(unknown_decade_container()),
        _ => None,
    }
}

/// What is told of an object itself.
pub open spec fn metadata_step(
    ctx: BrowseContext,
    id: ObjectIdView,
    answers: Seq<AnswerView>,
) -> StepView<DidlView> {
    let art_base = ctx.art_base_url@;
    let stream_base = ctx.stream_base_url@;
    match plain_object(id) {
        Some(c) => StepView::Done(Ok(only_containers(seq![c]))),
        None => match id {
            ObjectIdView::Root => root_metadata_step(
                texts(ctx.settings.top_level@),
                ctx.settings.quality_categories,
                answers,
            ),
            ObjectIdView::AlbumArtist(name) => person_step(Named::AlbumArtist, name, art_base, answers),
            ObjectIdView::Artist(name) => person_step(Named::Artist, name, art_base, answers),
            ObjectIdView::Composer(name) => person_step(Named::Composer, name, art_base, answers),
            ObjectIdView::Conductor(name) => person_step(Named::Conductor, name, art_base, answers),
            ObjectIdView::Performer(name) => person_step(Named::Performer, name, art_base, answers),
            ObjectIdView::ArtistTracks(name) => artist_tracks_metadata_step(
                art_base,
                name,
                answers,
            ),
            ObjectIdView::Album(album_id) => album_metadata_step(art_base, album_id, answers),
            ObjectIdView::Track(track_id) => asked_once(
                track_stmt(track_id),
                answers,
                |a: AnswerView| found_track(art_base, stream_base, track_id, a),
            ),
            ObjectIdView::Disc { album_id, disc } => asked_once(
                StatementView { sql: DISC_TRACK_COUNT_SQL@, params: of_disc(album_id, disc) },
                answers,
                |a: AnswerView|
                    match scalar_of(a) {
                        Ok(n) => Ok(
                            only_containers(seq![disc_view(art_base, album_id, disc, n)]),
                        ),
                        Err(e) => Err(e),
                    },
            ),
            _ => StepView::Done(Ok(nothing())),
        },
    }
}

/// Tell what an object is.
pub fn browse_metadata(ctx: &BrowseContext, id: &ObjectId, answers: &[Answer]) -> (r: Step<
    DidlOutput,
>)
    ensures
        r@ == metadata_step(*ctx, id@, answers_view(answers@)),
{
    if let Some(c) = plain_container(id) {
        return Step::Done(Ok(DidlOutput::single(c)));
    }
    match id {
        ObjectId::Root => root_container(ctx, answers),
        ObjectId::AlbumArtist(name) => person_metadata(ctx, Named::AlbumArtist, name.as_str(), answers),
        ObjectId::Artist(name) => person_metadata(ctx, Named::Artist, name.as_str(), answers),
        ObjectId::Composer(name) => person_metadata(ctx, Named::Composer, name.as_str(), answers),
        ObjectId::Conductor(name) => person_metadata(ctx, Named::Conductor, name.as_str(), answers),
        ObjectId::Performer(name) => person_metadata(ctx, Named::Performer, name.as_str(), answers),
        ObjectId::ArtistTracks(name) => artist_tracks_metadata(ctx, name.as_str(), answers),
        ObjectId::Album(album_id) => album_metadata(ctx, *album_id, answers),
        ObjectId::Track(track_id) => track_metadata(ctx, *track_id, answers),
        ObjectId::Disc { album_id, disc } => disc_container(ctx, *album_id, *disc, answers),
        _ => Step::Done(Ok(DidlOutput::empty())),
    }
}

/// What an object holds.
pub open spec fn children_step(
    ctx: BrowseContext,
    id: ObjectIdView,
    start: usize,
    count: usize,
    answers: Seq<AnswerView>,
) -> StepView<ChildrenView> {
    let art = ctx.art_base_url@;
    let stream = ctx.stream_base_url@;
    match id {
        ObjectIdView::Root => root_step(
            texts(ctx.settings.top_level@),
            ctx.settings.quality_categories,
            answers,
            Seq::empty(),
        ),
        ObjectIdView::CatAa => counted_step(
            plain_stmt(ALBUM_ARTISTS_COUNT_SQL@),
            page_stmt(ALBUM_ARTISTS_SQL@, Seq::empty(), start, count),
            listed(ShapeView::Names(Named::AlbumArtist), art),
            answers,
        ),
        ObjectIdView::CatAr => column_step(
            "artist"@,
            ""@,
            Named::Artist,
            art,
            start,
            count,
            answers,
        ),
        ObjectIdView::CatAl => counted_step(
            plain_stmt(crate::scan::COUNT_ALBUMS_SQL@),
            page_stmt(ALBUMS_SQL@, Seq::empty(), start, count),
            listed(ShapeView::Albums { parent: "cat:al"@ }, art),
            answers,
        ),
        ObjectIdView::CatGn => tailed_step(
            plain_stmt(distinct_count_sql("genre"@)),
            untagged_count_stmt(GENRE_TAGGED@),
            page_stmt(distinct_list_sql("genre"@, ""@), Seq::empty(), start, count),
            ShapeView::Names(Named::Genre),
            art,
            unknown_genre_view(),
            start,
            count,
            answers,
        ),
        ObjectIdView::CatRecent => recent_step(
            *ctx.settings,
            ctx.now_secs,
            art,
            start,
            count,
            answers,
        ),
        ObjectIdView::CatPlayed => counted_step(
            plain_stmt(played::PLAYED_COUNT_SQL@),
            page_stmt(played::PLAYED_SQL@, Seq::empty(), start, count),
            listed(ShapeView::Albums { parent: "cat:played"@ }, art),
            answers,
        ),
        ObjectIdView::CatRandom => random_step(
            page_of(ctx.random_state@, start as int, count as int),
            ctx.random_state@.len() as usize,
            art,
            answers,
            Seq::empty(),
        ),
        ObjectIdView::CatHires => quality_step("hires"@, "cat:hires"@, art, start, count, answers),
        ObjectIdView::CatLossy => quality_step("lossy"@, "cat:lossy"@, art, start, count, answers),
        ObjectIdView::CatMixed => quality_step("mixed"@, "cat:mixed"@, art, start, count, answers),
        ObjectIdView::CatCm => column_step(
            "composer"@,
            " COLLATE NOCASE"@,
            Named::Composer,
            art,
            start,
            count,
            answers,
        ),
        ObjectIdView::CatCn => column_step(
            "conductor"@,
            " COLLATE NOCASE"@,
            Named::Conductor,
            art,
            start,
            count,
            answers,
        ),
        ObjectIdView::CatPf => column_step(
            "performer"@,
            " COLLATE NOCASE"@,
            Named::Performer,
            art,
            start,
            count,
            answers,
        ),
        ObjectIdView::CatYr => tailed_step(
            plain_stmt(YEARS_COUNT_SQL@),
            untagged_count_stmt(YEAR_TAGGED@),
            page_stmt(YEARS_SQL@, Seq::empty(), start, count),
            ShapeView::Years,
            art,
            unknown_year_view(),
            start,
            count,
            answers,
        ),
        ObjectIdView::CatDec => tailed_step(
            plain_stmt(DECADES_COUNT_SQL@),
            untagged_count_stmt(YEAR_TAGGED@),
            page_stmt(DECADES_SQL@, Seq::empty(), start, count),
            ShapeView::Decades,
            art,
            unknown_decade_view(),
            start,
            count,
            answers,
        ),
        ObjectIdView::AlbumArtist(name) => artist_step(
            StatementView { sql: BY_ALBUM_ARTIST_COUNT_SQL@, params: seq![Cell::Text(name)] },
            BY_ALBUM_ARTIST_SQL@,
            ShapeView::AlbumsOf { artist: name, parent: encoded(id) },
            name,
            encoded(id),
            art,
            start,
            count,
            answers,
        ),
        ObjectIdView::Artist(name) => artist_step(
            StatementView {
                sql: with_track_count_sql("t.artist = ?1"@),
                params: seq![Cell::Text(name)],
            },
            with_track_list_sql("t.artist = ?1"@, AFTER_ONE@),
            ShapeView::Albums { parent: encoded(id) },
            name,
            encoded(id),
            art,
            start,
            count,
            answers,
        ),
        ObjectIdView::ArtistTracks(name) => counted_step(
            track_count_stmt(name),
            page_stmt(
                ARTIST_TRACKS_SQL@,
                seq![Cell::Text(search_form(name))],
                start,
                count,
            ),
            tracks_listed(art, stream, RowLayout::Told),
            answers,
        ),
        ObjectIdView::Genre(name) => named_step(
            Named::Genre,
            "t.genre = ?1"@,
            name,
            art,
            start,
            count,
            answers,
        ),
        ObjectIdView::Composer(name) => named_step(
            Named::Composer,
            "t.composer = ?1"@,
            name,
            art,
            start,
            count,
            answers,
        ),
        ObjectIdView::Conductor(name) => named_step(
            Named::Conductor,
            "t.conductor = ?1"@,
            name,
            art,
            start,
            count,
            answers,
        ),
        ObjectIdView::Performer(name) => named_step(
            Named::Performer,
            "t.performer = ?1"@,
            name,
            art,
            start,
            count,
            answers,
        ),
        ObjectIdView::Year(y) => with_track_step(
            "t.year = ?1"@,
            AFTER_ONE@,
            seq![Cell::Integer(y as i64)],
            encoded(id),
            art,
            start,
            count,
            answers,
        ),
        ObjectIdView::Decade(d) => with_track_step(
            "t.year BETWEEN ?1 AND ?2"@,
            "LIMIT ?3 OFFSET ?4"@,
            seq![Cell::Integer(d as i64), Cell::Integer(decade_end(d))],
            encoded(id),
            art,
            start,
            count,
            answers,
        ),
        ObjectIdView::UnknownGenre => untagged_step(
            GENRE_TAGGED@,
            id,
            art,
            start,
            count,
            answers,
        ),
        ObjectIdView::UnknownYear => untagged_step(YEAR_TAGGED@, id, art, start, count, answers),
        ObjectIdView::UnknownDecade => untagged_step(
            YEAR_TAGGED@,
            id,
            art,
            start,
            count,
            answers,
        ),
        ObjectIdView::Album(album_id) => album_tracks_step(
            art,
            stream,
            album_id,
            start,
            count,
            answers,
        ),
        ObjectIdView::Disc { album_id, disc } => counted_step(
            StatementView { sql: DISC_TRACK_COUNT_SQL@, params: of_disc(album_id, disc) },
            page_stmt(DISC_TRACKS_SQL@, of_disc(album_id, disc), start, count),
            tracks_listed(art, stream, RowLayout::SeveralDiscs),
            answers,
        ),
        ObjectIdView::Track(_) => StepView::Done(
            Ok(ChildrenView { didl: nothing(), total_matches: 0 }),
        ),
    }
}

/// Tell what an object holds. A track holds nothing.
pub fn browse_children(
    ctx: &BrowseContext,
    id: &ObjectId,
    start: usize,
    count: usize,
    answers: &[Answer],
) -> (r: Step<ChildrenResult>)
    ensures
        r@ == children_step(*ctx, id@, start, count, answers_view(answers@)),
{
    match id {
        ObjectId::Root => root_children(ctx, answers),
        ObjectId::CatAa => album_artists_children(ctx, start, count, answers),
        ObjectId::CatAr => artists_children(ctx, start, count, answers),
        ObjectId::CatAl => albums_children(ctx, start, count, answers),
        ObjectId::CatGn => genres_children(ctx, start, count, answers),
        ObjectId::CatRecent => recent_root_children(ctx, start, count, answers),
        ObjectId::CatPlayed => played_albums_children(ctx, start, count, answers),
        ObjectId::CatRandom => random_albums_children(ctx, start, count, answers),
        ObjectId::CatHires => quality_albums_children(
            ctx,
            "hires",
            "cat:hires",
            start,
            count,
            answers,
        ),
        ObjectId::CatLossy => quality_albums_children(
            ctx,
            "lossy",
            "cat:lossy",
            start,
            count,
            answers,
        ),
        ObjectId::CatMixed => quality_albums_children(
            ctx,
            "mixed",
            "cat:mixed",
            start,
            count,
            answers,
        ),
        ObjectId::CatCm => composers_children(ctx, start, count, answers),
        ObjectId::CatCn => conductors_children(ctx, start, count, answers),
        ObjectId::CatPf => performers_children(ctx, start, count, answers),
        ObjectId::CatYr => years_children(ctx, start, count, answers),
        ObjectId::CatDec => decades_children(ctx, start, count, answers),
        ObjectId::AlbumArtist(name) => albums_by_aa_children(
            ctx,
            name.as_str(),
            start,
            count,
            answers,
        ),
        ObjectId::Artist(name) => albums_by_artist_children(
            ctx,
            name.as_str(),
            start,
            count,
            answers,
        ),
        ObjectId::ArtistTracks(name) => artist_tracks_children(
            ctx,
            name.as_str(),
            start,
            count,
            answers,
        ),
        ObjectId::Genre(name) => albums_by_genre_children(
            ctx,
            name.as_str(),
            start,
            count,
            answers,
        ),
        ObjectId::Composer(name) => albums_by_composer_children(
            ctx,
            name.as_str(),
            start,
            count,
            answers,
        ),
        ObjectId::Conductor(name) => albums_by_conductor_children(
            ctx,
            name.as_str(),
            start,
            count,
            answers,
        ),
        ObjectId::Performer(name) => albums_by_performer_children(
            ctx,
            name.as_str(),
            start,
            count,
            answers,
        ),
        ObjectId::Year(y) => albums_by_year_children(ctx, *y, start, count, answers),
        ObjectId::Decade(d) => albums_by_decade_children(ctx, *d, start, count, answers),
        ObjectId::UnknownGenre => albums_by_unknown_genre_children(ctx, start, count, answers),
        ObjectId::UnknownYear => albums_by_unknown_year_children(ctx, start, count, answers),
        ObjectId::UnknownDecade => albums_by_unknown_decade_children(ctx, start, count, answers),
        ObjectId::Album(album_id) => album_tracks_children(ctx, *album_id, start, count, answers),
        ObjectId::Disc { album_id, disc } => disc_tracks_children(
            ctx,
            *album_id,
            *disc,
            start,
            count,
            answers,
        ),
        ObjectId::Track(_) => Step::Done(
            Ok(ChildrenResult { didl: DidlOutput::empty(), total_matches: 0 }),
        ),
    }
}

} // verus!
