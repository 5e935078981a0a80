//! Rows of the database as containers.

use vstd::prelude::*;

use crate::browse::{
    art_uri, art_uri_text, counted, counted_step, only_containers, BrowseContext, ChildrenResult,
    Counted, DidlOutput, DidlView,
};
use crate::db::query::{
    answers_view, cells, get_integer, get_text, integer_at, rows_view, text_at, Answer, Cell, Row,
    Statement, Step,
};
use crate::text::{self, decimal_int};
use crate::upnp::didl::{containers_view, Container, ContainerView};
use crate::upnp::object_id::{encode, encoded, ObjectId, ObjectIdView};

verus! {

pub const ALBUM_CLASS: &'static str = "object.container.album.musicAlbum";

pub const ARTIST_CLASS: &'static str = "object.container.person.musicArtist";

pub const GENRE_CLASS: &'static str = "object.container.genre.musicGenre";

pub const CONTAINER_CLASS: &'static str = "object.container";

/// An album under the given parent.
pub open spec fn album_view(
    art_base: Seq<char>,
    album_id: i64,
    album: Seq<char>,
    artist: Seq<char>,
    track_count: i64,
    parent: Seq<char>,
) -> ContainerView {
    ContainerView {
        id: encoded(ObjectIdView::Album(album_id)),
        parent_id: parent,
        title: album,
        upnp_class: ALBUM_CLASS@,
        child_count: Some(track_count),
        artist: Some(artist),
        album_art_uri: Some(art_uri(art_base, album_id)),
    }
}

pub fn album_container(
    ctx: &BrowseContext,
    album_id: i64,
    album: String,
    artist: String,
    track_count: i64,
    parent: &str,
) -> (r: Container)
    ensures
        r@ == album_view(ctx.art_base_url@, album_id, album@, artist@, track_count, parent@),
{
    Container {
        id: encode(&ObjectId::Album(album_id)),
        parent_id: text::owned(parent),
        title: album,
        upnp_class: ALBUM_CLASS,
        child_count: Some(track_count),
        artist: Some(artist),
        album_art_uri: Some(art_uri_text(ctx.art_base_url, album_id)),
    }
}

/// A container of the given class with nothing but a title.
pub open spec fn titled_view(
    id: Seq<char>,
    parent: Seq<char>,
    title: Seq<char>,
    class: Seq<char>,
) -> ContainerView {
    ContainerView {
        id,
        parent_id: parent,
        title,
        upnp_class: class,
        child_count: None,
        artist: None,
        album_art_uri: None,
    }
}

pub fn titled_container(id: String, parent: &str, title: String, class: &'static str) -> (r:
    Container)
    ensures
        r@ == titled_view(id@, parent@, title@, class@),
{
    Container {
        id,
        parent_id: text::owned(parent),
        title,
        upnp_class: class,
        child_count: None,
        artist: None,
        album_art_uri: None,
    }
}

/// What the names of a list are names of.
#[derive(Debug, Clone, Copy, PartialEq, Eq, Structural)]
pub enum Named {
    AlbumArtist,
    Artist,
    Genre,
    Composer,
    Conductor,
    Performer,
}

impl Named {
    pub open spec fn object(self, name: Seq<char>) -> ObjectIdView {
        match self {
            Named::AlbumArtist => ObjectIdView::AlbumArtist(name),
            Named::Artist => ObjectIdView::Artist(name),
            Named::Genre => ObjectIdView::Genre(name),
            Named::Composer => ObjectIdView::Composer(name),
            Named::Conductor => ObjectIdView::Conductor(name),
            Named::Performer => ObjectIdView::Performer(name),
        }
    }

    pub fn object_of(self, name: &str) -> (r: ObjectId)
        ensures
            r@ == self.object(name@),
    {
        let owned = text::owned(name);
        match self {
            Named::AlbumArtist => ObjectId::AlbumArtist(owned),
            Named::Artist => ObjectId::Artist(owned),
            Named::Genre => ObjectId::Genre(owned),
            Named::Composer => ObjectId::Composer(owned),
            Named::Conductor => ObjectId::Conductor(owned),
            Named::Performer => ObjectId::Performer(owned),
        }
    }

    /// The category that lists them.
    pub open spec fn category(self) -> Seq<char> {
        match self {
            Named::AlbumArtist => "cat:aa"@,
            Named::Artist => "cat:ar"@,
            Named::Genre => "cat:gn"@,
            Named::Composer => "cat:cm"@,
            Named::Conductor => "cat:cn"@,
            Named::Performer => "cat:pf"@,
        }
    }

    pub fn category_id(self) -> (r: &'static str)
        ensures
            r@ == self.category(),
    {
        match self {
            Named::AlbumArtist => "cat:aa",
            Named::Artist => "cat:ar",
            Named::Genre => "cat:gn",
            Named::Composer => "cat:cm",
            Named::Conductor => "cat:cn",
            Named::Performer => "cat:pf",
        }
    }

    pub open spec fn class(self) -> Seq<char> {
        if self is Genre {
            GENRE_CLASS@
        } else {
            ARTIST_CLASS@
        }
    }

    /// The container of the one with the given name.
    pub open spec fn container(self, name: Seq<char>) -> ContainerView {
        titled_view(encoded(self.object(name)), self.category(), name, self.class())
    }

    pub fn container_of(self, name: &str) -> (r: Container)
        ensures
            r@ == self.container(name@),
    {
        let class: &'static str = match self {
            Named::Genre => GENRE_CLASS,
            _ => ARTIST_CLASS,
        };
        titled_container(
            encode(&self.object_of(name)),
            self.category_id(),
            text::owned(name),
            class,
        )
    }
}

/// The container of a year.
pub open spec fn year_view(year: i32) -> ContainerView {
    titled_view(
        encoded(ObjectIdView::Year(year)),
        "cat:yr"@,
        decimal_int(year as int),
        CONTAINER_CLASS@,
    )
}

pub fn year_container(year: i32) -> (r: Container)
    ensures
        r@ == year_view(year),
{
    titled_container(
        encode(&ObjectId::Year(year)),
        "cat:yr",
        text::integer_text(year as i64),
        CONTAINER_CLASS,
    )
}

/// The container of a decade.
pub open spec fn decade_view(decade: i32) -> ContainerView {
    titled_view(
        encoded(ObjectIdView::Decade(decade)),
        "cat:dec"@,
        decimal_int(decade as int) + "s"@,
        CONTAINER_CLASS@,
    )
}

pub fn decade_container(decade: i32) -> (r: Container)
    ensures
        r@ == decade_view(decade),
{
    titled_container(
        encode(&ObjectId::Decade(decade)),
        "cat:dec",
        text::cat(text::integer_text(decade as i64).as_str(), "s"),
        CONTAINER_CLASS,
    )
}

/// What the rows of a list are.
#[derive(Debug)]
pub enum Shape<'a> {
    /// Albums: id, title, album artist and number of tracks.
    Albums { parent: &'a str },
    /// Albums of one album artist: id, title and number of tracks.
    AlbumsOf { artist: &'a str, parent: &'a str },
    /// Names.
    Names(Named),
    Years,
    Decades,
}

/// What the rows of a list are, as text.
pub enum ShapeView {
    Albums { parent: Seq<char> },
    AlbumsOf { artist: Seq<char>, parent: Seq<char> },
    Names(Named),
    Years,
    Decades,
}

impl<'a> View for Shape<'a> {
    type V = ShapeView;

    open spec fn view(&self) -> ShapeView {
        match self {
            Shape::Albums { parent } => ShapeView::Albums { parent: parent@ },
            Shape::AlbumsOf { artist, parent } => ShapeView::AlbumsOf {
                artist: artist@,
                parent: parent@,
            },
            Shape::Names(named) => ShapeView::Names(*named),
            Shape::Years => ShapeView::Years,
            Shape::Decades => ShapeView::Decades,
        }
    }
}

/// A whole number that can be a year.
pub open spec fn year_at(row: Seq<Cell>, i: int) -> Option<i32> {
    match integer_at(row, i) {
        Some(n) => if i32::MIN <= n <= i32::MAX {
            Some(n as i32)
        } else {
            None
        },
        None => None,
    }
}

fn get_year(row: &Row, i: usize) -> (r: Option<i32>)
    ensures
        r == year_at(cells(row@), i as int),
{
    match get_integer(row, i) {
        Some(n) => if -2147483648 <= n && n <= 2147483647 { Some(n as i32) } else { None },
        None => None,
    }
}

impl ShapeView {
    /// The container of a row, where the row has the right form.
    pub open spec fn made(self, art_base: Seq<char>, row: Seq<Cell>) -> Option<ContainerView> {
        match self {
            ShapeView::Albums { parent } => match (
                integer_at(row, 0),
                text_at(row, 1),
                text_at(row, 2),
                integer_at(row, 3),
            ) {
                (Some(id), Some(album), Some(artist), Some(n)) => Some(
                    album_view(art_base, id, album, artist, n, parent),
                ),
                _ => None,
            },
            ShapeView::AlbumsOf { artist, parent } => match (
                integer_at(row, 0),
                text_at(row, 1),
                integer_at(row, 2),
            ) {
                (Some(id), Some(album), Some(n)) => Some(
                    album_view(art_base, id, album, artist, n, parent),
                ),
                _ => None,
            },
            ShapeView::Names(named) => match text_at(row, 0) {
                Some(name) => Some(named.container(name)),
                None => None,
            },
            ShapeView::Years => match year_at(row, 0) {
                Some(y) => Some(year_view(y)),
                None => None,
            },
            ShapeView::Decades => match year_at(row, 0) {
                Some(d) => Some(decade_view(d)),
                None => None,
            },
        }
    }

    /// The containers of the rows. Rows of another form are passed over.
    pub open spec fn containers(self, art_base: Seq<char>, rows: Seq<Seq<Cell>>) -> Seq<
        ContainerView,
    > {
        rows.filter_map(|row: Seq<Cell>| self.made(art_base, row))
    }
}

impl<'a> Shape<'a> {
    fn make(&self, ctx: &BrowseContext, row: &Row) -> (r: Option<Container>)
        ensures
            match r {
                Some(c) => self@.made(ctx.art_base_url@, cells(row@)) == Some(c@),
                None => self@.made(ctx.art_base_url@, cells(row@)) is None,
            },
    {
        match self {
            Shape::Albums { parent } => match (
                get_integer(row, 0),
                get_text(row, 1),
                get_text(row, 2),
                get_integer(row, 3),
            ) {
                (Some(id), Some(album), Some(artist), Some(n)) => Some(
                    album_container(ctx, id, album, artist, n, parent),
                ),
                _ => None,
            },
            Shape::AlbumsOf { artist, parent } => match (
                get_integer(row, 0),
                get_text(row, 1),
                get_integer(row, 2),
            ) {
                (Some(id), Some(album), Some(n)) => Some(
                    album_container(ctx, id, album, text::owned(artist), n, parent),
                ),
                _ => None,
            },
            Shape::Names(named) => match get_text(row, 0) {
                Some(name) => Some(named.container_of(name.as_str())),
                None => None,
            },
            Shape::Years => match get_year(row, 0) {
                Some(y) => Some(year_container(y)),
                None => None,
            },
            Shape::Decades => match get_year(row, 0) {
                Some(d) => Some(decade_container(d)),
                None => None,
            },
        }
    }

    /// The containers of the rows.
    pub fn make_all(&self, ctx: &BrowseContext, rows: &Vec<Row>) -> (r: Vec<Container>)
        ensures
            containers_view(r@) == self@.containers(ctx.art_base_url@, rows_view(rows@)),
    {
        let ghost shape = self@;
        let ghost base = ctx.art_base_url@;
        let ghost f = |row: Seq<Cell>| shape.made(base, row);
        let ghost all = rows_view(rows@);
        let mut out: Vec<Container> = Vec::new();
        let mut i: usize = 0;
        proof {
            reveal(Seq::filter_map);
        }
        assert(containers_view(out@) =~= all.take(0).filter_map(f));
        while i < rows.len()
            invariant
                i <= rows.len(),
                all == rows_view(rows@),
                shape == self@,
                base == ctx.art_base_url@,
                f == (|row: Seq<Cell>| shape.made(base, row)),
                containers_view(out@) == all.take(i as int).filter_map(f),
            decreases rows.len() - i,
        {
            broadcast use Seq::lemma_filter_map_take_succ;

            let ghost before = out@;
            assert(all[i as int] == cells(rows@[i as int]@));
            match self.make(ctx, &rows[i]) {
                Some(c) => {
                    out.push(c);
                    assert(containers_view(out@) =~= containers_view(before).push(c@));
                },
                None => {},
            }
            i = i + 1;
            assert(containers_view(out@) =~= all.take(i as int).filter_map(f));
        }
        assert(all.take(i as int) =~= all);
        out
    }
}

/// The containers of the rows of a page.
pub open spec fn listed(shape: ShapeView, art_base: Seq<char>) -> spec_fn(Seq<Seq<Cell>>) -> DidlView {
    |rows: Seq<Seq<Cell>>| only_containers(shape.containers(art_base, rows))
}

/// A page of containers: how many there are, and those of the page.
pub fn list_children(
    ctx: &BrowseContext,
    count: Statement,
    list: Statement,
    shape: &Shape,
    answers: &[Answer],
) -> (r: Step<ChildrenResult>)
    ensures
        r@ == counted_step(
            count@,
            list@,
            listed(shape@, ctx.art_base_url@),
            answers_view(answers@),
        ),
{
    let ghost make = listed(shape@, ctx.art_base_url@);
    match counted(count, list, answers) {
        Counted::Pending(step) => step,
        Counted::Known(total_matches, rows) => {
            let containers = shape.make_all(ctx, rows);
            let didl = DidlOutput::of_containers(containers);
            assert(didl@ == make(rows_view(rows@)));
            Step::Done(Ok(ChildrenResult { didl, total_matches }))
        },
    }
}

} // verus!
