//! Every track of an artist, across albums, in one list.
//!
//! The name has to be the artist's, but for case, accents and the like: parts of
//! names are for searching.

use vstd::prelude::*;

use crate::browse::listing::CONTAINER_CLASS;
use crate::browse::tracks::{items_at, make_items, RowLayout};
use crate::browse::{
    counted, counted_step, only_containers, only_items, page_statement, page_stmt, BrowseContext,
    ChildrenResult, Counted, DidlOutput, DidlView,
};
use crate::db::query::{
    answers_view, bound, cells, rows_view, scalar, scalar_of, text_param, Answer, AnswerView, Cell,
    SqlValue, Statement, StatementView, Step, StepView,
};
use crate::normalize::{for_search, search_form};
use crate::text::{self, decimal_int};
use crate::upnp::didl::{Container, ContainerView};
use crate::upnp::object_id::{encode, encoded, ObjectId, ObjectIdView};

verus! {

pub const TRACK_COUNT_SQL: &'static str = "SELECT COUNT(*) FROM tracks WHERE artist_norm = ?1";

pub const IS_ALBUM_ARTIST_SQL: &'static str =
    "SELECT EXISTS(SELECT 1 FROM albums WHERE effective_album_artist = ?1)";

pub const ARTIST_TRACKS_SQL: &'static str =
    "SELECT t.id, t.album_id, t.title, t.artist, t.genre, t.track_num, t.disc_num, \
    t.duration_ms, t.sample_rate, t.bit_depth, t.channels, \
    t.bitrate, t.mime_type, t.file_size, a.album, \
    (SELECT IFNULL(MAX(disc_num), 0) FROM tracks WHERE album_id = t.album_id) > 1, \
    t.composer, t.conductor, t.performer \
    FROM tracks t JOIN albums a ON t.album_id = a.id \
    WHERE t.artist_norm = ?1 \
    ORDER BY a.album_norm, t.disc_num, t.track_num \
    LIMIT ?2 OFFSET ?3";

/// The question for the number of an artist's tracks.
pub open spec fn track_count_stmt(name: Seq<char>) -> StatementView {
    StatementView { sql: TRACK_COUNT_SQL@, params: seq![Cell::Text(search_form(name))] }
}

fn norm_param(name: &str) -> (r: Vec<SqlValue>)
    ensures
        cells(r@) == seq![Cell::Text(search_form(name@))],
{
    let r = vec![SqlValue::Text(for_search(name))];
    assert(cells(r@) =~= seq![Cell::Text(search_form(name@))]);
    r
}

pub fn track_count_statement(name: &str) -> (r: Statement)
    ensures
        r@ == track_count_stmt(name@),
{
    bound(TRACK_COUNT_SQL, norm_param(name))
}

/// How many tracks an artist has.
pub fn track_count_for_artist(name: &str, answers: &[Answer]) -> (r: Step<i64>)
    ensures
        r@ == crate::db::query::asked_once(
            track_count_stmt(name@),
            answers_view(answers@),
            |a: AnswerView| scalar_of(a),
        ),
{
    if answers.len() == 0 {
        return Step::Query(track_count_statement(name));
    }
    Step::Done(scalar(&answers[0]))
}

/// `s` without every `/art` at its end.
pub open spec fn host_base(s: Seq<char>) -> Seq<char>
    decreases s.len(),
{
    if "/art"@.len() > 0 && text::ends_with(s, "/art"@) {
        host_base(s.take(s.len() - "/art"@.len()))
    } else {
        s
    }
}

fn host_base_of<'a>(s: &'a str) -> (r: &'a str)
    ensures
        r@ == host_base(s@),
    decreases s@.len(),
{
    proof {
        reveal_strlit("/art");
        assert("/art"@.len() == 4);
    }
    match text::strip_suffix(s, "/art") {
        Some(rest) => host_base_of(rest),
        None => s,
    }
}

/// The container of all tracks of an artist.
pub open spec fn at_view(
    art_base: Seq<char>,
    name: Seq<char>,
    track_count: i64,
    parent: Seq<char>,
) -> ContainerView {
    ContainerView {
        id: encoded(ObjectIdView::ArtistTracks(name)),
        parent_id: parent,
        title: "All tracks ("@ + decimal_int(track_count as int) + ")"@,
        upnp_class: CONTAINER_CLASS@,
        child_count: Some(track_count),
        artist: None,
        album_art_uri: Some(host_base(art_base) + "/icon/cat/at"@),
    }
}

pub fn build_at_container(
    ctx: &BrowseContext,
    name: &str,
    track_count: i64,
    parent_id: String,
) -> (r: Container)
    ensures
        r@ == at_view(ctx.art_base_url@, name@, track_count, parent_id@),
{
    let n = text::integer_text(track_count);
    Container {
        id: encode(&ObjectId::ArtistTracks(text::owned(name))),
        parent_id,
        title: text::cat3("All tracks (", n.as_str(), ")"),
        upnp_class: CONTAINER_CLASS,
        child_count: Some(track_count),
        artist: None,
        album_art_uri: Some(text::cat(host_base_of(ctx.art_base_url), "/icon/cat/at")),
    }
}

/// The object under which the tracks stand: the album artist of the name, where there
/// is one, else the artist.
pub open spec fn parent_object(name: Seq<char>, is_album_artist: bool) -> ObjectIdView {
    if is_album_artist {
        ObjectIdView::AlbumArtist(name)
    } else {
        ObjectIdView::Artist(name)
    }
}

pub open spec fn is_album_artist_stmt(name: Seq<char>) -> StatementView {
    StatementView { sql: IS_ALBUM_ARTIST_SQL@, params: seq![Cell::Text(name)] }
}

pub open spec fn artist_tracks_metadata_step(
    art_base: Seq<char>,
    name: Seq<char>,
    answers: Seq<AnswerView>,
) -> StepView<DidlView> {
    if answers.len() == 0 {
        StepView::Query(track_count_stmt(name))
    } else {
        match scalar_of(answers[0]) {
            Err(e) => StepView::Done(Err(e)),
            Ok(n) => if answers.len() == 1 {
                StepView::Query(is_album_artist_stmt(name))
            } else {
                match scalar_of(answers[1]) {
                    Err(e) => StepView::Done(Err(e)),
                    Ok(any) => StepView::Done(
                        Ok(
                            only_containers(
                                seq![
                                    at_view(
                                        art_base,
                                        name,
                                        n,
                                        encoded(parent_object(name, any != 0)),
                                    ),
                                ],
                            ),
                        ),
                    ),
                }
            },
        }
    }
}

/// The container of all tracks of an artist, by itself.
pub fn artist_tracks_metadata(ctx: &BrowseContext, artist_name: &str, answers: &[Answer]) -> (r:
    Step<DidlOutput>)
    ensures
        r@ == artist_tracks_metadata_step(
            ctx.art_base_url@,
            artist_name@,
            answers_view(answers@),
        ),
{
    if answers.len() == 0 {
        return Step::Query(track_count_statement(artist_name));
    }
    let n: i64 = match scalar(&answers[0]) {
        Err(e) => return Step::Done(Err(e)),
        Ok(n) => n,
    };
    if answers.len() == 1 {
        let params = vec![text_param(artist_name)];
        assert(cells(params@) =~= seq![Cell::Text(artist_name@)]);
        return Step::Query(bound(IS_ALBUM_ARTIST_SQL, params));
    }
    let any: i64 = match scalar(&answers[1]) {
        Err(e) => return Step::Done(Err(e)),
        Ok(n) => n,
    };
    let name = text::owned(artist_name);
    let parent = if any != 0 { ObjectId::AlbumArtist(name) } else { ObjectId::Artist(name) };
    Step::Done(
        Ok(DidlOutput::single(build_at_container(ctx, artist_name, n, encode(&parent)))),
    )
}

/// The items of the rows of a page.
pub open spec fn tracks_listed(
    art_base: Seq<char>,
    stream_base: Seq<char>,
    layout: RowLayout,
) -> spec_fn(Seq<Seq<Cell>>) -> DidlView {
    |rows: Seq<Seq<Cell>>| only_items(items_at(art_base, stream_base, layout, rows))
}

/// All tracks of an artist, in the order of albums, discs and tracks.
pub fn artist_tracks_children(
    ctx: &BrowseContext,
    artist_name: &str,
    start: usize,
    count: usize,
    answers: &[Answer],
) -> (r: Step<ChildrenResult>)
    ensures
        r@ == counted_step(
            track_count_stmt(artist_name@),
            page_stmt(
                ARTIST_TRACKS_SQL@,
                seq![Cell::Text(search_form(artist_name@))],
                start,
                count,
            ),
            tracks_listed(ctx.art_base_url@, ctx.stream_base_url@, RowLayout::Told),
            answers_view(answers@),
        ),
{
    let ghost make = tracks_listed(ctx.art_base_url@, ctx.stream_base_url@, RowLayout::Told);
    let list = page_statement(ARTIST_TRACKS_SQL, norm_param(artist_name), start, count);
    match counted(track_count_statement(artist_name), list, answers) {
        Counted::Pending(step) => step,
        Counted::Known(total_matches, rows) => {
            let didl = DidlOutput::of_items(make_items(ctx, RowLayout::Told, rows));
            assert(didl@ == make(rows_view(rows@)));
            Step::Done(Ok(ChildrenResult { didl, total_matches }))
        },
    }
}

/// The container of all tracks of an artist has a picture of its own, beside the pictures
/// of albums.
pub proof fn all_tracks_have_their_own_picture(
    ctx: &BrowseContext,
    host: Seq<char>,
    name: &str,
    tracks: i64,
    parent: String,
    r: Container,
)
    requires
        call_ensures(build_at_container, (ctx, name, tracks, parent), r),
        ctx.art_base_url@ == host + "/art"@,
        !text::ends_with(host, "/art"@),
    ensures
        r.album_art_uri matches Some(uri) && uri@ == host + "/icon/cat/at"@,
        r.title@ == "All tracks ("@ + decimal_int(tracks as int) + ")"@,
        r.child_count == Some(tracks),
        r.parent_id@ == parent@,
{
    reveal_strlit("/art");
    let s = ctx.art_base_url@;
    assert("/art"@.len() == 4);
    assert(s.skip(s.len() - 4) =~= "/art"@);
    assert(s.take(s.len() - 4) =~= host);
    assert(host_base(host) == host);
    assert(host_base(s) == host);
}

/// All tracks of an artist are told of with their number, and stand under the album artist
/// of the name, where there is one, else under the artist.
pub proof fn all_tracks_stand_under_their_artist(
    ctx: &BrowseContext,
    name: &str,
    answers: &[Answer],
    tracks: i64,
    any: i64,
    r: Step<DidlOutput>,
)
    requires
        call_ensures(artist_tracks_metadata, (ctx, name, answers), r),
        answers@.len() > 0 ==> scalar_of(answers@[0]@) == Ok::<i64, crate::error::ErrorView>(tracks),
        answers@.len() > 1 ==> scalar_of(answers@[1]@) == Ok::<i64, crate::error::ErrorView>(any),
    ensures
        answers@.len() == 0 ==> (r matches Step::Query(q) && q@ == (StatementView {
            sql: "SELECT COUNT(*) FROM tracks WHERE artist_norm = ?1"@,
            params: seq![Cell::Text(search_form(name@))],
        })),
        answers@.len() == 1 ==> (r matches Step::Query(q) && q@ == (StatementView {
            sql: "SELECT EXISTS(SELECT 1 FROM albums WHERE effective_album_artist = ?1)"@,
            params: seq![Cell::Text(name@)],
        })),
        answers@.len() > 1 ==> (r matches Step::Done(Ok(d)) && d@.items.len() == 0
            && d@.containers.len() == 1 && {
            let c = d@.containers[0];
            &&& c.id == encoded(ObjectIdView::ArtistTracks(name@))
            &&& c.title == "All tracks ("@ + decimal_int(tracks as int) + ")"@
            &&& c.child_count == Some(tracks)
            &&& any != 0 ==> c.parent_id == encoded(ObjectIdView::AlbumArtist(name@))
            &&& any == 0 ==> c.parent_id == encoded(ObjectIdView::Artist(name@))
        }),
{
    let a = answers_view(answers@);
    assert(a.len() == answers@.len());
    if a.len() > 0 {
        assert(a[0] == answers@[0]@);
    }
    if a.len() > 1 {
        assert(a[1] == answers@[1]@);
    }
}

} // verus!
