//! What is told of objects themselves, and where their children come from.

use vstd::prelude::*;

use crate::browse::albums::{album_metadata, artist_step, person_metadata};
use crate::browse::artist_tracks::artist_tracks_children;
use crate::browse::categories::{root_children, tailed_step};
use crate::browse::listing::{listed, Named, ShapeView};
use crate::browse::random::random_albums_children;
use crate::browse::recent::recent_root_children;
use crate::browse::shelves::{
    asks_which, holds_albums, holds_values, lemma_album_questions, lemma_artist_questions,
    lemma_value_questions, tail_of, value_container, value_shape,
};
use crate::browse::tracks::{
    album_tracks_children, disc_tracks_children, is_track_row, lemma_item_shows_row, shows_row,
    track_at, track_metadata, RowLayout,
};
use crate::browse::{
    browse_children, browse_metadata, children_step, counted_step, metadata_step, plain_object,
    BrowseContext, ChildrenResult, ChildrenView, DidlOutput, DidlView,
};
use crate::db::query::{
    answers_view, integer_at, opt_integer_at, opt_text_at, rows_of, scalar_of, text_at, Answer,
    AnswerView, Cell, StatementView, Step, StepView,
};
use crate::error::{Error, ErrorView};
use crate::text::decimal_int;
use crate::upnp::didl::ContainerView;
use crate::upnp::object_id::{encoded, ObjectId, ObjectIdView};

verus! {

/// What is told of an object goes by the object's own id: one item of a track, one
/// container of anything else.
#[verifier::rlimit(60)]
pub proof fn metadata_goes_by_the_id_of_the_object(
    ctx: &BrowseContext,
    id: &ObjectId,
    answers: &[Answer],
    d: DidlOutput,
)
    requires
        call_ensures(browse_metadata, (ctx, id, answers), Step::Done(Ok::<DidlOutput, Error>(d))),
    ensures
        id@ is Track ==> d@.containers.len() == 0 && d@.items.len() == 1 && d@.items[0].id
            == encoded(id@),
        !(id@ is Track) ==> d@.items.len() == 0 && d@.containers.len() == 1 && d@.containers[0].id
            == encoded(id@),
{
    let a = answers_view(answers@);
    assert(metadata_step(*ctx, id@, a) == StepView::<DidlView>::Done(Ok(d@)));
}

/// The title of a category.
pub open spec fn title_of(id: ObjectIdView) -> Option<Seq<char>> {
    match id {
        ObjectIdView::CatAa => Some("Album Artist"@),
        ObjectIdView::CatAr => Some("Artist"@),
        ObjectIdView::CatAl => Some("Album"@),
        ObjectIdView::CatGn => Some("Genre"@),
        ObjectIdView::CatRecent => Some("Recently Added"@),
        ObjectIdView::CatPlayed => Some("Recently Played"@),
        ObjectIdView::CatRandom => Some("Random Albums"@),
        ObjectIdView::CatHires => Some("Hi-Res Albums"@),
        ObjectIdView::CatLossy => Some("Lossy Albums"@),
        ObjectIdView::CatMixed => Some("Mixed Quality"@),
        ObjectIdView::CatCm => Some("Composer"@),
        ObjectIdView::CatCn => Some("Conductor"@),
        ObjectIdView::CatPf => Some("Performer"@),
        ObjectIdView::CatYr => Some("Year"@),
        ObjectIdView::CatDec => Some("Decade"@),
        _ => None,
    }
}

/// What is told of a category, a genre, a year or a decade itself is what is told of it
/// where it is listed: under the root, or under its category.
pub proof fn metadata_is_what_is_listed(id: ObjectIdView)
    ensures
        title_of(id) matches Some(title) ==> plain_object(id) == Some(
            ContainerView {
                id: encoded(id),
                parent_id: "0"@,
                title,
                upnp_class: "object.container"@,
                child_count: None,
                artist: None,
                album_art_uri: None,
            },
        ),
        id matches ObjectIdView::Genre(name) ==> plain_object(id) == Some(
            value_container(ObjectIdView::CatGn, Cell::Text(name)),
        ),
        id matches ObjectIdView::Year(y) ==> plain_object(id) == Some(
            value_container(ObjectIdView::CatYr, Cell::Integer(y as i64)),
        ),
        id matches ObjectIdView::Decade(d) ==> plain_object(id) == Some(
            value_container(ObjectIdView::CatDec, Cell::Integer(d as i64)),
        ),
{
}

/// A person is told of as under its category, with the picture of the first album that
/// stands under it: that album is what is asked for.
pub proof fn persons_show_their_first_album(
    ctx: &BrowseContext,
    named: Named,
    name: &str,
    none: &[Answer],
    asked: Step<DidlOutput>,
    one: &[Answer],
    d: DidlOutput,
)
    requires
        !(named is Genre),
        none@.len() == 0,
        call_ensures(person_metadata, (ctx, named, name, none), asked),
        one@.len() == 1,
        call_ensures(person_metadata, (ctx, named, name, one), Step::Done(Ok::<DidlOutput, Error>(d))),
    ensures
        ({
            let (object, cat) = match named {
                Named::AlbumArtist => (ObjectIdView::AlbumArtist(name@), ObjectIdView::CatAa),
                Named::Artist => (ObjectIdView::Artist(name@), ObjectIdView::CatAr),
                Named::Composer => (ObjectIdView::Composer(name@), ObjectIdView::CatCm),
                Named::Conductor => (ObjectIdView::Conductor(name@), ObjectIdView::CatCn),
                _ => (ObjectIdView::Performer(name@), ObjectIdView::CatPf),
            };
            let a = answers_view(one@)[0];
            &&& asked matches Step::Query(q) && asks_which(q@, object, 0, 1)
            &&& d@.items.len() == 0
            &&& d@.containers == seq![
                ContainerView {
                    album_art_uri: match rows_of(a) {
                        Ok(rows) if rows.len() > 0 && rows[0].len() > 0 => match rows[0][0] {
                            Cell::Integer(album) => Some(
                                ctx.art_base_url@ + "/"@ + decimal_int(album as int),
                            ),
                            _ => None,
                        },
                        _ => None,
                    },
                    ..value_container(cat, Cell::Text(name@))
                },
            ]
        }),
{
    assert(answers_view(none@).len() == 0);
    assert(answers_view(one@).len() == 1);
}

/// An album is told of with its title, its artist and its picture, and as many children as
/// it has: its discs where it is on several that all its tracks name, else its tracks.
pub proof fn albums_are_told_of_with_their_children(
    ctx: &BrowseContext,
    album: i64,
    answers: &[Answer],
    title: Seq<char>,
    artist: Seq<char>,
    tracks: i64,
    discs: i64,
    strays: i64,
    r: Step<DidlOutput>,
)
    requires
        call_ensures(album_metadata, (ctx, album, answers), r),
        answers@.len() > 0 ==> rows_of(answers@[0]@) == Ok::<Seq<Seq<Cell>>, ErrorView>(
            seq![seq![Cell::Text(title), Cell::Text(artist), Cell::Integer(tracks)]],
        ),
        answers@.len() > 1 ==> rows_of(answers@[1]@) == Ok::<Seq<Seq<Cell>>, ErrorView>(
            seq![seq![Cell::Integer(discs), Cell::Integer(strays)]],
        ),
    ensures
        answers@.len() == 0 ==> (r matches Step::Query(q) && q@ == (StatementView {
            sql: "SELECT album, effective_album_artist, track_count FROM albums WHERE id = ?1"@,
            params: seq![Cell::Integer(album)],
        })),
        answers@.len() == 1 ==> (r matches Step::Query(q) && q@ == (StatementView {
            sql: "SELECT COUNT(DISTINCT disc_num), \
    IFNULL(SUM(CASE WHEN disc_num IS NULL OR disc_num <= 0 THEN 1 ELSE 0 END), 0) \
    FROM tracks WHERE album_id = ?1"@,
            params: seq![Cell::Integer(album)],
        })),
        answers@.len() > 1 ==> (r matches Step::Done(Ok(d)) && d@.items.len() == 0
            && d@.containers == seq![
            ContainerView {
                id: "alb:"@ + decimal_int(album as int),
                parent_id: "cat:al"@,
                title,
                upnp_class: "object.container.album.musicAlbum"@,
                child_count: Some(
                    if discs > 1 && strays == 0 {
                        discs
                    } else {
                        tracks
                    },
                ),
                artist: Some(artist),
                album_art_uri: Some(ctx.art_base_url@ + "/"@ + decimal_int(album as int)),
            },
        ]),
{
    let a = answers_view(answers@);
    assert(a.len() == answers@.len());
    if a.len() > 0 {
        assert(a[0] == answers@[0]@);
    }
    if a.len() > 1 {
        assert(a[1] == answers@[1]@);
    }
}

/// What stands under the root, an album, a disc, all tracks of an artist, and among the
/// latest or the drawn albums is what the list of just that says; under a track stands
/// nothing.
#[verifier::rlimit(60)]
pub proof fn children_come_from_the_list_of_the_object(
    ctx: &BrowseContext,
    id: &ObjectId,
    start: usize,
    count: usize,
    answers: &[Answer],
    r: Step<ChildrenResult>,
    listed: Step<ChildrenResult>,
)
    requires
        call_ensures(browse_children, (ctx, id, start, count, answers), r),
        match *id {
            ObjectId::Root => call_ensures(root_children, (ctx, answers), listed),
            ObjectId::CatRecent => call_ensures(
                recent_root_children,
                (ctx, start, count, answers),
                listed,
            ),
            ObjectId::CatRandom => call_ensures(
                random_albums_children,
                (ctx, start, count, answers),
                listed,
            ),
            ObjectId::ArtistTracks(name) => exists|s: &str|
                s@ == name@ && #[trigger] call_ensures(
                    artist_tracks_children,
                    (ctx, s, start, count, answers),
                    listed,
                ),
            ObjectId::Album(album) => call_ensures(
                album_tracks_children,
                (ctx, album, start, count, answers),
                listed,
            ),
            ObjectId::Disc { album_id, disc } => call_ensures(
                disc_tracks_children,
                (ctx, album_id, disc, start, count, answers),
                listed,
            ),
            _ => *id is Track,
        },
    ensures
        !(id@ is Track) ==> r@ == listed@,
        id@ is Track ==> (r matches Step::Done(Ok(c)) && c@.didl.containers.len() == 0
            && c@.didl.items.len() == 0 && c.total_matches == 0),
{
    let a = answers_view(answers@);
    assert(r@ == children_step(*ctx, id@, start, count, a));
}

/// The albums added last come newest first: no more than the limit are told of, and none
/// that was added more than the given days ago. A page asks for as many of them as it
/// holds.
pub proof fn latest_albums_are_limited_in_number_and_age(
    ctx: &BrowseContext,
    start: usize,
    count: usize,
    answers: &[Answer],
    r: Step<ChildrenResult>,
)
    requires
        call_ensures(recent_root_children, (ctx, start, count, answers), r),
        i64::MIN + 86400 * u32::MAX <= ctx.now_secs,
        answers@.len() > 0 ==> scalar_of(answers@[0]@) is Ok,
        answers@.len() > 0 ==> 0 <= scalar_of(answers@[0]@)->Ok_0 <= usize::MAX,
    ensures
        ({
            let days = ctx.settings.recently_added_max_age_days;
            let own = match days {
                Some(n) => seq![Cell::Integer((ctx.now_secs - 86400 * n) as i64)],
                None => Seq::empty(),
            };
            let n = scalar_of(answers@[0]@)->Ok_0;
            let limit = ctx.settings.recently_added_limit;
            let total: int = if n <= limit {
                n as int
            } else {
                limit as int
            };
            let shown: int = if start >= total {
                0
            } else if count <= total - start {
                count as int
            } else {
                total - start
            };
            &&& answers@.len() == 0 ==> (r matches Step::Query(q) && q@ == (StatementView {
                sql: if days is Some {
                    "SELECT COUNT(*) FROM albums WHERE last_added_at IS NOT NULL AND last_added_at >= ?1"@
                } else {
                    "SELECT COUNT(*) FROM albums WHERE last_added_at IS NOT NULL"@
                },
                params: own,
            }))
            &&& answers@.len() > 0 && shown == 0 ==> (r matches Step::Done(Ok(c))
                && c.total_matches == total && c@.didl.containers.len() == 0
                && c@.didl.items.len() == 0)
            &&& answers@.len() == 1 && shown > 0 ==> (r matches Step::Query(q) && q@ == (
            StatementView {
                sql: if days is Some {
                    "SELECT id, album, effective_album_artist, track_count \
    FROM albums \
    WHERE last_added_at IS NOT NULL AND last_added_at >= ?1 \
    ORDER BY last_added_at DESC, id DESC \
    LIMIT ?2 OFFSET ?3"@
                } else {
                    "SELECT id, album, effective_album_artist, track_count \
    FROM albums \
    WHERE last_added_at IS NOT NULL \
    ORDER BY last_added_at DESC, id DESC \
    LIMIT ?1 OFFSET ?2"@
                },
                params: own + seq![Cell::Integer(shown as i64), Cell::Integer(start as i64)],
            }))
            &&& answers@.len() > 1 && shown > 0 && answers@[1] is Rows ==> (
            r matches Step::Done(Ok(c)) && c.total_matches == total && c@.didl.items.len() == 0)
        }),
{
    let a = answers_view(answers@);
    assert(a.len() == answers@.len());
    if a.len() > 0 {
        assert(a[0] == answers@[0]@);
    }
    if a.len() > 1 {
        assert(a[1] == answers@[1]@);
    }
}

/// The columns of a track are read alike behind its id.
#[verifier::rlimit(60)]
proof fn lemma_track_behind_id(row: Seq<Cell>, id: i64)
    ensures
        track_at(row, 0, RowLayout::Told) == track_at(
            seq![Cell::Integer(id)] + row,
            1,
            RowLayout::Told,
        ),
{
    let whole = seq![Cell::Integer(id)] + row;
    assert forall|i: int| 0 <= i implies #[trigger] text_at(row, i) == text_at(whole, i + 1)
        && opt_text_at(row, i) == opt_text_at(whole, i + 1) && integer_at(row, i) == integer_at(
        whole,
        i + 1,
    ) && opt_integer_at(row, i) == opt_integer_at(whole, i + 1) by {
        if i < row.len() {
            assert(whole[i + 1] == row[i]);
        }
    }
    assert(text_at(row, 0) == text_at(whole, 1) && text_at(row, 1) == text_at(whole, 2) && text_at(
        row,
        2,
    ) == text_at(whole, 3) && text_at(row, 3) == text_at(whole, 4) && text_at(row, 4) == text_at(
        whole,
        5,
    ) && text_at(row, 5) == text_at(whole, 6) && text_at(row, 6) == text_at(whole, 7) && text_at(
        row,
        7,
    ) == text_at(whole, 8) && text_at(row, 8) == text_at(whole, 9) && text_at(row, 9) == text_at(
        whole,
        10,
    ) && text_at(row, 10) == text_at(whole, 11) && text_at(row, 11) == text_at(whole, 12)
        && text_at(row, 12) == text_at(whole, 13) && text_at(row, 13) == text_at(whole, 14)
        && text_at(row, 14) == text_at(whole, 15) && text_at(row, 15) == text_at(whole, 16)
        && text_at(row, 16) == text_at(whole, 17) && text_at(row, 17) == text_at(whole, 18));
}

/// A track is told of by itself as in a list: it is asked for by its id, and the item shows
/// what its row says and is to be had under that id.
#[verifier::rlimit(60)]
pub proof fn tracks_are_told_of_by_themselves(
    ctx: &BrowseContext,
    track: i64,
    answers: &[Answer],
    row: Seq<Cell>,
    r: Step<DidlOutput>,
)
    requires
        call_ensures(track_metadata, (ctx, track, answers), r),
        is_track_row(seq![Cell::Integer(track)] + row, true),
        answers@.len() > 0 ==> rows_of(answers@[0]@) == Ok::<Seq<Seq<Cell>>, ErrorView>(seq![row]),
    ensures
        answers@.len() == 0 ==> (r matches Step::Query(q) && q@ == (StatementView {
            sql: "SELECT t.album_id, t.title, t.artist, t.genre, t.track_num, t.disc_num, \
    t.duration_ms, t.sample_rate, t.bit_depth, t.channels, \
    t.bitrate, t.mime_type, t.file_size, a.album, \
    (SELECT IFNULL(MAX(disc_num), 0) FROM tracks WHERE album_id = t.album_id) > 1, \
    t.composer, t.conductor, t.performer \
    FROM tracks t JOIN albums a ON t.album_id = a.id \
    WHERE t.id = ?1"@,
            params: seq![Cell::Integer(track)],
        })),
        answers@.len() > 0 ==> (r matches Step::Done(Ok(d)) && d@.containers.len() == 0
            && d@.items.len() == 1 && shows_row(
            d@.items[0],
            seq![Cell::Integer(track)] + row,
            true,
        ) && d@.items[0].res.url == ctx.stream_base_url@ + "/"@ + decimal_int(track as int)),
{
    let a = answers_view(answers@);
    assert(a.len() == answers@.len());
    if a.len() > 0 {
        assert(a[0] == answers@[0]@);
        let whole = seq![Cell::Integer(track)] + row;
        lemma_track_behind_id(row, track);
        lemma_item_shows_row(ctx.art_base_url@, ctx.stream_base_url@, RowLayout::Told, whole);
    }
}

// ── Failures ─────────────────────────────────────────────────────────────

/// Whether some work, once a question of it failed, ends with that failure.
pub open spec fn tells_failure(
    step: spec_fn(Seq<AnswerView>) -> StepView<ChildrenView>,
    all: Seq<AnswerView>,
) -> bool {
    all.len() > 0 && step(all.take(all.len() - 1)) is Query ==> (
    all.last() matches AnswerView::Failed(e) ==> (!(e is QueryReturnedNoRows) ==> step(all)
        == StepView::<ChildrenView>::Done(Err(ErrorView::Sqlite(e)))))
}

proof fn lemma_counted_failure(
    count: StatementView,
    list: StatementView,
    make: spec_fn(Seq<Seq<Cell>>) -> DidlView,
    all: Seq<AnswerView>,
)
    ensures
        tells_failure(|a: Seq<AnswerView>| counted_step(count, list, make, a), all),
{
    if all.len() > 1 {
        assert(all.take(all.len() - 1)[0] == all[0]);
    }
}

proof fn lemma_tailed_failure(
    count_stmt: StatementView,
    untagged: StatementView,
    list: StatementView,
    shape: ShapeView,
    art: Seq<char>,
    tail: ContainerView,
    start: usize,
    count: usize,
    all: Seq<AnswerView>,
)
    ensures
        tells_failure(
            |a: Seq<AnswerView>|
                tailed_step(count_stmt, untagged, list, shape, art, tail, start, count, a),
            all,
        ),
{
    let before = all.take(all.len() - 1);
    if all.len() > 1 {
        assert(before[0] == all[0]);
    }
    if all.len() > 2 {
        assert(before[1] == all[1]);
    }
}

proof fn lemma_artist_failure(
    count_stmt: StatementView,
    list: Seq<char>,
    shape: ShapeView,
    name: Seq<char>,
    parent: Seq<char>,
    art: Seq<char>,
    start: usize,
    count: usize,
    all: Seq<AnswerView>,
)
    ensures
        tells_failure(
            |a: Seq<AnswerView>|
                artist_step(count_stmt, list, shape, name, parent, art, start, count, a),
            all,
        ),
{
    let before = all.take(all.len() - 1);
    if all.len() > 1 {
        assert(before[0] == all[0]);
    }
    if all.len() > 2 {
        assert(before[1] == all[1]);
    }
}

/// A list whose questions fail is not told as if it were shorter or empty: the failure is
/// told. Under an album, an artist, a category or any value of one, the first question that
/// fails ends the work with its failure.
#[verifier::rlimit(100)]
pub proof fn failed_questions_are_told(
    ctx: &BrowseContext,
    id: &ObjectId,
    start: usize,
    count: usize,
    answers: &[Answer],
    r: Step<ChildrenResult>,
)
    requires
        call_ensures(browse_children, (ctx, id, start, count, answers), r),
        !(id@ is Root) && !(id@ is CatRandom) && !(id@ is Track),
    ensures
        ({
            let all = answers_view(answers@);
            all.len() > 0 && children_step(*ctx, id@, start, count, all.take(all.len() - 1))
                is Query ==> (all.last() matches AnswerView::Failed(e) ==> (
            !(e is QueryReturnedNoRows) ==> (r matches Step::Done(Err(told)) && told@
                == ErrorView::Sqlite(e))))
        }),
{
    let all = answers_view(answers@);
    let art = ctx.art_base_url@;
    let before = all.take(all.len() - 1);
    if all.len() > 0 && all.last() is Failed {
        if holds_albums(id@) {
            let q = lemma_album_questions(*ctx, id@, start, count);
            lemma_counted_failure(
                q.0,
                q.1,
                listed(ShapeView::Albums { parent: encoded(id@) }, art),
                all,
            );
        } else if holds_values(id@) {
            let q = lemma_value_questions(*ctx, id@, start, count);
            match tail_of(id@) {
                None => lemma_counted_failure(q.0, q.2, listed(value_shape(id@), art), all),
                Some(t) => lemma_tailed_failure(
                    q.0,
                    q.1,
                    q.2,
                    value_shape(id@),
                    art,
                    t.1,
                    start,
                    count,
                    all,
                ),
            }
        } else {
            lemma_other_failure(*ctx, id@, start, count, all);
        }
    }
}

#[verifier::rlimit(100)]
proof fn lemma_other_failure(
    ctx: BrowseContext,
    id: ObjectIdView,
    start: usize,
    count: usize,
    all: Seq<AnswerView>,
)
    requires
        !holds_albums(id),
        !holds_values(id),
        !(id is Root) && !(id is CatRandom) && !(id is Track),
    ensures
        tells_failure(|a: Seq<AnswerView>| children_step(ctx, id, start, count, a), all),
{
    let art = ctx.art_base_url@;
    let before = all.take(all.len() - 1);
    if all.len() > 0 {
        match id {
            ObjectIdView::AlbumArtist(name) => {
                let q = lemma_artist_questions(ctx, id, name, start, count);
                lemma_artist_failure(q.0, q.1, q.2, name, encoded(id), art, start, count, all);
            },
            ObjectIdView::Artist(name) => {
                let q = lemma_artist_questions(ctx, id, name, start, count);
                lemma_artist_failure(q.0, q.1, q.2, name, encoded(id), art, start, count, all);
            },
            _ => {
                if all.len() > 1 {
                    assert(before[0] == all[0]);
                    assert(before.skip(1) =~= all.skip(1).take(all.skip(1).len() - 1));
                    assert(all.skip(1)[0] == all[1]);
                }
                if all.len() > 2 {
                    assert(before[1] == all[1]);
                    assert(before.skip(1)[0] == all[1]);
                    assert(all.skip(1)[1] == all[2]);
                }
            },
        }
    }
}

} // verus!
