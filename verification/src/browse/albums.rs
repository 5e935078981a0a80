//! Albums: one by itself, and the lists of them under each facet.

use vstd::prelude::*;

use crate::browse::artist_tracks::{at_view, build_at_container, track_count_stmt};
use crate::browse::listing::{
    album_container, album_view, list_children, listed, Named, Shape, ShapeView,
};
use crate::browse::tracks::{child_count_of, disc_layout_statement, disc_layout_stmt};
use crate::browse::{
    art_uri, art_uri_text, counted_step, first_row, only_containers, page_statement, page_stmt, row_of, BrowseContext,
    ChildrenResult, ChildrenView, DidlOutput, DidlView,
};
use crate::db::query::{
    answers_view, asked_once, bound, cells, copy_error, get_integer, get_text, integer_at, misread,
    misread_error, plain, plain_stmt, rows_of, rows_view, scalar, scalar_of, text_at, text_param,
    Answer, AnswerView, Cell, SqlValue, Statement, StatementView, Step, StepView, Wanted,
};
use crate::error::{lookup_error, Error, ErrorView};
use crate::text;
use crate::upnp::didl::{containers_view, ContainerView};
use crate::upnp::object_id::{encode, encoded, ObjectId, ObjectIdView};

verus! {

// ── One album ────────────────────────────────────────────────────────────

pub const ALBUM_SQL: &'static str =
    "SELECT album, effective_album_artist, track_count FROM albums WHERE id = ?1";

pub open spec fn album_stmt(album_id: i64) -> StatementView {
    StatementView { sql: ALBUM_SQL@, params: seq![Cell::Integer(album_id)] }
}

pub fn album_statement(album_id: i64) -> (r: Statement)
    ensures
        r@ == album_stmt(album_id),
{
    let params = vec![SqlValue::Integer(album_id)];
    assert(cells(params@) =~= seq![Cell::Integer(album_id)]);
    bound(ALBUM_SQL, params)
}

/// What the columns of an album hold.
pub open spec fn album_columns() -> Seq<Wanted> {
    seq![Wanted::Text, Wanted::Text, Wanted::Integer]
}

pub fn wanted_of_album() -> (r: Vec<Wanted>)
    ensures
        r@ == album_columns(),
{
    vec![Wanted::Text, Wanted::Text, Wanted::Integer]
}

/// The title, the album artist and the number of tracks in a row.
pub open spec fn album_at(row: Seq<Cell>) -> Option<(Seq<char>, Seq<char>, i64)> {
    match (text_at(row, 0), text_at(row, 1), integer_at(row, 2)) {
        (Some(album), Some(artist), Some(n)) => Some((album, artist, n)),
        _ => None,
    }
}

pub fn read_album(row: &crate::db::query::Row) -> (r: Option<(String, String, i64)>)
    ensures
        match r {
            Some(a) => album_at(cells(row@)) == Some((a.0@, a.1@, a.2)),
            None => album_at(cells(row@)) is None,
        },
{
    match (get_text(row, 0), get_text(row, 1), get_integer(row, 2)) {
        (Some(album), Some(artist), Some(n)) => Some((album, artist, n)),
        _ => None,
    }
}

/// The album's title, artist and number of tracks, or why they are not to be had.
pub open spec fn found_album(album_id: i64, a: AnswerView) -> Result<
    (Seq<char>, Seq<char>, i64),
    ErrorView,
> {
    match row_of(a) {
        Err(e) => Err(lookup_error(e, "album"@, text::decimal_int(album_id as int))),
        Ok(row) => match album_at(row) {
            Some(found) => Ok(found),
            None => Err(ErrorView::Sqlite(misread(a, album_columns()))),
        },
    }
}

/// Look the album up, then find out how many children it has.
pub open spec fn album_metadata_step(
    art_base: Seq<char>,
    album_id: i64,
    answers: Seq<AnswerView>,
) -> StepView<DidlView> {
    if answers.len() == 0 {
        StepView::Query(album_stmt(album_id))
    } else {
        match found_album(album_id, answers[0]) {
            Err(e) => StepView::Done(Err(e)),
            Ok((album, artist, track_count)) => if answers.len() == 1 {
                StepView::Query(disc_layout_stmt(album_id))
            } else {
                StepView::Done(
                    Ok(
                        only_containers(
                            seq![
                                album_view(
                                    art_base,
                                    album_id,
                                    album,
                                    artist,
                                    child_count_of(answers[1], track_count),
                                    "cat:al"@,
                                ),
                            ],
                        ),
                    ),
                )
            },
        }
    }
}

/// An album by itself. Where there is none with the id, it is not found.
pub fn album_metadata(ctx: &BrowseContext, album_id: i64, answers: &[Answer]) -> (r: Step<
    DidlOutput,
>)
    ensures
        r@ == album_metadata_step(ctx.art_base_url@, album_id, answers_view(answers@)),
{
    if answers.len() == 0 {
        return Step::Query(album_statement(album_id));
    }
    let row = match first_row(&answers[0]) {
        Ok(row) => row,
        Err(e) => {
            return Step::Done(
                Err(Error::sqlite_or_not_found(e, "album", text::integer_text(album_id))),
            );
        },
    };
    let (album, artist, track_count) = match read_album(row) {
        Some(found) => found,
        None => return Step::Done(
            Err(Error::Sqlite(misread_error(&answers[0], &wanted_of_album()))),
        ),
    };
    if answers.len() == 1 {
        return Step::Query(disc_layout_statement(album_id));
    }
    let child_count: i64 = crate::browse::tracks::album_child_count(&answers[1], track_count);
    Step::Done(
        Ok(
            DidlOutput::single(
                album_container(ctx, album_id, album, artist, child_count, "cat:al"),
            ),
        ),
    )
}

// ── Albums with a track ──────────────────────────────────────────────────

pub open spec fn with_track_count_sql(condition: Seq<char>) -> Seq<char> {
    "SELECT COUNT(*) FROM albums a WHERE EXISTS (SELECT 1 FROM tracks t WHERE t.album_id = a.id AND "@
        + condition + ")"@
}

pub open spec fn with_track_list_sql(condition: Seq<char>, paging: Seq<char>) -> Seq<char> {
    "SELECT a.id, a.album, a.effective_album_artist, a.track_count FROM albums a WHERE EXISTS (SELECT 1 FROM tracks t WHERE t.album_id = a.id AND "@
        + condition + ") ORDER BY a.album "@ + paging
}

/// The albums with a track that meets a condition on `own` parameters, in the order
/// of their titles.
pub open spec fn with_track_step(
    condition: Seq<char>,
    paging: Seq<char>,
    own: Seq<Cell>,
    parent: Seq<char>,
    art_base: Seq<char>,
    start: usize,
    count: usize,
    answers: Seq<AnswerView>,
) -> StepView<ChildrenView> {
    counted_step(
        StatementView { sql: with_track_count_sql(condition), params: own },
        page_stmt(with_track_list_sql(condition, paging), own, start, count),
        listed(ShapeView::Albums { parent }, art_base),
        answers,
    )
}

fn with_track_count(condition: &str, own: Vec<SqlValue>) -> (r: Statement)
    ensures
        r@ == (StatementView { sql: with_track_count_sql(condition@), params: cells(own@) }),
{
    let sql = text::cat3(
        "SELECT COUNT(*) FROM albums a WHERE EXISTS (SELECT 1 FROM tracks t WHERE t.album_id = a.id AND ",
        condition,
        ")",
    );
    bound(sql.as_str(), own)
}

fn with_track_list(
    condition: &str,
    paging: &str,
    own: Vec<SqlValue>,
    start: usize,
    count: usize,
) -> (r: Statement)
    ensures
        r@ == page_stmt(with_track_list_sql(condition@, paging@), cells(own@), start, count),
{
    let head = text::cat3(
        "SELECT a.id, a.album, a.effective_album_artist, a.track_count FROM albums a WHERE EXISTS (SELECT 1 FROM tracks t WHERE t.album_id = a.id AND ",
        condition,
        ") ORDER BY a.album ",
    );
    page_statement(text::cat(head.as_str(), paging).as_str(), own, start, count)
}

fn one_text(s: &str) -> (r: Vec<SqlValue>)
    ensures
        cells(r@) == seq![Cell::Text(s@)],
{
    let r = vec![text_param(s)];
    assert(cells(r@) =~= seq![Cell::Text(s@)]);
    r
}

fn one_integer(n: i64) -> (r: Vec<SqlValue>)
    ensures
        cells(r@) == seq![Cell::Integer(n)],
{
    let r = vec![SqlValue::Integer(n)];
    assert(cells(r@) =~= seq![Cell::Integer(n)]);
    r
}

pub const AFTER_ONE: &'static str = "LIMIT ?2 OFFSET ?3";

/// The albums with a track that has `name` in a column, under the object of that name.
pub open spec fn named_step(
    named: Named,
    condition: Seq<char>,
    name: Seq<char>,
    art_base: Seq<char>,
    start: usize,
    count: usize,
    answers: Seq<AnswerView>,
) -> StepView<ChildrenView> {
    with_track_step(
        condition,
        AFTER_ONE@,
        seq![Cell::Text(name)],
        encoded(named.object(name)),
        art_base,
        start,
        count,
        answers,
    )
}

fn named_children(
    ctx: &BrowseContext,
    named: Named,
    condition: &str,
    name: &str,
    start: usize,
    count: usize,
    answers: &[Answer],
) -> (r: Step<ChildrenResult>)
    ensures
        r@ == named_step(
            named,
            condition@,
            name@,
            ctx.art_base_url@,
            start,
            count,
            answers_view(answers@),
        ),
{
    let parent = encode(&named.object_of(name));
    let shape = Shape::Albums { parent: parent.as_str() };
    list_children(
        ctx,
        with_track_count(condition, one_text(name)),
        with_track_list(condition, AFTER_ONE, one_text(name), start, count),
        &shape,
        answers,
    )
}

/// The albums with a track of the genre.
pub fn albums_by_genre_children(
    ctx: &BrowseContext,
    genre_name: &str,
    start: usize,
    count: usize,
    answers: &[Answer],
) -> (r: Step<ChildrenResult>)
    ensures
        r@ == named_step(
            Named::Genre,
            "t.genre = ?1"@,
            genre_name@,
            ctx.art_base_url@,
            start,
            count,
            answers_view(answers@),
        ),
{
    named_children(ctx, Named::Genre, "t.genre = ?1", genre_name, start, count, answers)
}

/// The albums with a track of the composer.
pub fn albums_by_composer_children(
    ctx: &BrowseContext,
    name: &str,
    start: usize,
    count: usize,
    answers: &[Answer],
) -> (r: Step<ChildrenResult>)
    ensures
        r@ == named_step(
            Named::Composer,
            "t.composer = ?1"@,
            name@,
            ctx.art_base_url@,
            start,
            count,
            answers_view(answers@),
        ),
{
    named_children(ctx, Named::Composer, "t.composer = ?1", name, start, count, answers)
}

/// The albums with a track of the conductor.
pub fn albums_by_conductor_children(
    ctx: &BrowseContext,
    name: &str,
    start: usize,
    count: usize,
    answers: &[Answer],
) -> (r: Step<ChildrenResult>)
    ensures
        r@ == named_step(
            Named::Conductor,
            "t.conductor = ?1"@,
            name@,
            ctx.art_base_url@,
            start,
            count,
            answers_view(answers@),
        ),
{
    named_children(ctx, Named::Conductor, "t.conductor = ?1", name, start, count, answers)
}

/// The albums with a track of the performer.
pub fn albums_by_performer_children(
    ctx: &BrowseContext,
    name: &str,
    start: usize,
    count: usize,
    answers: &[Answer],
) -> (r: Step<ChildrenResult>)
    ensures
        r@ == named_step(
            Named::Performer,
            "t.performer = ?1"@,
            name@,
            ctx.art_base_url@,
            start,
            count,
            answers_view(answers@),
        ),
{
    named_children(ctx, Named::Performer, "t.performer = ?1", name, start, count, answers)
}

/// The albums with a track of the year.
pub fn albums_by_year_children(
    ctx: &BrowseContext,
    year: i32,
    start: usize,
    count: usize,
    answers: &[Answer],
) -> (r: Step<ChildrenResult>)
    ensures
        r@ == with_track_step(
            "t.year = ?1"@,
            AFTER_ONE@,
            seq![Cell::Integer(year as i64)],
            encoded(ObjectIdView::Year(year)),
            ctx.art_base_url@,
            start,
            count,
            answers_view(answers@),
        ),
{
    let parent = encode(&ObjectId::Year(year));
    list_children(
        ctx,
        with_track_count("t.year = ?1", one_integer(year as i64)),
        with_track_list("t.year = ?1", AFTER_ONE, one_integer(year as i64), start, count),
        &Shape::Albums { parent: parent.as_str() },
        answers,
    )
}

/// The last year of a decade.
pub open spec fn decade_end(decade: i32) -> i64 {
    (decade + 9) as i64
}

fn two_integers(a: i64, b: i64) -> (r: Vec<SqlValue>)
    ensures
        cells(r@) == seq![Cell::Integer(a), Cell::Integer(b)],
{
    let r = vec![SqlValue::Integer(a), SqlValue::Integer(b)];
    assert(cells(r@) =~= seq![Cell::Integer(a), Cell::Integer(b)]);
    r
}

/// The albums with a track of the ten years from `decade` on.
pub fn albums_by_decade_children(
    ctx: &BrowseContext,
    decade: i32,
    start: usize,
    count: usize,
    answers: &[Answer],
) -> (r: Step<ChildrenResult>)
    ensures
        r@ == with_track_step(
            "t.year BETWEEN ?1 AND ?2"@,
            "LIMIT ?3 OFFSET ?4"@,
            seq![Cell::Integer(decade as i64), Cell::Integer(decade_end(decade))],
            encoded(ObjectIdView::Decade(decade)),
            ctx.art_base_url@,
            start,
            count,
            answers_view(answers@),
        ),
{
    let parent = encode(&ObjectId::Decade(decade));
    let lo: i64 = decade as i64;
    let hi: i64 = lo + 9;
    list_children(
        ctx,
        with_track_count("t.year BETWEEN ?1 AND ?2", two_integers(lo, hi)),
        with_track_list(
            "t.year BETWEEN ?1 AND ?2",
            "LIMIT ?3 OFFSET ?4",
            two_integers(lo, hi),
            start,
            count,
        ),
        &Shape::Albums { parent: parent.as_str() },
        answers,
    )
}

// ── Albums without a tag ─────────────────────────────────────────────────

/// Whether a track has a genre.
pub const GENRE_TAGGED: &'static str = "t.genre IS NOT NULL AND t.genre != ''";

/// Whether a track has a year.
pub const YEAR_TAGGED: &'static str = "t.year IS NOT NULL";

pub open spec fn untagged_count_stmt(tagged: Seq<char>) -> StatementView {
    plain_stmt(
        "SELECT COUNT(*) FROM albums a WHERE NOT EXISTS (SELECT 1 FROM tracks t WHERE t.album_id = a.id AND "@
            + tagged + ")"@,
    )
}

pub open spec fn untagged_list_sql(tagged: Seq<char>) -> Seq<char> {
    "SELECT a.id, a.album, a.effective_album_artist, a.track_count FROM albums a WHERE NOT EXISTS (SELECT 1 FROM tracks t WHERE t.album_id = a.id AND "@
        + tagged + ") ORDER BY a.album LIMIT ?1 OFFSET ?2"@
}

pub fn untagged_count(tagged: &str) -> (r: Statement)
    ensures
        r@ == untagged_count_stmt(tagged@),
{
    plain(
        text::cat3(
            "SELECT COUNT(*) FROM albums a WHERE NOT EXISTS (SELECT 1 FROM tracks t WHERE t.album_id = a.id AND ",
            tagged,
            ")",
        ).as_str(),
    )
}

/// The albums none of whose tracks is tagged.
pub open spec fn untagged_step(
    tagged: Seq<char>,
    parent: ObjectIdView,
    art_base: Seq<char>,
    start: usize,
    count: usize,
    answers: Seq<AnswerView>,
) -> StepView<ChildrenView> {
    counted_step(
        untagged_count_stmt(tagged),
        page_stmt(untagged_list_sql(tagged), Seq::empty(), start, count),
        listed(ShapeView::Albums { parent: encoded(parent) }, art_base),
        answers,
    )
}

fn untagged_children(
    ctx: &BrowseContext,
    tagged: &str,
    parent: &ObjectId,
    start: usize,
    count: usize,
    answers: &[Answer],
) -> (r: Step<ChildrenResult>)
    ensures
        r@ == untagged_step(
            tagged@,
            parent@,
            ctx.art_base_url@,
            start,
            count,
            answers_view(answers@),
        ),
{
    let id = encode(parent);
    let sql = text::cat3(
        "SELECT a.id, a.album, a.effective_album_artist, a.track_count FROM albums a WHERE NOT EXISTS (SELECT 1 FROM tracks t WHERE t.album_id = a.id AND ",
        tagged,
        ") ORDER BY a.album LIMIT ?1 OFFSET ?2",
    );
    let own: Vec<SqlValue> = Vec::new();
    assert(cells(own@) =~= Seq::empty());
    list_children(
        ctx,
        untagged_count(tagged),
        page_statement(sql.as_str(), own, start, count),
        &Shape::Albums { parent: id.as_str() },
        answers,
    )
}

/// The albums without a genre.
pub fn albums_by_unknown_genre_children(
    ctx: &BrowseContext,
    start: usize,
    count: usize,
    answers: &[Answer],
) -> (r: Step<ChildrenResult>)
    ensures
        r@ == untagged_step(
            GENRE_TAGGED@,
            ObjectIdView::UnknownGenre,
            ctx.art_base_url@,
            start,
            count,
            answers_view(answers@),
        ),
{
    untagged_children(ctx, GENRE_TAGGED, &ObjectId::UnknownGenre, start, count, answers)
}

/// The albums without a year.
pub fn albums_by_unknown_year_children(
    ctx: &BrowseContext,
    start: usize,
    count: usize,
    answers: &[Answer],
) -> (r: Step<ChildrenResult>)
    ensures
        r@ == untagged_step(
            YEAR_TAGGED@,
            ObjectIdView::UnknownYear,
            ctx.art_base_url@,
            start,
            count,
            answers_view(answers@),
        ),
{
    untagged_children(ctx, YEAR_TAGGED, &ObjectId::UnknownYear, start, count, answers)
}

/// The albums without a year, as the decades list them.
pub fn albums_by_unknown_decade_children(
    ctx: &BrowseContext,
    start: usize,
    count: usize,
    answers: &[Answer],
) -> (r: Step<ChildrenResult>)
    ensures
        r@ == untagged_step(
            YEAR_TAGGED@,
            ObjectIdView::UnknownDecade,
            ctx.art_base_url@,
            start,
            count,
            answers_view(answers@),
        ),
{
    untagged_children(ctx, YEAR_TAGGED, &ObjectId::UnknownDecade, start, count, answers)
}

// ── Albums of an artist ──────────────────────────────────────────────────

pub const BY_ALBUM_ARTIST_COUNT_SQL: &'static str =
    "SELECT COUNT(*) FROM albums WHERE effective_album_artist = ?1";

pub const BY_ALBUM_ARTIST_SQL: &'static str = "SELECT id, album, track_count FROM albums \
    WHERE effective_album_artist = ?1 ORDER BY album LIMIT ?2 OFFSET ?3";

/// Where a page of albums begins, and how many it holds, when the list of an artist
/// begins with all tracks.
pub open spec fn behind_shortcut(start: usize, count: usize) -> (usize, usize) {
    if start == 0 {
        (0, if count > 0 { (count - 1) as usize } else { 0 })
    } else {
        ((start - 1) as usize, count)
    }
}

/// Ask how many tracks the artist has, how many albums, and for a page of the albums.
/// Where there are tracks, all of them come first, as one container that takes a
/// place of its own.
pub open spec fn artist_step(
    count_stmt: StatementView,
    list_sql: Seq<char>,
    shape: ShapeView,
    name: Seq<char>,
    parent: Seq<char>,
    art_base: Seq<char>,
    start: usize,
    count: usize,
    answers: Seq<AnswerView>,
) -> StepView<ChildrenView> {
    let own = seq![Cell::Text(name)];
    if answers.len() == 0 {
        StepView::Query(track_count_stmt(name))
    } else {
        match scalar_of(answers[0]) {
            Err(e) => StepView::Done(Err(e)),
            Ok(tracks) => if answers.len() == 1 {
                StepView::Query(count_stmt)
            } else {
                match scalar_of(answers[1]) {
                    Err(e) => StepView::Done(Err(e)),
                    Ok(albums) => {
                        let (from, n) = if tracks > 0 {
                            behind_shortcut(start, count)
                        } else {
                            (start, count)
                        };
                        if answers.len() == 2 {
                            StepView::Query(page_stmt(list_sql, own, from, n))
                        } else {
                            match rows_of(answers[2]) {
                                Err(e) => StepView::Done(Err(e)),
                                Ok(rows) => {
                                    let listed = shape.containers(art_base, rows);
                                    StepView::Done(
                                        Ok(
                                            if tracks > 0 {
                                                ChildrenView {
                                                    didl: only_containers(
                                                        if start == 0 && count > 0 {
                                                            seq![
                                                                at_view(
                                                                    art_base,
                                                                    name,
                                                                    tracks,
                                                                    parent,
                                                                ),
                                                            ] + listed
                                                        } else {
                                                            listed
                                                        },
                                                    ),
                                                    total_matches: crate::browse::categories::one_more(
                                                        albums as usize,
                                                    ),
                                                }
                                            } else {
                                                ChildrenView {
                                                    didl: only_containers(listed),
                                                    total_matches: albums as usize,
                                                }
                                            },
                                        ),
                                    )
                                },
                            }
                        }
                    },
                }
            },
        }
    }
}

fn artist_children(
    ctx: &BrowseContext,
    count_statement: Statement,
    list_sql: &str,
    shape: &Shape,
    name: &str,
    parent: &str,
    start: usize,
    count: usize,
    answers: &[Answer],
) -> (r: Step<ChildrenResult>)
    ensures
        r@ == artist_step(
            count_statement@,
            list_sql@,
            shape@,
            name@,
            parent@,
            ctx.art_base_url@,
            start,
            count,
            answers_view(answers@),
        ),
{
    if answers.len() == 0 {
        return Step::Query(crate::browse::artist_tracks::track_count_statement(name));
    }
    let tracks: i64 = match scalar(&answers[0]) {
        Err(e) => return Step::Done(Err(e)),
        Ok(n) => n,
    };
    if answers.len() == 1 {
        return Step::Query(count_statement);
    }
    let albums: i64 = match scalar(&answers[1]) {
        Err(e) => return Step::Done(Err(e)),
        Ok(n) => n,
    };
    let (from, n): (usize, usize) = if tracks > 0 {
        if start == 0 {
            (0, if count > 0 { count - 1 } else { 0 })
        } else {
            (start - 1, count)
        }
    } else {
        (start, count)
    };
    if answers.len() == 2 {
        return Step::Query(page_statement(list_sql, one_text(name), from, n));
    }
    let rows = match &answers[2] {
        Answer::Failed(e) => return Step::Done(Err(Error::Sqlite(copy_error(e)))),
        Answer::Rows(rows, _) => rows,
    };
    let mut listed_albums = shape.make_all(ctx, rows);
    let found: usize = albums as usize;
    if tracks > 0 {
        let total_matches: usize = if found < usize::MAX { found + 1 } else { found };
        if start == 0 && count > 0 {
            let shortcut = build_at_container(ctx, name, tracks, text::owned(parent));
            let ghost own = containers_view(listed_albums@);
            let mut containers = vec![shortcut];
            assert(containers_view(containers@) =~= seq![shortcut@]);
            let ghost head = containers@;
            let ghost tail = listed_albums@;
            containers.append(&mut listed_albums);
            assert(containers@ =~= head + tail);
            assert(containers_view(containers@) =~= seq![shortcut@] + own);
            return Step::Done(
                Ok(ChildrenResult { didl: DidlOutput::of_containers(containers), total_matches }),
            );
        }
        return Step::Done(
            Ok(ChildrenResult { didl: DidlOutput::of_containers(listed_albums), total_matches }),
        );
    }
    Step::Done(
        Ok(
            ChildrenResult {
                didl: DidlOutput::of_containers(listed_albums),
                total_matches: found,
            },
        ),
    )
}

/// The albums of an album artist, after all the artist's tracks.
pub fn albums_by_aa_children(
    ctx: &BrowseContext,
    aa_name: &str,
    start: usize,
    count: usize,
    answers: &[Answer],
) -> (r: Step<ChildrenResult>)
    ensures
        r@ == artist_step(
            StatementView {
                sql: BY_ALBUM_ARTIST_COUNT_SQL@,
                params: seq![Cell::Text(aa_name@)],
            },
            BY_ALBUM_ARTIST_SQL@,
            ShapeView::AlbumsOf {
                artist: aa_name@,
                parent: encoded(ObjectIdView::AlbumArtist(aa_name@)),
            },
            aa_name@,
            encoded(ObjectIdView::AlbumArtist(aa_name@)),
            ctx.art_base_url@,
            start,
            count,
            answers_view(answers@),
        ),
{
    let parent = encode(&Named::AlbumArtist.object_of(aa_name));
    artist_children(
        ctx,
        bound(BY_ALBUM_ARTIST_COUNT_SQL, one_text(aa_name)),
        BY_ALBUM_ARTIST_SQL,
        &Shape::AlbumsOf { artist: aa_name, parent: parent.as_str() },
        aa_name,
        parent.as_str(),
        start,
        count,
        answers,
    )
}

/// The albums with a track of the artist, after all the artist's tracks.
pub fn albums_by_artist_children(
    ctx: &BrowseContext,
    artist_name: &str,
    start: usize,
    count: usize,
    answers: &[Answer],
) -> (r: Step<ChildrenResult>)
    ensures
        r@ == artist_step(
            StatementView {
                sql: with_track_count_sql("t.artist = ?1"@),
                params: seq![Cell::Text(artist_name@)],
            },
            with_track_list_sql("t.artist = ?1"@, AFTER_ONE@),
            ShapeView::Albums { parent: encoded(ObjectIdView::Artist(artist_name@)) },
            artist_name@,
            encoded(ObjectIdView::Artist(artist_name@)),
            ctx.art_base_url@,
            start,
            count,
            answers_view(answers@),
        ),
{
    let parent = encode(&Named::Artist.object_of(artist_name));
    let head = text::cat3(
        "SELECT a.id, a.album, a.effective_album_artist, a.track_count FROM albums a WHERE EXISTS (SELECT 1 FROM tracks t WHERE t.album_id = a.id AND ",
        "t.artist = ?1",
        ") ORDER BY a.album ",
    );
    let list_sql = text::cat(head.as_str(), AFTER_ONE);
    artist_children(
        ctx,
        with_track_count("t.artist = ?1", one_text(artist_name)),
        list_sql.as_str(),
        &Shape::Albums { parent: parent.as_str() },
        artist_name,
        parent.as_str(),
        start,
        count,
        answers,
    )
}

/// The list of an artist who has tracks is one place longer than the albums, and its
/// pages behind the first place are those of the albums, one place earlier.
pub proof fn shortcut_shifts_pages_by_one(start: usize, count: usize)
    requires
        start > 0,
    ensures
        behind_shortcut(start, count) == ((start - 1) as usize, count),
        count > 0 ==> behind_shortcut(0, count).0 == 0 && behind_shortcut(0, count).1 + 1 == count,
{
}

// ── Persons ──────────────────────────────────────────────────────────────

/// What lists the albums under the one with a name.
pub open spec fn albums_sql(named: Named) -> Seq<char> {
    match named {
        Named::AlbumArtist => BY_ALBUM_ARTIST_SQL@,
        Named::Artist => with_track_list_sql("t.artist = ?1"@, AFTER_ONE@),
        Named::Genre => with_track_list_sql("t.genre = ?1"@, AFTER_ONE@),
        Named::Composer => with_track_list_sql("t.composer = ?1"@, AFTER_ONE@),
        Named::Conductor => with_track_list_sql("t.conductor = ?1"@, AFTER_ONE@),
        Named::Performer => with_track_list_sql("t.performer = ?1"@, AFTER_ONE@),
    }
}

/// The album in the first row. A failure counts as none.
pub open spec fn first_album(a: AnswerView) -> Option<i64> {
    match a {
        AnswerView::Failed(_) => None,
        AnswerView::Rows(rows, _) => if rows.len() == 0 {
            None
        } else {
            integer_at(rows[0], 0)
        },
    }
}

/// A person, with the picture of an album where there is one.
pub open spec fn person_view(
    named: Named,
    name: Seq<char>,
    art_base: Seq<char>,
    album: Option<i64>,
) -> ContainerView {
    ContainerView {
        album_art_uri: match album {
            Some(id) => Some(art_uri(art_base, id)),
            None => None,
        },
        ..named.container(name)
    }
}

/// A person borrows the picture of the first album that is listed under it.
pub open spec fn person_step(
    named: Named,
    name: Seq<char>,
    art_base: Seq<char>,
    answers: Seq<AnswerView>,
) -> StepView<DidlView> {
    asked_once(
        page_stmt(albums_sql(named), seq![Cell::Text(name)], 0, 1),
        answers,
        |a: AnswerView|
            Ok(only_containers(seq![person_view(named, name, art_base, first_album(a))])),
    )
}

/// What is told of a person itself.
pub fn person_metadata(ctx: &BrowseContext, named: Named, name: &str, answers: &[Answer]) -> (r: Step<
    DidlOutput,
>)
    ensures
        r@ == person_step(named, name@, ctx.art_base_url@, answers_view(answers@)),
{
    if answers.len() == 0 {
        let condition: &'static str = match named {
            Named::AlbumArtist => return Step::Query(
                page_statement(BY_ALBUM_ARTIST_SQL, one_text(name), 0, 1),
            ),
            Named::Artist => "t.artist = ?1",
            Named::Genre => "t.genre = ?1",
            Named::Composer => "t.composer = ?1",
            Named::Conductor => "t.conductor = ?1",
            Named::Performer => "t.performer = ?1",
        };
        return Step::Query(with_track_list(condition, AFTER_ONE, one_text(name), 0, 1));
    }
    let album: Option<i64> = match &answers[0] {
        Answer::Failed(_) => None,
        Answer::Rows(rows, _) => if rows.len() == 0 {
            None
        } else {
            assert(rows_view(rows@)[0] == cells(rows@[0]@));
            get_integer(&rows[0], 0)
        },
    };
    let mut person = named.container_of(name);
    if let Some(id) = album {
        person.album_art_uri = Some(art_uri_text(ctx.art_base_url, id));
    }
    Step::Done(Ok(DidlOutput::single(person)))
}

} // verus!
