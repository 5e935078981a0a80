//! The albums of the random selection, in its order.

use vstd::prelude::*;

use crate::browse::albums::{
    album_at, album_columns, album_statement, album_stmt, read_album, wanted_of_album,
};
use crate::browse::listing::{album_container, album_view};
use crate::browse::{
    first_row, only_containers, row_of, BrowseContext, ChildrenResult, ChildrenView, DidlOutput,
};
use crate::db::query::{
    answers_view, misread, misread_error, Answer, AnswerView, Cell, Step, StepView, Wanted,
};
use crate::error::{Error, ErrorView, SqliteError};
use crate::random::{album_ids_stmt, page_of, RandomState};
use crate::state::BrowseSettings;
use crate::upnp::didl::{containers_view, Container, ContainerView};

verus! {

/// Look the albums up one by one, with those found so far. One that is gone is passed
/// over.
pub open spec fn random_step(
    ids: Seq<i64>,
    total: usize,
    art_base: Seq<char>,
    answers: Seq<AnswerView>,
    shown: Seq<ContainerView>,
) -> StepView<ChildrenView>
    decreases ids.len(),
{
    if ids.len() == 0 {
        StepView::Done(
            Ok(ChildrenView { didl: only_containers(shown), total_matches: total }),
        )
    } else if answers.len() == 0 {
        StepView::Query(album_stmt(ids[0]))
    } else {
        let rest = ids.skip(1);
        match row_of(answers[0]) {
            Err(e) => if e is QueryReturnedNoRows {
                random_step(rest, total, art_base, answers.skip(1), shown)
            } else {
                StepView::Done(Err(ErrorView::Sqlite(e)))
            },
            Ok(row) => match album_at(row) {
                None => StepView::Done(
                    Err(ErrorView::Sqlite(misread(answers[0], album_columns()))),
                ),
                Some((album, artist, n)) => random_step(
                    rest,
                    total,
                    art_base,
                    answers.skip(1),
                    shown.push(
                        album_view(art_base, ids[0], album, artist, n, "cat:random"@),
                    ),
                ),
            },
        }
    }
}

/// A page of the random selection.
pub fn random_albums_children(
    ctx: &BrowseContext,
    start: usize,
    count: usize,
    answers: &[Answer],
) -> (r: Step<ChildrenResult>)
    ensures
        r@ == random_step(
            page_of(ctx.random_state@, start as int, count as int),
            ctx.random_state@.len() as usize,
            ctx.art_base_url@,
            answers_view(answers@),
            Seq::empty(),
        ),
{
    let ids = ctx.random_state.page(start, count);
    let total: usize = ctx.random_state.len();
    let ghost all = answers_view(answers@);
    let ghost art = ctx.art_base_url@;
    let mut shown: Vec<Container> = Vec::new();
    let mut i: usize = 0;
    assert(ids@.skip(0) =~= ids@);
    assert(all.skip(0) =~= all);
    assert(containers_view(shown@) =~= Seq::empty());
    let ghost end = random_step(ids@, total, art, all, Seq::empty());
    while i < ids.len()
        invariant
            i <= ids@.len(),
            i <= answers@.len(),
            all == answers_view(answers@),
            art == ctx.art_base_url@,
            random_step(
                ids@.skip(i as int),
                total,
                art,
                all.skip(i as int),
                containers_view(shown@),
            ) == end,
            end == random_step(
                page_of(ctx.random_state@, start as int, count as int),
                ctx.random_state@.len() as usize,
                ctx.art_base_url@,
                answers_view(answers@),
                Seq::empty(),
            ),
        decreases ids@.len() - i,
    {
        assert(ids@.skip(i as int)[0] == ids@[i as int]);
        assert(ids@.skip(i as int).skip(1) =~= ids@.skip(i + 1));
        if i == answers.len() {
            assert(all.skip(i as int).len() == 0);
            return Step::Query(album_statement(ids[i]));
        }
        assert(all.skip(i as int)[0] == answers@[i as int]@);
        assert(all.skip(i as int).skip(1) =~= all.skip(i + 1));
        let ghost before = shown@;
        match first_row(&answers[i]) {
            Err(SqliteError::QueryReturnedNoRows) => {},
            Err(e) => return Step::Done(Err(Error::Sqlite(e))),
            Ok(row) => match read_album(row) {
                None => return Step::Done(
                    Err(Error::Sqlite(misread_error(&answers[i], &wanted_of_album()))),
                ),
                Some((album, artist, n)) => {
                    let c = album_container(ctx, ids[i], album, artist, n, "cat:random");
                    shown.push(c);
                    assert(containers_view(shown@) =~= containers_view(before).push(c@));
                },
            },
        }
        i = i + 1;
    }
    assert(ids@.skip(i as int).len() == 0);
    Step::Done(
        Ok(ChildrenResult { didl: DidlOutput::of_containers(shown), total_matches: total }),
    )
}

/// Whether looking at the random selection takes it from `before` to `after` and gives
/// `step`. A selection that is due is drawn anew first, which `draw` answers for; where
/// that fails, the selection stays. The page is then one of the selection as it is.
pub open spec fn opens(
    before: RandomState,
    after: RandomState,
    settings: BrowseSettings,
    art_base: Seq<char>,
    now_secs: i64,
    start: usize,
    count: usize,
    draw: Seq<AnswerView>,
    answers: Seq<AnswerView>,
    step: StepView<ChildrenView>,
) -> bool {
    let page = random_step(
        page_of(after@, start as int, count as int),
        after@.len() as usize,
        art_base,
        answers,
        Seq::empty(),
    );
    if !before.is_due(settings.random_albums_shuffle_interval_hours, now_secs) {
        after == before && step == page
    } else if draw.len() == 0 {
        after == before && step == StepView::<ChildrenView>::Query(album_ids_stmt())
    } else {
        &&& exists|drawn: StepView<usize>|
            #[trigger] before.draws(
                after,
                Some(settings.random_albums_limit),
                now_secs,
                draw,
                drawn,
            )
        &&& step == page
    }
}

/// Open the random selection and show a page of it. Where the selection is older than
/// the settings want, it is drawn anew first; that takes one question, the answer to
/// which is `draw`. Where the draw fails, the page is one of the selection as it was.
///
/// The draw is over as soon as the result is anything but that question: the rest of the
/// page is then asked for with [`random_albums_children`].
pub fn open_random_albums(
    state: &mut RandomState,
    settings: &BrowseSettings,
    art_base_url: &str,
    now_secs: i64,
    start: usize,
    count: usize,
    draw: &[Answer],
    answers: &[Answer],
) -> (r: Step<ChildrenResult>)
    ensures
        opens(
            *old(state),
            *final(state),
            *settings,
            art_base_url@,
            now_secs,
            start,
            count,
            answers_view(draw@),
            answers_view(answers@),
            r@,
        ),
{
    let drawn = state.maybe_reshuffle(
        Some(settings.random_albums_limit),
        settings.random_albums_shuffle_interval_hours,
        now_secs,
        draw,
    );
    if let Some(Step::Query(q)) = drawn {
        return Step::Query(q);
    }
    let ctx = BrowseContext {
        art_base_url,
        stream_base_url: "",
        random_state: state,
        now_secs,
        settings,
    };
    random_albums_children(&ctx, start, count, answers)
}

/// A selection that cannot be drawn anew is shown as it was.
pub proof fn failed_draw_keeps_selection(
    before: RandomState,
    after: RandomState,
    settings: BrowseSettings,
    art_base: Seq<char>,
    now_secs: i64,
    start: usize,
    count: usize,
    draw: Seq<AnswerView>,
    answers: Seq<AnswerView>,
    step: StepView<ChildrenView>,
)
    requires
        opens(before, after, settings, art_base, now_secs, start, count, draw, answers, step),
        draw.len() > 0,
        draw[0] is Failed,
    ensures
        after == before,
        step == random_step(
            page_of(before@, start as int, count as int),
            before@.len() as usize,
            art_base,
            answers,
            Seq::empty(),
        ),
{
}

/// The albums of a selection that are still there, in its order.
pub open spec fn still_there(
    ids: Seq<i64>,
    albums: Map<i64, (Seq<char>, Seq<char>, i64)>,
    art_base: Seq<char>,
) -> Seq<ContainerView>
    decreases ids.len(),
{
    if ids.len() == 0 {
        Seq::empty()
    } else {
        let rest = still_there(ids.skip(1), albums, art_base);
        if albums.contains_key(ids[0]) {
            let (title, artist, tracks) = albums[ids[0]];
            seq![
                ContainerView {
                    id: "alb:"@ + crate::text::decimal_int(ids[0] as int),
                    parent_id: "cat:random"@,
                    title,
                    upnp_class: "object.container.album.musicAlbum"@,
                    child_count: Some(tracks),
                    artist: Some(artist),
                    album_art_uri: Some(
                        art_base + "/"@ + crate::text::decimal_int(ids[0] as int),
                    ),
                },
            ] + rest
        } else {
            rest
        }
    }
}

/// Whether the answers say of each album in turn what it is, or that it is gone.
pub open spec fn tells_albums(
    ids: Seq<i64>,
    albums: Map<i64, (Seq<char>, Seq<char>, i64)>,
    answers: Seq<AnswerView>,
) -> bool {
    &&& answers.len() == ids.len()
    &&& forall|i: int|
        0 <= i < ids.len() ==> (#[trigger] answers[i] matches AnswerView::Rows(rows, _)
            && if albums.contains_key(ids[i]) {
            let (title, artist, tracks) = albums[ids[i]];
            rows == seq![seq![Cell::Text(title), Cell::Text(artist), Cell::Integer(tracks)]]
        } else {
            rows.len() == 0
        })
}

proof fn lemma_still_there(
    ids: Seq<i64>,
    total: usize,
    albums: Map<i64, (Seq<char>, Seq<char>, i64)>,
    art_base: Seq<char>,
    answers: Seq<AnswerView>,
    shown: Seq<ContainerView>,
)
    requires
        tells_albums(ids, albums, answers),
    ensures
        random_step(ids, total, art_base, answers, shown) == StepView::<ChildrenView>::Done(
            Ok(
                ChildrenView {
                    didl: only_containers(shown + still_there(ids, albums, art_base)),
                    total_matches: total,
                },
            ),
        ),
    decreases ids.len(),
{
    if ids.len() == 0 {
        assert(shown + still_there(ids, albums, art_base) =~= shown);
    } else {
        let rest = ids.skip(1);
        let left = answers.skip(1);
        assert(answers[0] is Rows);
        assert forall|i: int| 0 <= i < rest.len() implies (
        #[trigger] left[i] matches AnswerView::Rows(rows, _) && if albums.contains_key(rest[i]) {
            let (title, artist, tracks) = albums[rest[i]];
            rows == seq![seq![Cell::Text(title), Cell::Text(artist), Cell::Integer(tracks)]]
        } else {
            rows.len() == 0
        }) by {
            assert(left[i] == answers[i + 1]);
        }
        if albums.contains_key(ids[0]) {
            let (title, artist, tracks) = albums[ids[0]];
            let c = album_view(art_base, ids[0], title, artist, tracks, "cat:random"@);
            lemma_still_there(rest, total, albums, art_base, left, shown.push(c));
            assert(shown.push(c) + still_there(rest, albums, art_base) =~= shown + still_there(
                ids,
                albums,
                art_base,
            ));
        } else {
            lemma_still_there(rest, total, albums, art_base, left, shown);
        }
    }
}

/// A page of the random selection shows its albums in the order of the selection, without
/// those that are gone, and tells how many the selection holds. Each is asked for by its
/// id.
pub proof fn selection_is_shown_in_its_order(
    ctx: &BrowseContext,
    start: usize,
    count: usize,
    answers: &[Answer],
    albums: Map<i64, (Seq<char>, Seq<char>, i64)>,
    page: Seq<i64>,
    r: crate::db::query::Step<ChildrenResult>,
)
    requires
        call_ensures(random_albums_children, (ctx, start, count, answers), r),
        start <= ctx.random_state@.len(),
        page == ctx.random_state@.skip(start as int).take(
            if count <= ctx.random_state@.len() - start {
                count as int
            } else {
                ctx.random_state@.len() - start
            },
        ),
        ctx.random_state@.len() <= usize::MAX,
    ensures
        answers@.len() == 0 && page.len() > 0 ==> (r matches Step::Query(q) && q@ == (
        crate::db::query::StatementView {
            sql: "SELECT album, effective_album_artist, track_count FROM albums WHERE id = ?1"@,
            params: seq![Cell::Integer(page[0])],
        })),
        tells_albums(page, albums, answers_view(answers@)) ==> (r matches Step::Done(Ok(c))
            && c.total_matches == ctx.random_state@.len() && c@.didl.items.len() == 0
            && c@.didl.containers == still_there(page, albums, ctx.art_base_url@)),
{
    let all = answers_view(answers@);
    let total = ctx.random_state@.len() as usize;
    assert(page_of(ctx.random_state@, start as int, count as int) =~= page);
    if tells_albums(page, albums, all) {
        lemma_still_there(page, total, albums, ctx.art_base_url@, all, Seq::empty());
        assert(Seq::<ContainerView>::empty() + still_there(page, albums, ctx.art_base_url@)
            =~= still_there(page, albums, ctx.art_base_url@));
    }
}

} // verus!
