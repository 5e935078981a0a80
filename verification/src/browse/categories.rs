//! The top of the directory: its categories, and the values under each.

use vstd::prelude::*;

use crate::browse::albums::untagged_count_stmt;
use crate::browse::listing::{
    list_children, listed, titled_container, titled_view, Named, Shape, ShapeView, CONTAINER_CLASS,
    GENRE_CLASS,
};
use crate::browse::{
    counted_step, only_containers, page_statement, page_stmt, BrowseContext, ChildrenResult,
    ChildrenView, DidlOutput, DidlView,
};
use crate::db::query::{
    answers_view, cells, copy_error, plain, plain_stmt, rows_of, scalar, scalar_of, Answer,
    AnswerView, Cell, SqlValue, Statement, StatementView, Step, StepView,
};
use crate::error::Error;
use crate::text::{self, texts};
use crate::upnp::didl::{containers_view, Container, ContainerView};
use crate::upnp::object_id::{encode, encoded, ObjectId, ObjectIdView};

verus! {

// ── Columns of tracks ────────────────────────────────────────────────────

/// Whether a column of a track holds anything.
pub open spec fn populated(column: Seq<char>) -> Seq<char> {
    column + " IS NOT NULL AND "@ + column + " != ''"@
}

pub open spec fn distinct_count_sql(column: Seq<char>) -> Seq<char> {
    "SELECT COUNT(DISTINCT "@ + column + ") FROM tracks WHERE "@ + populated(column)
}

pub open spec fn distinct_list_sql(column: Seq<char>, collation: Seq<char>) -> Seq<char> {
    "SELECT DISTINCT "@ + column + " FROM tracks WHERE "@ + populated(column) + " ORDER BY "@
        + column + collation + " LIMIT ?1 OFFSET ?2"@
}

pub open spec fn has_any_sql(column: Seq<char>) -> Seq<char> {
    "SELECT EXISTS(SELECT 1 FROM tracks WHERE "@ + populated(column) + ")"@
}

fn populated_text(column: &str) -> (r: String)
    ensures
        r@ == populated(column@),
{
    let head = text::cat3(column, " IS NOT NULL AND ", column);
    text::cat(head.as_str(), " != ''")
}

fn distinct_count(column: &str) -> (r: Statement)
    ensures
        r@ == plain_stmt(distinct_count_sql(column@)),
{
    let head = text::cat3("SELECT COUNT(DISTINCT ", column, ") FROM tracks WHERE ");
    plain(text::cat(head.as_str(), populated_text(column).as_str()).as_str())
}

fn distinct_list(column: &str, collation: &str, start: usize, count: usize) -> (r: Statement)
    ensures
        r@ == page_stmt(distinct_list_sql(column@, collation@), Seq::empty(), start, count),
{
    let head = text::cat3("SELECT DISTINCT ", column, " FROM tracks WHERE ");
    let order = text::cat3(" ORDER BY ", column, collation);
    let body = text::cat3(head.as_str(), populated_text(column).as_str(), order.as_str());
    let sql = text::cat(body.as_str(), " LIMIT ?1 OFFSET ?2");
    assert(sql@ =~= distinct_list_sql(column@, collation@));
    let own: Vec<SqlValue> = Vec::new();
    assert(cells(own@) =~= Seq::empty());
    page_statement(sql.as_str(), own, start, count)
}

fn has_any(column: &str) -> (r: Statement)
    ensures
        r@ == plain_stmt(has_any_sql(column@)),
{
    plain(
        text::cat3(
            "SELECT EXISTS(SELECT 1 FROM tracks WHERE ",
            populated_text(column).as_str(),
            ")",
        ).as_str(),
    )
}

// ── The root ─────────────────────────────────────────────────────────────

/// When a category is shown.
pub enum Shown {
    Always,
    /// Where the quality categories are wanted.
    WithQuality,
    /// Where some track has something in the column.
    WithAny(Seq<char>),
}

/// A category's title and when it is shown.
pub open spec fn category(id: Seq<char>) -> Option<(Seq<char>, Shown)> {
    if id == "cat:aa"@ {
        Some(("Album Artist"@, Shown::Always))
    } else if id == "cat:ar"@ {
        Some(("Artist"@, Shown::Always))
    } else if id == "cat:al"@ {
        Some(("Album"@, Shown::Always))
    } else if id == "cat:gn"@ {
        Some(("Genre"@, Shown::Always))
    } else if id == "cat:recent"@ {
        Some(("Recently Added"@, Shown::Always))
    } else if id == "cat:played"@ {
        Some(("Recently Played"@, Shown::Always))
    } else if id == "cat:random"@ {
        Some(("Random Albums"@, Shown::Always))
    } else if id == "cat:hires"@ {
        Some(("Hi-Res Albums"@, Shown::WithQuality))
    } else if id == "cat:lossy"@ {
        Some(("Lossy Albums"@, Shown::WithQuality))
    } else if id == "cat:mixed"@ {
        Some(("Mixed Quality"@, Shown::WithQuality))
    } else if id == "cat:cm"@ {
        Some(("Composer"@, Shown::WithAny("composer"@)))
    } else if id == "cat:cn"@ {
        Some(("Conductor"@, Shown::WithAny("conductor"@)))
    } else if id == "cat:pf"@ {
        Some(("Performer"@, Shown::WithAny("performer"@)))
    } else if id == "cat:yr"@ {
        Some(("Year"@, Shown::WithAny("year"@)))
    } else if id == "cat:dec"@ {
        Some(("Decade"@, Shown::WithAny("year"@)))
    } else {
        None
    }
}

/// When a category is shown, with the column's name.
enum ShownBy {
    Always,
    WithQuality,
    WithAny(&'static str),
}

spec fn shown_view(s: ShownBy) -> Shown {
    match s {
        ShownBy::Always => Shown::Always,
        ShownBy::WithQuality => Shown::WithQuality,
        ShownBy::WithAny(c) => Shown::WithAny(c@),
    }
}

fn category_of(id: &str) -> (r: Option<(&'static str, ShownBy)>)
    ensures
        match r {
            Some(c) => category(id@) == Some((c.0@, shown_view(c.1))),
            None => category(id@) is None,
        },
{
    if text::same(id, "cat:aa") {
        Some(("Album Artist", ShownBy::Always))
    } else if text::same(id, "cat:ar") {
        Some(("Artist", ShownBy::Always))
    } else if text::same(id, "cat:al") {
        Some(("Album", ShownBy::Always))
    } else if text::same(id, "cat:gn") {
        Some(("Genre", ShownBy::Always))
    } else if text::same(id, "cat:recent") {
        Some(("Recently Added", ShownBy::Always))
    } else if text::same(id, "cat:played") {
        Some(("Recently Played", ShownBy::Always))
    } else if text::same(id, "cat:random") {
        Some(("Random Albums", ShownBy::Always))
    } else if text::same(id, "cat:hires") {
        Some(("Hi-Res Albums", ShownBy::WithQuality))
    } else if text::same(id, "cat:lossy") {
        Some(("Lossy Albums", ShownBy::WithQuality))
    } else if text::same(id, "cat:mixed") {
        Some(("Mixed Quality", ShownBy::WithQuality))
    } else if text::same(id, "cat:cm") {
        Some(("Composer", ShownBy::WithAny("composer")))
    } else if text::same(id, "cat:cn") {
        Some(("Conductor", ShownBy::WithAny("conductor")))
    } else if text::same(id, "cat:pf") {
        Some(("Performer", ShownBy::WithAny("performer")))
    } else if text::same(id, "cat:yr") {
        Some(("Year", ShownBy::WithAny("year")))
    } else if text::same(id, "cat:dec") {
        Some(("Decade", ShownBy::WithAny("year")))
    } else {
        None
    }
}

/// A category as it stands under the root.
pub open spec fn category_view(id: Seq<char>, title: Seq<char>) -> ContainerView {
    titled_view(id, "0"@, title, CONTAINER_CLASS@)
}

pub fn plain_cat(id: &str, title: &str) -> (r: Container)
    ensures
        r@ == category_view(id@, title@),
{
    titled_container(text::owned(id), "0", text::owned(title), CONTAINER_CLASS)
}

/// Whether an answer says that there is something. A failure counts as nothing.
pub open spec fn says_any(a: AnswerView) -> bool {
    match scalar_of(a) {
        Ok(n) => n != 0,
        Err(_) => false,
    }
}

/// Go through the categories in order, with those shown so far. Unknown ones are
/// passed over; those that depend on what tracks hold are asked for one by one.
pub open spec fn root_step(
    ids: Seq<Seq<char>>,
    quality: bool,
    answers: Seq<AnswerView>,
    shown: Seq<ContainerView>,
) -> StepView<ChildrenView>
    decreases ids.len(),
{
    if ids.len() == 0 {
        StepView::Done(
            Ok(
                ChildrenView {
                    didl: only_containers(shown),
                    total_matches: shown.len() as usize,
                },
            ),
        )
    } else {
        let rest = ids.skip(1);
        match category(ids[0]) {
            None => root_step(rest, quality, answers, shown),
            Some((title, when)) => {
                let with = shown.push(category_view(ids[0], title));
                match when {
                    Shown::Always => root_step(rest, quality, answers, with),
                    Shown::WithQuality => root_step(
                        rest,
                        quality,
                        answers,
                        if quality {
                            with
                        } else {
                            shown
                        },
                    ),
                    Shown::WithAny(column) => if answers.len() == 0 {
                        StepView::Query(plain_stmt(has_any_sql(column)))
                    } else {
                        root_step(
                            rest,
                            quality,
                            answers.skip(1),
                            if says_any(answers[0]) {
                                with
                            } else {
                                shown
                            },
                        )
                    },
                }
            },
        }
    }
}

/// The children of the root: the categories that the settings name, in their order.
/// The quality categories are shown where they are wanted, and those of composers,
/// conductors, performers, years and decades where some track has one.
pub fn root_children(ctx: &BrowseContext, answers: &[Answer]) -> (r: Step<ChildrenResult>)
    ensures
        r@ == root_step(
            texts(ctx.settings.top_level@),
            ctx.settings.quality_categories,
            answers_view(answers@),
            Seq::empty(),
        ),
{
    let top = &ctx.settings.top_level;
    let quality = ctx.settings.quality_categories;
    let ghost ids = texts(top@);
    let ghost all = answers_view(answers@);
    let mut shown: Vec<Container> = Vec::new();
    let mut i: usize = 0;
    let mut k: usize = 0;
    assert(ids.skip(0) =~= ids);
    assert(all.skip(0) =~= all);
    assert(containers_view(shown@) =~= Seq::empty());
    while i < top.len()
        invariant
            i <= top@.len(),
            k <= answers@.len(),
            *top == ctx.settings.top_level,
            quality == ctx.settings.quality_categories,
            ids == texts(top@),
            all == answers_view(answers@),
            root_step(
                ids.skip(i as int),
                quality,
                all.skip(k as int),
                containers_view(shown@),
            ) == root_step(ids, quality, all, Seq::empty()),
        decreases top@.len() - i,
    {
        let id = top[i].as_str();
        let ghost rest = ids.skip(i as int);
        assert(rest[0] == id@);
        assert(rest.skip(1) =~= ids.skip(i + 1));
        let ghost before = shown@;
        match category_of(id) {
            None => {},
            Some((title, when)) => {
                let mut show = true;
                match when {
                    ShownBy::Always => {},
                    ShownBy::WithQuality => {
                        show = quality;
                    },
                    ShownBy::WithAny(column) => {
                        if k == answers.len() {
                            assert(all.skip(k as int).len() == 0);
                            return Step::Query(has_any(column));
                        }
                        assert(all.skip(k as int)[0] == answers@[k as int]@);
                        assert(all.skip(k as int).skip(1) =~= all.skip(k + 1));
                        show = match scalar(&answers[k]) {
                            Ok(n) => n != 0,
                            Err(_) => false,
                        };
                        k = k + 1;
                    },
                }
                if show {
                    let c = plain_cat(id, title);
                    shown.push(c);
                    assert(containers_view(shown@) =~= containers_view(before).push(c@));
                }
            },
        }
        i = i + 1;
    }
    assert(ids.skip(i as int).len() == 0);
    let total_matches: usize = shown.len();
    assert(containers_view(shown@).len() == shown@.len());
    Step::Done(Ok(ChildrenResult { didl: DidlOutput::of_containers(shown), total_matches }))
}

/// Every category that is shown is one that the settings name; where the quality
/// categories are not wanted, none of them is shown.
pub proof fn only_named_categories_are_shown(
    ids: Seq<Seq<char>>,
    quality: bool,
    answers: Seq<AnswerView>,
    shown: Seq<ContainerView>,
    r: ChildrenView,
    i: int,
)
    requires
        root_step(ids, quality, answers, shown) == StepView::<ChildrenView>::Done(Ok(r)),
        shown.len() <= i < r.didl.containers.len(),
    ensures
        ids.contains(r.didl.containers[i].id),
        category(r.didl.containers[i].id) is Some,
        !quality ==> !(category(r.didl.containers[i].id).unwrap().1 is WithQuality),
    decreases ids.len(),
{
    let rest = ids.skip(1);
    if ids.len() > 0 {
        assert forall|x: Seq<char>| rest.contains(x) implies ids.contains(x) by {
            let k = rest.lemma_contains_to_index(x);
            assert(ids[k + 1] == x);
        }
        match category(ids[0]) {
            None => {
                only_named_categories_are_shown(rest, quality, answers, shown, r, i);
            },
            Some((title, when)) => {
                let with = shown.push(category_view(ids[0], title));
                let next = match when {
                    Shown::Always => with,
                    Shown::WithQuality => if quality {
                        with
                    } else {
                        shown
                    },
                    Shown::WithAny(_) => if says_any(answers[0]) {
                        with
                    } else {
                        shown
                    },
                };
                let left = if when is WithAny {
                    answers.skip(1)
                } else {
                    answers
                };
                lemma_shown_stay(rest, quality, left, next, r);
                if i < next.len() {
                    assert(r.didl.containers[i] == next[i]);
                    assert(ids[0] == r.didl.containers[i].id);
                } else {
                    only_named_categories_are_shown(rest, quality, left, next, r, i);
                }
            },
        }
    }
}

proof fn lemma_shown_stay(
    ids: Seq<Seq<char>>,
    quality: bool,
    answers: Seq<AnswerView>,
    shown: Seq<ContainerView>,
    r: ChildrenView,
)
    requires
        root_step(ids, quality, answers, shown) == StepView::<ChildrenView>::Done(Ok(r)),
    ensures
        shown.len() <= r.didl.containers.len(),
        forall|k: int| 0 <= k < shown.len() ==> #[trigger] r.didl.containers[k] == shown[k],
    decreases ids.len(),
{
    if ids.len() > 0 {
        let rest = ids.skip(1);
        match category(ids[0]) {
            None => {
                lemma_shown_stay(rest, quality, answers, shown, r);
            },
            Some((title, when)) => {
                let with = shown.push(category_view(ids[0], title));
                let left = if when is WithAny {
                    answers.skip(1)
                } else {
                    answers
                };
                let next = match when {
                    Shown::Always => with,
                    Shown::WithQuality => if quality {
                        with
                    } else {
                        shown
                    },
                    Shown::WithAny(_) => if says_any(answers[0]) {
                        with
                    } else {
                        shown
                    },
                };
                lemma_shown_stay(rest, quality, left, next, r);
                assert forall|k: int| 0 <= k < shown.len() implies #[trigger] r.didl.containers[k]
                    == shown[k] by {
                    assert(next[k] == shown[k]);
                }
            },
        }
    }
}

/// The root itself, with the number of its children.
pub open spec fn root_view(children: usize) -> ContainerView {
    ContainerView {
        id: "0"@,
        parent_id: "-1"@,
        title: "Music Library"@,
        upnp_class: CONTAINER_CLASS@,
        child_count: Some(children as i64),
        artist: None,
        album_art_uri: None,
    }
}

/// Ask what [`root_step`] asks; the root has as many children as are then shown.
pub open spec fn root_metadata_step(
    ids: Seq<Seq<char>>,
    quality: bool,
    answers: Seq<AnswerView>,
) -> StepView<DidlView> {
    match root_step(ids, quality, answers, Seq::empty()) {
        StepView::Query(q) => StepView::Query(q),
        StepView::Execute(q) => StepView::Execute(q),
        StepView::Batch(q) => StepView::Batch(q),
        StepView::Done(Err(e)) => StepView::Done(Err(e)),
        StepView::Done(Ok(r)) => StepView::Done(
            Ok(only_containers(seq![root_view(r.total_matches)])),
        ),
    }
}

/// The root, with the number of categories that it shows.
pub fn root_container(ctx: &BrowseContext, answers: &[Answer]) -> (r: Step<DidlOutput>)
    ensures
        r@ == root_metadata_step(
            texts(ctx.settings.top_level@),
            ctx.settings.quality_categories,
            answers_view(answers@),
        ),
{
    match root_children(ctx, answers) {
        Step::Query(q) => Step::Query(q),
        Step::Execute(q) => Step::Execute(q),
        Step::Batch(q) => Step::Batch(q),
        Step::Done(Err(e)) => Step::Done(Err(e)),
        Step::Done(Ok(r)) => {
            let root = Container {
                id: text::owned("0"),
                parent_id: text::owned("-1"),
                title: text::owned("Music Library"),
                upnp_class: CONTAINER_CLASS,
                child_count: Some(r.total_matches as i64),
                artist: None,
                album_art_uri: None,
            };
            Step::Done(Ok(DidlOutput::single(root)))
        },
    }
}

/// The root tells the number of children that it is then found to have.
pub proof fn root_count_matches_children(
    ids: Seq<Seq<char>>,
    quality: bool,
    answers: Seq<AnswerView>,
    root: DidlView,
    children: ChildrenView,
)
    requires
        ids.len() <= usize::MAX,
        root_metadata_step(ids, quality, answers) == StepView::<DidlView>::Done(Ok(root)),
        root_step(ids, quality, answers, Seq::empty()) == StepView::<ChildrenView>::Done(
            Ok(children),
        ),
    ensures
        root.containers.len() == 1,
        root.containers[0].child_count == Some(children.didl.containers.len() as i64),
        children.total_matches == children.didl.containers.len(),
        children.didl.containers.len() <= ids.len(),
{
    lemma_shown_at_most(ids, quality, answers, Seq::empty(), children);
}

proof fn lemma_shown_at_most(
    ids: Seq<Seq<char>>,
    quality: bool,
    answers: Seq<AnswerView>,
    shown: Seq<ContainerView>,
    r: ChildrenView,
)
    requires
        root_step(ids, quality, answers, shown) == StepView::<ChildrenView>::Done(Ok(r)),
    ensures
        r.didl.containers.len() <= shown.len() + ids.len(),
        r.total_matches == r.didl.containers.len() as usize,
    decreases ids.len(),
{
    if ids.len() > 0 {
        let rest = ids.skip(1);
        match category(ids[0]) {
            None => {
                lemma_shown_at_most(rest, quality, answers, shown, r);
            },
            Some((title, when)) => {
                let with = shown.push(category_view(ids[0], title));
                let next = match when {
                    Shown::Always => with,
                    Shown::WithQuality => if quality {
                        with
                    } else {
                        shown
                    },
                    Shown::WithAny(_) => if says_any(answers[0]) {
                        with
                    } else {
                        shown
                    },
                };
                let left = if when is WithAny {
                    answers.skip(1)
                } else {
                    answers
                };
                lemma_shown_at_most(rest, quality, left, next, r);
            },
        }
    }
}

// ── Values under a category ──────────────────────────────────────────────

pub const ALBUM_ARTISTS_COUNT_SQL: &'static str =
    "SELECT COUNT(DISTINCT effective_album_artist) FROM albums";

pub const ALBUM_ARTISTS_SQL: &'static str = "SELECT DISTINCT effective_album_artist FROM albums \
    ORDER BY effective_album_artist LIMIT ?1 OFFSET ?2";

pub const ALBUMS_SQL: &'static str = "SELECT id, album, effective_album_artist, track_count \
    FROM albums ORDER BY album LIMIT ?1 OFFSET ?2";

fn no_params() -> (r: Vec<SqlValue>)
    ensures
        cells(r@) == Seq::<Cell>::empty(),
{
    let own: Vec<SqlValue> = Vec::new();
    assert(cells(own@) =~= Seq::empty());
    own
}

/// The album artists, in the order of their names.
pub fn album_artists_children(
    ctx: &BrowseContext,
    start: usize,
    count: usize,
    answers: &[Answer],
) -> (r: Step<ChildrenResult>)
    ensures
        r@ == counted_step(
            plain_stmt(ALBUM_ARTISTS_COUNT_SQL@),
            page_stmt(ALBUM_ARTISTS_SQL@, Seq::empty(), start, count),
            listed(ShapeView::Names(Named::AlbumArtist), ctx.art_base_url@),
            answers_view(answers@),
        ),
{
    list_children(
        ctx,
        plain(ALBUM_ARTISTS_COUNT_SQL),
        page_statement(ALBUM_ARTISTS_SQL, no_params(), start, count),
        &Shape::Names(Named::AlbumArtist),
        answers,
    )
}

/// What is listed of a column of tracks: each value once, in order.
pub open spec fn column_step(
    column: Seq<char>,
    collation: Seq<char>,
    named: Named,
    art_base: Seq<char>,
    start: usize,
    count: usize,
    answers: Seq<AnswerView>,
) -> StepView<ChildrenView> {
    counted_step(
        plain_stmt(distinct_count_sql(column)),
        page_stmt(distinct_list_sql(column, collation), Seq::empty(), start, count),
        listed(ShapeView::Names(named), art_base),
        answers,
    )
}

fn column_children(
    ctx: &BrowseContext,
    column: &str,
    collation: &str,
    named: Named,
    start: usize,
    count: usize,
    answers: &[Answer],
) -> (r: Step<ChildrenResult>)
    ensures
        r@ == column_step(
            column@,
            collation@,
            named,
            ctx.art_base_url@,
            start,
            count,
            answers_view(answers@),
        ),
{
    list_children(
        ctx,
        distinct_count(column),
        distinct_list(column, collation, start, count),
        &Shape::Names(named),
        answers,
    )
}

/// The artists of tracks.
pub fn artists_children(ctx: &BrowseContext, start: usize, count: usize, answers: &[Answer]) -> (r:
    Step<ChildrenResult>)
    ensures
        r@ == column_step(
            "artist"@,
            ""@,
            Named::Artist,
            ctx.art_base_url@,
            start,
            count,
            answers_view(answers@),
        ),
{
    column_children(ctx, "artist", "", Named::Artist, start, count, answers)
}

/// Every album, in the order of their titles.
pub fn albums_children(ctx: &BrowseContext, start: usize, count: usize, answers: &[Answer]) -> (r:
    Step<ChildrenResult>)
    ensures
        r@ == counted_step(
            plain_stmt(crate::scan::COUNT_ALBUMS_SQL@),
            page_stmt(ALBUMS_SQL@, Seq::empty(), start, count),
            listed(ShapeView::Albums { parent: "cat:al"@ }, ctx.art_base_url@),
            answers_view(answers@),
        ),
{
    list_children(
        ctx,
        plain(crate::scan::COUNT_ALBUMS_SQL),
        page_statement(ALBUMS_SQL, no_params(), start, count),
        &Shape::Albums { parent: "cat:al" },
        answers,
    )
}

/// The composers, in the order of their names without regard to case.
pub fn composers_children(ctx: &BrowseContext, start: usize, count: usize, answers: &[Answer]) -> (r:
    Step<ChildrenResult>)
    ensures
        r@ == column_step(
            "composer"@,
            " COLLATE NOCASE"@,
            Named::Composer,
            ctx.art_base_url@,
            start,
            count,
            answers_view(answers@),
        ),
{
    column_children(ctx, "composer", " COLLATE NOCASE", Named::Composer, start, count, answers)
}

/// The conductors, in the order of their names without regard to case.
pub fn conductors_children(
    ctx: &BrowseContext,
    start: usize,
    count: usize,
    answers: &[Answer],
) -> (r: Step<ChildrenResult>)
    ensures
        r@ == column_step(
            "conductor"@,
            " COLLATE NOCASE"@,
            Named::Conductor,
            ctx.art_base_url@,
            start,
            count,
            answers_view(answers@),
        ),
{
    column_children(ctx, "conductor", " COLLATE NOCASE", Named::Conductor, start, count, answers)
}

/// The performers, in the order of their names without regard to case.
pub fn performers_children(
    ctx: &BrowseContext,
    start: usize,
    count: usize,
    answers: &[Answer],
) -> (r: Step<ChildrenResult>)
    ensures
        r@ == column_step(
            "performer"@,
            " COLLATE NOCASE"@,
            Named::Performer,
            ctx.art_base_url@,
            start,
            count,
            answers_view(answers@),
        ),
{
    column_children(ctx, "performer", " COLLATE NOCASE", Named::Performer, start, count, answers)
}

// ── Values with a tail for what has none ─────────────────────────────────

/// One more, as far as there is one more.
pub open spec fn one_more(n: usize) -> usize {
    if n < usize::MAX {
        (n + 1) as usize
    } else {
        n
    }
}

/// A page of the values and, behind the last of them, the one that stands for albums
/// without a value. It is there where some album has none, and on the page that
/// reaches past the last value.
pub open spec fn with_tail(
    values: Seq<ContainerView>,
    total: i64,
    untagged: i64,
    tail: ContainerView,
    start: usize,
    count: usize,
) -> ChildrenView {
    let n = total as usize;
    if untagged > 0 {
        ChildrenView {
            didl: only_containers(
                if start <= n && n - start < count {
                    values.push(tail)
                } else {
                    values
                },
            ),
            total_matches: one_more(n),
        }
    } else {
        ChildrenView { didl: only_containers(values), total_matches: n }
    }
}

/// Ask how many values there are, how many albums have none, and for a page of the
/// values.
pub open spec fn tailed_step(
    count_stmt: StatementView,
    untagged_stmt: StatementView,
    list_stmt: StatementView,
    shape: ShapeView,
    art_base: Seq<char>,
    tail: ContainerView,
    start: usize,
    count: usize,
    answers: Seq<AnswerView>,
) -> StepView<ChildrenView> {
    if answers.len() == 0 {
        StepView::Query(count_stmt)
    } else {
        match scalar_of(answers[0]) {
            Err(e) => StepView::Done(Err(e)),
            Ok(total) => if answers.len() == 1 {
                StepView::Query(untagged_stmt)
            } else {
                match scalar_of(answers[1]) {
                    Err(e) => StepView::Done(Err(e)),
                    Ok(untagged) => if answers.len() == 2 {
                        StepView::Query(list_stmt)
                    } else {
                        match rows_of(answers[2]) {
                            Err(e) => StepView::Done(Err(e)),
                            Ok(rows) => StepView::Done(
                                Ok(
                                    with_tail(
                                        shape.containers(art_base, rows),
                                        total,
                                        untagged,
                                        tail,
                                        start,
                                        count,
                                    ),
                                ),
                            ),
                        }
                    },
                }
            },
        }
    }
}

fn tailed_children(
    ctx: &BrowseContext,
    count_statement: Statement,
    untagged_statement: Statement,
    list_statement: Statement,
    shape: &Shape,
    tail: Container,
    start: usize,
    count: usize,
    answers: &[Answer],
) -> (r: Step<ChildrenResult>)
    ensures
        r@ == tailed_step(
            count_statement@,
            untagged_statement@,
            list_statement@,
            shape@,
            ctx.art_base_url@,
            tail@,
            start,
            count,
            answers_view(answers@),
        ),
{
    if answers.len() == 0 {
        return Step::Query(count_statement);
    }
    let total: i64 = match scalar(&answers[0]) {
        Err(e) => return Step::Done(Err(e)),
        Ok(n) => n,
    };
    if answers.len() == 1 {
        return Step::Query(untagged_statement);
    }
    let untagged: i64 = match scalar(&answers[1]) {
        Err(e) => return Step::Done(Err(e)),
        Ok(n) => n,
    };
    if answers.len() == 2 {
        return Step::Query(list_statement);
    }
    let rows = match &answers[2] {
        Answer::Failed(e) => return Step::Done(Err(Error::Sqlite(copy_error(e)))),
        Answer::Rows(rows, _) => rows,
    };
    let mut containers = shape.make_all(ctx, rows);
    let ghost values = containers@;
    let n: usize = total as usize;
    let mut total_matches: usize = n;
    if untagged > 0 {
        if start <= n && n - start < count {
            containers.push(tail);
            assert(containers_view(containers@) =~= containers_view(values).push(tail@));
        }
        if n < usize::MAX {
            total_matches = n + 1;
        }
    }
    Step::Done(Ok(ChildrenResult { didl: DidlOutput::of_containers(containers), total_matches }))
}

/// The tail of the genres.
pub open spec fn unknown_genre_view() -> ContainerView {
    titled_view(
        encoded(ObjectIdView::UnknownGenre),
        "cat:gn"@,
        "Unknown Genre"@,
        GENRE_CLASS@,
    )
}

pub fn unknown_genre_container() -> (r: Container)
    ensures
        r@ == unknown_genre_view(),
{
    titled_container(
        encode(&ObjectId::UnknownGenre),
        "cat:gn",
        text::owned("Unknown Genre"),
        GENRE_CLASS,
    )
}

/// The tail of the years.
pub open spec fn unknown_year_view() -> ContainerView {
    titled_view(
        encoded(ObjectIdView::UnknownYear),
        "cat:yr"@,
        "Unknown Year"@,
        CONTAINER_CLASS@,
    )
}

pub fn unknown_year_container() -> (r: Container)
    ensures
        r@ == unknown_year_view(),
{
    titled_container(
        encode(&ObjectId::UnknownYear),
        "cat:yr",
        text::owned("Unknown Year"),
        CONTAINER_CLASS,
    )
}

/// The tail of the decades.
pub open spec fn unknown_decade_view() -> ContainerView {
    titled_view(
        encoded(ObjectIdView::UnknownDecade),
        "cat:dec"@,
        "Unknown Decade"@,
        CONTAINER_CLASS@,
    )
}

pub fn unknown_decade_container() -> (r: Container)
    ensures
        r@ == unknown_decade_view(),
{
    titled_container(
        encode(&ObjectId::UnknownDecade),
        "cat:dec",
        text::owned("Unknown Decade"),
        CONTAINER_CLASS,
    )
}

/// The genres, and the albums without one.
pub fn genres_children(ctx: &BrowseContext, start: usize, count: usize, answers: &[Answer]) -> (r:
    Step<ChildrenResult>)
    ensures
        r@ == tailed_step(
            plain_stmt(distinct_count_sql("genre"@)),
            untagged_count_stmt(crate::browse::albums::GENRE_TAGGED@),
            page_stmt(distinct_list_sql("genre"@, ""@), Seq::empty(), start, count),
            ShapeView::Names(Named::Genre),
            ctx.art_base_url@,
            unknown_genre_view(),
            start,
            count,
            answers_view(answers@),
        ),
{
    tailed_children(
        ctx,
        distinct_count("genre"),
        crate::browse::albums::untagged_count(crate::browse::albums::GENRE_TAGGED),
        distinct_list("genre", "", start, count),
        &Shape::Names(Named::Genre),
        unknown_genre_container(),
        start,
        count,
        answers,
    )
}

pub const YEARS_COUNT_SQL: &'static str =
    "SELECT COUNT(DISTINCT year) FROM tracks WHERE year IS NOT NULL";

pub const YEARS_SQL: &'static str = "SELECT DISTINCT year FROM tracks WHERE year IS NOT NULL \
    ORDER BY year DESC LIMIT ?1 OFFSET ?2";

pub const DECADES_COUNT_SQL: &'static str =
    "SELECT COUNT(DISTINCT (year / 10) * 10) FROM tracks WHERE year IS NOT NULL";

pub const DECADES_SQL: &'static str =
    "SELECT DISTINCT (year / 10) * 10 AS decade FROM tracks WHERE year IS NOT NULL \
    ORDER BY decade DESC LIMIT ?1 OFFSET ?2";

/// The years, newest first, and the albums without one.
pub fn years_children(ctx: &BrowseContext, start: usize, count: usize, answers: &[Answer]) -> (r:
    Step<ChildrenResult>)
    ensures
        r@ == tailed_step(
            plain_stmt(YEARS_COUNT_SQL@),
            untagged_count_stmt(crate::browse::albums::YEAR_TAGGED@),
            page_stmt(YEARS_SQL@, Seq::empty(), start, count),
            ShapeView::Years,
            ctx.art_base_url@,
            unknown_year_view(),
            start,
            count,
            answers_view(answers@),
        ),
{
    tailed_children(
        ctx,
        plain(YEARS_COUNT_SQL),
        crate::browse::albums::untagged_count(crate::browse::albums::YEAR_TAGGED),
        page_statement(YEARS_SQL, no_params(), start, count),
        &Shape::Years,
        unknown_year_container(),
        start,
        count,
        answers,
    )
}

/// The decades, newest first, and the albums without one.
pub fn decades_children(ctx: &BrowseContext, start: usize, count: usize, answers: &[Answer]) -> (r:
    Step<ChildrenResult>)
    ensures
        r@ == tailed_step(
            plain_stmt(DECADES_COUNT_SQL@),
            untagged_count_stmt(crate::browse::albums::YEAR_TAGGED@),
            page_stmt(DECADES_SQL@, Seq::empty(), start, count),
            ShapeView::Decades,
            ctx.art_base_url@,
            unknown_decade_view(),
            start,
            count,
            answers_view(answers@),
        ),
{
    tailed_children(
        ctx,
        plain(DECADES_COUNT_SQL),
        crate::browse::albums::untagged_count(crate::browse::albums::YEAR_TAGGED),
        page_statement(DECADES_SQL, no_params(), start, count),
        &Shape::Decades,
        unknown_decade_container(),
        start,
        count,
        answers,
    )
}

} // verus!
