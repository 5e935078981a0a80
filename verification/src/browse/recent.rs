//! The albums that were added last.
//!
//! The list is limited in length and, where so wished, in age. Both limits hold for
//! the number of albums that is told, not only for a page: whoever pages through the
//! list goes as far as that number.

use vstd::prelude::*;

use crate::browse::listing::{Shape, ShapeView};
use crate::browse::{
    only_containers, page_statement, page_stmt, BrowseContext, ChildrenResult, ChildrenView,
    DidlOutput,
};
use crate::db::query::{
    answers_view, bound, cells, copy_error, plain, plain_stmt, rows_of, scalar, scalar_of, Answer,
    AnswerView, Cell, SqlValue, Statement, StatementView, Step, StepView,
};
use crate::error::Error;
use crate::state::BrowseSettings;

verus! {

pub const DAY_SECS: i64 = 86400;

pub const COUNT_SINCE_SQL: &'static str =
    "SELECT COUNT(*) FROM albums WHERE last_added_at IS NOT NULL AND last_added_at >= ?1";

pub const COUNT_SQL: &'static str = "SELECT COUNT(*) FROM albums WHERE last_added_at IS NOT NULL";

pub const LIST_SINCE_SQL: &'static str = "SELECT id, album, effective_album_artist, track_count \
    FROM albums \
    WHERE last_added_at IS NOT NULL AND last_added_at >= ?1 \
    ORDER BY last_added_at DESC, id DESC \
    LIMIT ?2 OFFSET ?3";

pub const LIST_SQL: &'static str = "SELECT id, album, effective_album_artist, track_count \
    FROM albums \
    WHERE last_added_at IS NOT NULL \
    ORDER BY last_added_at DESC, id DESC \
    LIMIT ?1 OFFSET ?2";

/// The time since which an album has to have been added, where there is a limit of
/// age.
pub open spec fn since(now: i64, max_age_days: Option<u32>) -> Option<i64> {
    match max_age_days {
        Some(days) => Some(
            if now - days * DAY_SECS < i64::MIN {
                i64::MIN
            } else {
                (now - days * DAY_SECS) as i64
            },
        ),
        None => None,
    }
}

fn since_when(now: i64, max_age_days: Option<u32>) -> (r: Option<i64>)
    ensures
        r == since(now, max_age_days),
{
    match max_age_days {
        Some(days) => {
            let at: i128 = now as i128 - days as i128 * 86400;
            Some(if at < -9223372036854775808 { i64::MIN } else { at as i64 })
        },
        None => None,
    }
}

pub open spec fn count_stmt(since: Option<i64>) -> StatementView {
    match since {
        Some(at) => StatementView { sql: COUNT_SINCE_SQL@, params: seq![Cell::Integer(at)] },
        None => plain_stmt(COUNT_SQL@),
    }
}

pub open spec fn list_stmt(since: Option<i64>, start: usize, count: usize) -> StatementView {
    match since {
        Some(at) => page_stmt(LIST_SINCE_SQL@, seq![Cell::Integer(at)], start, count),
        None => page_stmt(LIST_SQL@, Seq::empty(), start, count),
    }
}

fn at_param(at: i64) -> (r: Vec<SqlValue>)
    ensures
        cells(r@) == seq![Cell::Integer(at)],
{
    let r = vec![SqlValue::Integer(at)];
    assert(cells(r@) =~= seq![Cell::Integer(at)]);
    r
}

fn count_statement(since: Option<i64>) -> (r: Statement)
    ensures
        r@ == count_stmt(since),
{
    match since {
        Some(at) => bound(COUNT_SINCE_SQL, at_param(at)),
        None => plain(COUNT_SQL),
    }
}

fn list_statement(since: Option<i64>, start: usize, count: usize) -> (r: Statement)
    ensures
        r@ == list_stmt(since, start, count),
{
    match since {
        Some(at) => page_statement(LIST_SINCE_SQL, at_param(at), start, count),
        None => {
            let own: Vec<SqlValue> = Vec::new();
            assert(cells(own@) =~= Seq::empty());
            page_statement(LIST_SQL, own, start, count)
        },
    }
}

pub open spec fn least(a: usize, b: usize) -> usize {
    if a <= b {
        a
    } else {
        b
    }
}

/// How many albums of a list of `total` are on a page.
pub open spec fn on_page(total: usize, start: usize, count: usize) -> usize {
    if start < total {
        least(count, (total - start) as usize)
    } else {
        0
    }
}

pub open spec fn recent_step(
    settings: BrowseSettings,
    now: i64,
    art_base: Seq<char>,
    start: usize,
    count: usize,
    answers: Seq<AnswerView>,
) -> StepView<ChildrenView> {
    let from = since(now, settings.recently_added_max_age_days);
    if answers.len() == 0 {
        StepView::Query(count_stmt(from))
    } else {
        match scalar_of(answers[0]) {
            Err(e) => StepView::Done(Err(e)),
            Ok(actual) => {
                let total = least(actual as usize, settings.recently_added_limit);
                let shown = on_page(total, start, count);
                if shown == 0 {
                    StepView::Done(
                        Ok(
                            ChildrenView {
                                didl: only_containers(Seq::empty()),
                                total_matches: total,
                            },
                        ),
                    )
                } else if answers.len() == 1 {
                    StepView::Query(list_stmt(from, start, shown))
                } else {
                    match rows_of(answers[1]) {
                        Err(e) => StepView::Done(Err(e)),
                        Ok(rows) => StepView::Done(
                            Ok(
                                ChildrenView {
                                    didl: only_containers(
                                        (ShapeView::Albums { parent: "cat:recent"@ }).containers(
                                            art_base,
                                            rows,
                                        ),
                                    ),
                                    total_matches: total,
                                },
                            ),
                        ),
                    }
                }
            },
        }
    }
}

/// The albums that were added last, newest first.
pub fn recent_root_children(
    ctx: &BrowseContext,
    start: usize,
    count: usize,
    answers: &[Answer],
) -> (r: Step<ChildrenResult>)
    ensures
        r@ == recent_step(
            *ctx.settings,
            ctx.now_secs,
            ctx.art_base_url@,
            start,
            count,
            answers_view(answers@),
        ),
{
    let from = since_when(ctx.now_secs, ctx.settings.recently_added_max_age_days);
    if answers.len() == 0 {
        return Step::Query(count_statement(from));
    }
    let actual: usize = match scalar(&answers[0]) {
        Err(e) => return Step::Done(Err(e)),
        Ok(n) => n as usize,
    };
    let limit: usize = ctx.settings.recently_added_limit;
    let total: usize = if actual <= limit { actual } else { limit };
    let remaining: usize = if start < total { total - start } else { 0 };
    let shown: usize = if count <= remaining { count } else { remaining };
    if shown == 0 {
        let none = DidlOutput::empty();
        return Step::Done(Ok(ChildrenResult { didl: none, total_matches: total }));
    }
    if answers.len() == 1 {
        return Step::Query(list_statement(from, start, shown));
    }
    match &answers[1] {
        Answer::Failed(e) => Step::Done(Err(Error::Sqlite(copy_error(e)))),
        Answer::Rows(rows, _) => {
            let shape = Shape::Albums { parent: "cat:recent" };
            Step::Done(
                Ok(
                    ChildrenResult {
                        didl: DidlOutput::of_containers(shape.make_all(ctx, rows)),
                        total_matches: total,
                    },
                ),
            )
        },
    }
}

/// However many albums there are, no more than the limit are told of, and no page
/// asks for albums beyond it.
pub proof fn recent_list_keeps_its_limit(
    settings: BrowseSettings,
    now: i64,
    art_base: Seq<char>,
    start: usize,
    count: usize,
    answers: Seq<AnswerView>,
)
    ensures
        recent_step(settings, now, art_base, start, count, answers) matches StepView::Done(Ok(r))
            ==> r.total_matches <= settings.recently_added_limit,
        forall|total: usize|
            #[trigger] on_page(total, start, count) > 0 ==> start + on_page(total, start, count)
                <= total,
{
}

} // verus!
