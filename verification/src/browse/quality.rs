//! The albums of one quality.

use vstd::prelude::*;

use crate::browse::listing::{list_children, listed, Shape, ShapeView};
use crate::browse::{
    counted_step, page_statement, page_stmt, BrowseContext, ChildrenResult, ChildrenView,
};
use crate::db::query::{
    answers_view, bound, cells, text_param, Answer, AnswerView, Cell, SqlValue, StatementView, Step,
    StepView,
};

verus! {

pub const QUALITY_COUNT_SQL: &'static str = "SELECT COUNT(*) FROM albums WHERE quality = ?1";

pub const QUALITY_SQL: &'static str = "SELECT id, album, effective_album_artist, track_count \
    FROM albums \
    WHERE quality = ?1 \
    ORDER BY effective_album_artist, album \
    LIMIT ?2 OFFSET ?3";

fn label_param(label: &str) -> (r: Vec<SqlValue>)
    ensures
        cells(r@) == seq![Cell::Text(label@)],
{
    let r = vec![text_param(label)];
    assert(cells(r@) =~= seq![Cell::Text(label@)]);
    r
}

pub open spec fn quality_step(
    label: Seq<char>,
    parent: Seq<char>,
    art_base: Seq<char>,
    start: usize,
    count: usize,
    answers: Seq<AnswerView>,
) -> StepView<ChildrenView> {
    counted_step(
        StatementView { sql: QUALITY_COUNT_SQL@, params: seq![Cell::Text(label)] },
        page_stmt(QUALITY_SQL@, seq![Cell::Text(label)], start, count),
        listed(ShapeView::Albums { parent }, art_base),
        answers,
    )
}

/// The albums of the given quality, in the order of their artists and titles.
pub fn quality_albums_children(
    ctx: &BrowseContext,
    quality_label: &str,
    parent_id: &str,
    start: usize,
    count: usize,
    answers: &[Answer],
) -> (r: Step<ChildrenResult>)
    ensures
        r@ == quality_step(
            quality_label@,
            parent_id@,
            ctx.art_base_url@,
            start,
            count,
            answers_view(answers@),
        ),
{
    list_children(
        ctx,
        bound(QUALITY_COUNT_SQL, label_param(quality_label)),
        page_statement(QUALITY_SQL, label_param(quality_label), start, count),
        &Shape::Albums { parent: parent_id },
        answers,
    )
}

} // verus!
