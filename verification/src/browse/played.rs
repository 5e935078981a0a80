//! The albums that were played last.

use vstd::prelude::*;

use crate::browse::listing::{list_children, listed, Shape, ShapeView};
use crate::browse::{
    counted_step, page_statement, page_stmt, BrowseContext, ChildrenResult,
};
use crate::db::query::{
    answers_view, cells, plain, plain_stmt, Answer, SqlValue, Step,
};

verus! {

pub const PLAYED_COUNT_SQL: &'static str =
    "SELECT COUNT(*) FROM albums WHERE last_played_at IS NOT NULL";

pub const PLAYED_SQL: &'static str = "SELECT id, album, effective_album_artist, track_count \
    FROM albums \
    WHERE last_played_at IS NOT NULL \
    ORDER BY last_played_at DESC, id DESC \
    LIMIT ?1 OFFSET ?2";

/// The albums that were ever played, the last one first.
pub fn played_albums_children(
    ctx: &BrowseContext,
    start: usize,
    count: usize,
    answers: &[Answer],
) -> (r: Step<ChildrenResult>)
    ensures
        r@ == counted_step(
            plain_stmt(PLAYED_COUNT_SQL@),
            page_stmt(PLAYED_SQL@, Seq::empty(), start, count),
            listed(ShapeView::Albums { parent: "cat:played"@ }, ctx.art_base_url@),
            answers_view(answers@),
        ),
{
    let own: Vec<SqlValue> = Vec::new();
    assert(cells(own@) =~= Seq::empty());
    list_children(
        ctx,
        plain(PLAYED_COUNT_SQL),
        page_statement(PLAYED_SQL, own, start, count),
        &Shape::Albums { parent: "cat:played" },
        answers,
    )
}

} // verus!
