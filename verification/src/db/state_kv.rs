//! The server's own state: values kept under a key.

use vstd::prelude::*;

use crate::db::query::{
    answers_view, asked_once, bound, cells, changed_once, check, found_text, optional_text, ran,
    step_as, text_param, Answer, AnswerView, Cell, Statement, StatementView, Step,
};
use crate::text::opt_text;

verus! {

pub const GET_SQL: &'static str = "SELECT value FROM server_state WHERE key = ?1";

pub const SET_SQL: &'static str = "INSERT INTO server_state (key, value) VALUES (?1, ?2) \
    ON CONFLICT(key) DO UPDATE SET value = excluded.value";

pub open spec fn get_stmt(key: Seq<char>) -> StatementView {
    StatementView { sql: GET_SQL@, params: seq![Cell::Text(key)] }
}

pub open spec fn set_stmt(key: Seq<char>, value: Seq<char>) -> StatementView {
    StatementView { sql: SET_SQL@, params: seq![Cell::Text(key), Cell::Text(value)] }
}

pub fn get_statement(key: &str) -> (r: Statement)
    ensures
        r@ == get_stmt(key@),
{
    let params = vec![text_param(key)];
    assert(cells(params@) =~= seq![Cell::Text(key@)]);
    bound(GET_SQL, params)
}

/// The value under `key`, where there is one.
pub fn get(key: &str, answers: &[Answer]) -> (r: Step<Option<String>>)
    ensures
        step_as(r, |o: Option<String>| opt_text(o)) == asked_once(
            get_stmt(key@),
            answers_view(answers@),
            |a: AnswerView| found_text(a),
        ),
{
    if answers.len() == 0 {
        return Step::Query(get_statement(key));
    }
    Step::Done(optional_text(&answers[0]))
}

pub fn set_statement(key: &str, value: &str) -> (r: Statement)
    ensures
        r@ == set_stmt(key@, value@),
{
    let params = vec![text_param(key), text_param(value)];
    assert(cells(params@) =~= seq![Cell::Text(key@), Cell::Text(value@)]);
    bound(SET_SQL, params)
}

/// Keep `value` under `key`, in place of what was there.
pub fn set(key: &str, value: &str, answers: &[Answer]) -> (r: Step<()>)
    ensures
        r@ == changed_once(
            set_stmt(key@, value@),
            answers_view(answers@),
            |a: AnswerView| ran(a),
        ),
{
    if answers.len() == 0 {
        return Step::Execute(set_statement(key, value));
    }
    Step::Done(check(&answers[0]))
}

} // verus!
