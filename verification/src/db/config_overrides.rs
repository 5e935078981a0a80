//! Settings that the administrator changed, each kept as JSON text under its key.

use vstd::prelude::*;

use crate::db::query::{
    answers_view, asked_once, bound, cells, changed_once, check, found_text, get_text,
    optional_text, plain, plain_stmt, ran, rows_of, rows_view, step_as, text_at, text_param,
    touched, Answer, AnswerView, Cell, Row, SqlValue, Statement, StatementView, Step,
};
use crate::error::Error;
use crate::text::opt_text;

verus! {

pub const GET_SQL: &'static str = "SELECT value FROM config_overrides WHERE key = ?1";

pub const LIST_SQL: &'static str = "SELECT key, value FROM config_overrides";

pub const SET_SQL: &'static str =
    "INSERT INTO config_overrides (key, value, updated_at) VALUES (?1, ?2, ?3) \
    ON CONFLICT(key) DO UPDATE SET value = excluded.value, updated_at = excluded.updated_at";

pub const DELETE_SQL: &'static str = "DELETE FROM config_overrides WHERE key = ?1";

pub open spec fn keyed_stmt(sql: Seq<char>, key: Seq<char>) -> StatementView {
    StatementView { sql, params: seq![Cell::Text(key)] }
}

pub open spec fn set_stmt(key: Seq<char>, value: Seq<char>, now_secs: i64) -> StatementView {
    StatementView {
        sql: SET_SQL@,
        params: seq![Cell::Text(key), Cell::Text(value), Cell::Integer(now_secs)],
    }
}

pub fn get_statement(key: &str) -> (r: Statement)
    ensures
        r@ == keyed_stmt(GET_SQL@, key@),
{
    let params = vec![text_param(key)];
    assert(cells(params@) =~= seq![Cell::Text(key@)]);
    bound(GET_SQL, params)
}

/// The JSON text under `key`, where there is one.
pub fn get(key: &str, answers: &[Answer]) -> (r: Step<Option<String>>)
    ensures
        step_as(r, |o: Option<String>| opt_text(o)) == asked_once(
            keyed_stmt(GET_SQL@, key@),
            answers_view(answers@),
            |a: AnswerView| found_text(a),
        ),
{
    if answers.len() == 0 {
        return Step::Query(get_statement(key));
    }
    Step::Done(optional_text(&answers[0]))
}

/// A key and its JSON text.
pub open spec fn pair_at(row: Seq<Cell>) -> Option<(Seq<char>, Seq<char>)> {
    match (text_at(row, 0), text_at(row, 1)) {
        (Some(k), Some(v)) => Some((k, v)),
        _ => None,
    }
}

pub open spec fn pairs_view(v: Seq<(String, String)>) -> Seq<(Seq<char>, Seq<char>)> {
    v.map_values(|p: (String, String)| (p.0@, p.1@))
}

fn pairs_of(rows: &Vec<Row>) -> (r: Vec<(String, String)>)
    ensures
        pairs_view(r@) == rows_view(rows@).filter_map(|row: Seq<Cell>| pair_at(row)),
{
    let ghost f = |row: Seq<Cell>| pair_at(row);
    let ghost all = rows_view(rows@);
    let mut out: Vec<(String, String)> = Vec::new();
    let mut i: usize = 0;
    assert(all.take(0) =~= Seq::empty());
    assert(pairs_view(out@) =~= Seq::empty());
    proof {
        reveal(Seq::filter_map);
    }
    while i < rows.len()
        invariant
            i <= rows.len(),
            all == rows_view(rows@),
            f == (|row: Seq<Cell>| pair_at(row)),
            pairs_view(out@) == all.take(i as int).filter_map(f),
        decreases rows.len() - i,
    {
        broadcast use Seq::lemma_filter_map_take_succ;

        let ghost before = out@;
        assert(all[i as int] == cells(rows@[i as int]@));
        match (get_text(&rows[i], 0), get_text(&rows[i], 1)) {
            (Some(k), Some(v)) => {
                out.push((k, v));
                assert(pairs_view(out@) =~= pairs_view(before).push((k@, v@)));
            },
            _ => {},
        }
        i = i + 1;
        assert(pairs_view(out@) =~= all.take(i as int).filter_map(f));
    }
    assert(all.take(i as int) =~= all);
    out
}

/// Every changed setting.
pub fn list_all(answers: &[Answer]) -> (r: Step<Vec<(String, String)>>)
    ensures
        step_as(r, |v: Vec<(String, String)>| pairs_view(v@)) == asked_once(
            plain_stmt(LIST_SQL@),
            answers_view(answers@),
            |a: AnswerView|
                match rows_of(a) {
                    Ok(rows) => Ok(rows.filter_map(|row: Seq<Cell>| pair_at(row))),
                    Err(e) => Err(e),
                },
        ),
{
    if answers.len() == 0 {
        return Step::Query(plain(LIST_SQL));
    }
    match &answers[0] {
        Answer::Failed(e) => Step::Done(Err(Error::Sqlite(crate::db::query::copy_error(e)))),
        Answer::Rows(rows, _) => Step::Done(Ok(pairs_of(rows))),
    }
}

pub fn set_statement(key: &str, value: &str, now_secs: i64) -> (r: Statement)
    ensures
        r@ == set_stmt(key@, value@, now_secs),
{
    let params = vec![text_param(key), text_param(value), SqlValue::Integer(now_secs)];
    assert(cells(params@) =~= set_stmt(key@, value@, now_secs).params);
    bound(SET_SQL, params)
}

/// Keep `value` under `key`, in place of what was there.
pub fn set(key: &str, value: &str, now_secs: i64, answers: &[Answer]) -> (r: Step<()>)
    ensures
        r@ == changed_once(
            set_stmt(key@, value@, now_secs),
            answers_view(answers@),
            |a: AnswerView| ran(a),
        ),
{
    if answers.len() == 0 {
        return Step::Execute(set_statement(key, value, now_secs));
    }
    Step::Done(check(&answers[0]))
}

/// Drop what is kept under `key`. The result says whether there was anything.
pub fn delete(key: &str, answers: &[Answer]) -> (r: Step<bool>)
    ensures
        r@ == changed_once(
            keyed_stmt(DELETE_SQL@, key@),
            answers_view(answers@),
            |a: AnswerView|
                match touched(a) {
                    Ok(n) => Ok(n > 0),
                    Err(e) => Err(e),
                },
        ),
{
    if answers.len() == 0 {
        let params = vec![text_param(key)];
        assert(cells(params@) =~= seq![Cell::Text(key@)]);
        return Step::Execute(bound(DELETE_SQL, params));
    }
    match crate::db::query::changes(&answers[0]) {
        Ok(n) => Step::Done(Ok(n > 0)),
        Err(e) => Step::Done(Err(e)),
    }
}

} // verus!
