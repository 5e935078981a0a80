//! The server's identity, which outlives a restart.
//!
//! A server keeps the id under which it was first seen, whatever the configuration
//! says later: control points know it by that id.

use vstd::prelude::*;
use vstd::slice::slice_subrange;

use crate::db::query::{
    answers_view, check, found_text, optional_text, ran, step_as, Answer, AnswerView, Cell,
    StatementView, Step, StepView,
};
use crate::db::state_kv::{get_statement, get_stmt, set_statement, set_stmt};
use crate::error::ErrorView;
use crate::text;

verus! {

/// The id of a new server: the configured one, or a fresh one where the configuration
/// leaves it open.
pub open spec fn chosen_id(configured: Seq<char>, fresh: Seq<char>) -> Seq<char> {
    if configured == "auto"@ {
        fresh
    } else {
        configured
    }
}

/// Take the stored id, or store the chosen one.
pub open spec fn device_step(chosen: Seq<char>, answers: Seq<AnswerView>) -> StepView<Seq<char>> {
    if answers.len() == 0 {
        StepView::Query(get_stmt("uuid"@))
    } else {
        match found_text(answers[0]) {
            Err(e) => StepView::Done(Err(e)),
            Ok(Some(stored)) => StepView::Done(Ok(stored)),
            Ok(None) => if answers.len() == 1 {
                StepView::Execute(set_stmt("uuid"@, chosen))
            } else {
                match ran(answers[1]) {
                    Err(e) => StepView::Done(Err(e)),
                    Ok(_) => StepView::Done(Ok(chosen)),
                }
            },
        }
    }
}

/// Begin the update id at one where there is none, then settle the id.
pub open spec fn identity_step(chosen: Seq<char>, answers: Seq<AnswerView>) -> StepView<
    Seq<char>,
> {
    if answers.len() == 0 {
        StepView::Query(get_stmt("system_update_id"@))
    } else {
        match found_text(answers[0]) {
            Err(e) => StepView::Done(Err(e)),
            Ok(Some(_)) => device_step(chosen, answers.skip(1)),
            Ok(None) => if answers.len() == 1 {
                StepView::Execute(set_stmt("system_update_id"@, "1"@))
            } else {
                match ran(answers[1]) {
                    Err(e) => StepView::Done(Err(e)),
                    Ok(_) => device_step(chosen, answers.skip(2)),
                }
            },
        }
    }
}

fn settle(chosen: &str, answers: &[Answer]) -> (r: Step<String>)
    ensures
        step_as(r, |s: String| s@) == device_step(chosen@, answers_view(answers@)),
{
    if answers.len() == 0 {
        return Step::Query(get_statement("uuid"));
    }
    match optional_text(&answers[0]) {
        Err(e) => Step::Done(Err(e)),
        Ok(Some(stored)) => Step::Done(Ok(stored)),
        Ok(None) => {
            if answers.len() == 1 {
                return Step::Execute(set_statement("uuid", chosen));
            }
            match check(&answers[1]) {
                Err(e) => Step::Done(Err(e)),
                Ok(_) => Step::Done(Ok(text::owned(chosen))),
            }
        },
    }
}

/// Settle the server's id at startup. `fresh` is an id that no other server has.
pub fn establish(configured: &str, fresh: &str, answers: &[Answer]) -> (r: Step<String>)
    ensures
        step_as(r, |s: String| s@) == identity_step(
            chosen_id(configured@, fresh@),
            answers_view(answers@),
        ),
{
    let chosen = if text::same(configured, "auto") { fresh } else { configured };
    if answers.len() == 0 {
        return Step::Query(get_statement("system_update_id"));
    }
    match optional_text(&answers[0]) {
        Err(e) => Step::Done(Err(e)),
        Ok(Some(_)) => {
            let rest = slice_subrange(answers, 1, answers.len());
            assert(answers_view(rest@) =~= answers_view(answers@).skip(1));
            settle(chosen, rest)
        },
        Ok(None) => {
            if answers.len() == 1 {
                return Step::Execute(set_statement("system_update_id", "1"));
            }
            match check(&answers[1]) {
                Err(e) => Step::Done(Err(e)),
                Ok(_) => {
                    let rest = slice_subrange(answers, 2, answers.len());
                    assert(answers_view(rest@) =~= answers_view(answers@).skip(2));
                    settle(chosen, rest)
                },
            }
        },
    }
}

/// A stored id stays, and nothing is written, whatever is configured.
pub proof fn stored_identity_stays(
    a: Seq<char>,
    b: Seq<char>,
    stored: Seq<char>,
    answers: Seq<AnswerView>,
)
    requires
        answers.len() == 2,
        found_text(answers[0]) is Ok,
        found_text(answers[0])->Ok_0 is Some,
        found_text(answers[1]) == Ok::<Option<Seq<char>>, ErrorView>(Some(stored)),
    ensures
        identity_step(a, answers) == StepView::<Seq<char>>::Done(Ok(stored)),
        identity_step(b, answers) == identity_step(a, answers),
{
}

/// A server without a stored id takes the configured one, or a fresh one where the
/// configuration leaves it open, stores it under the key from which it is read, and goes by
/// it. Its update id begins at one.
pub proof fn new_servers_store_their_identity(
    configured: &str,
    fresh: &str,
    answers: &[Answer],
    r: Step<String>,
)
    requires
        call_ensures(establish, (configured, fresh, answers), r),
        answers@.len() > 0 ==> found_text(answers@[0]@) == Ok::<Option<Seq<char>>, ErrorView>(None),
        answers@.len() > 1 ==> answers@[1] is Rows,
        answers@.len() > 2 ==> found_text(answers@[2]@) == Ok::<Option<Seq<char>>, ErrorView>(None),
        answers@.len() > 3 ==> answers@[3] is Rows,
    ensures
        ({
            let id = if configured@ == "auto"@ {
                fresh@
            } else {
                configured@
            };
            let n = answers@.len();
            let reads = |key: Seq<char>|
                r matches Step::Query(q) && q@ == (StatementView {
                    sql: "SELECT value FROM server_state WHERE key = ?1"@,
                    params: seq![Cell::Text(key)],
                });
            let writes = |key: Seq<char>, value: Seq<char>|
                r matches Step::Execute(q) && q@ == (StatementView {
                    sql: "INSERT INTO server_state (key, value) VALUES (?1, ?2) \
    ON CONFLICT(key) DO UPDATE SET value = excluded.value"@,
                    params: seq![Cell::Text(key), Cell::Text(value)],
                });
            &&& n == 0 ==> reads("system_update_id"@)
            &&& n == 1 ==> writes("system_update_id"@, "1"@)
            &&& n == 2 ==> reads("uuid"@)
            &&& n == 3 ==> writes("uuid"@, id)
            &&& n > 3 ==> (r matches Step::Done(Ok(s)) && s@ == id)
        }),
{
    let a = answers_view(answers@);
    assert(a.len() == answers@.len());
    assert(forall|i: int| 0 <= i < a.len() ==> #[trigger] a[i] == answers@[i]@);
    if a.len() > 2 {
        assert(a.skip(2)[0] == a[2]);
    }
    if a.len() > 3 {
        assert(a.skip(2)[1] == a[3]);
    }
}

} // verus!
