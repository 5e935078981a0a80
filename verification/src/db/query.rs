//! Work on the database, one statement at a time.
//!
//! What needs the database is written as a function from the request and the
//! answers had so far to the next [`Step`]: a statement to run, or the result.
//! Whoever holds the connection runs each statement, adds its [`Answer`] to the
//! list and asks again.

use vstd::prelude::*;

use crate::error::{Error, ErrorView, SqliteError, SqliteErrorView};
use crate::text;

verus! {

/// A value of a statement's parameter, or of a column in a row.
#[derive(Debug)]
pub enum SqlValue {
    Null,
    Integer(i64),
    Text(String),
    /// A number with a fraction.
    Real,
    Blob,
    /// Text that is not UTF-8, and what is wrong with it.
    Garbled(String),
}

/// A value as the library sees it.
pub enum Cell {
    Null,
    Integer(i64),
    Text(Seq<char>),
    Real,
    Blob,
    Garbled(Seq<char>),
}

impl View for SqlValue {
    type V = Cell;

    open spec fn view(&self) -> Cell {
        match self {
            SqlValue::Null => Cell::Null,
            SqlValue::Integer(n) => Cell::Integer(*n),
            SqlValue::Text(s) => Cell::Text(s@),
            SqlValue::Real => Cell::Real,
            SqlValue::Blob => Cell::Blob,
            SqlValue::Garbled(s) => Cell::Garbled(s@),
        }
    }
}

/// A row of an answer: its columns, in order.
pub type Row = Vec<SqlValue>;

pub open spec fn cells(v: Seq<SqlValue>) -> Seq<Cell> {
    v.map_values(|c: SqlValue| c@)
}

pub open spec fn rows_view(rows: Seq<Row>) -> Seq<Seq<Cell>> {
    rows.map_values(|r: Row| cells(r@))
}

/// A statement with the values of its numbered parameters.
#[derive(Debug)]
pub struct Statement {
    pub sql: String,
    pub params: Vec<SqlValue>,
}

/// A statement as text.
pub struct StatementView {
    pub sql: Seq<char>,
    pub params: Seq<Cell>,
}

impl View for Statement {
    type V = StatementView;

    open spec fn view(&self) -> StatementView {
        StatementView { sql: self.sql@, params: cells(self.params@) }
    }
}

/// What came back from a statement: its rows and the names of their columns, or why
/// there are none. A statement that changes the database answers with one row that
/// holds the number of rows it changed.
#[derive(Debug)]
pub enum Answer {
    Rows(Vec<Row>, Vec<String>),
    Failed(SqliteError),
}

/// An answer as the library sees it.
pub enum AnswerView {
    Rows(Seq<Seq<Cell>>, Seq<Seq<char>>),
    Failed(SqliteErrorView),
}

impl View for Answer {
    type V = AnswerView;

    open spec fn view(&self) -> AnswerView {
        match self {
            Answer::Rows(rows, columns) => AnswerView::Rows(
                rows_view(rows@),
                text::texts(columns@),
            ),
            Answer::Failed(e) => AnswerView::Failed(e@),
        }
    }
}

pub open spec fn answers_view(answers: Seq<Answer>) -> Seq<AnswerView> {
    answers.map_values(|a: Answer| a@)
}

/// What comes next: a statement that asks, a statement that changes, a script of
/// statements without parameters, or the end of the work.
#[derive(Debug)]
pub enum Step<T> {
    Query(Statement),
    Execute(Statement),
    Batch(&'static str),
    Done(Result<T, Error>),
}

/// A step as the library sees it.
pub enum StepView<V> {
    Query(StatementView),
    Execute(StatementView),
    Batch(Seq<char>),
    Done(Result<V, ErrorView>),
}

/// A step whose result is seen through `f`.
pub open spec fn step_as<T, V>(s: Step<T>, f: spec_fn(T) -> V) -> StepView<V> {
    match s {
        Step::Query(q) => StepView::Query(q@),
        Step::Execute(q) => StepView::Execute(q@),
        Step::Batch(b) => StepView::Batch(b@),
        Step::Done(Ok(v)) => StepView::Done(Ok(f(v))),
        Step::Done(Err(e)) => StepView::Done(Err(e@)),
    }
}

impl<T: View> View for Step<T> {
    type V = StepView<T::V>;

    open spec fn view(&self) -> StepView<T::V> {
        step_as(*self, |v: T| v@)
    }
}

/// Work that asks once and reads the answer with `f`.
pub open spec fn asked_once<V>(
    stmt: StatementView,
    answers: Seq<AnswerView>,
    f: spec_fn(AnswerView) -> Result<V, ErrorView>,
) -> StepView<V> {
    if answers.len() == 0 {
        StepView::Query(stmt)
    } else {
        StepView::Done(f(answers[0]))
    }
}

/// Work that changes the database once and reads the answer with `f`.
pub open spec fn changed_once<V>(
    stmt: StatementView,
    answers: Seq<AnswerView>,
    f: spec_fn(AnswerView) -> Result<V, ErrorView>,
) -> StepView<V> {
    if answers.len() == 0 {
        StepView::Execute(stmt)
    } else {
        StepView::Done(f(answers[0]))
    }
}

/// Whether the statement was run, whatever its answer.
pub open spec fn ran(a: AnswerView) -> Result<(), ErrorView> {
    match a {
        AnswerView::Failed(e) => Err(ErrorView::Sqlite(e)),
        AnswerView::Rows(..) => Ok(()),
    }
}

/// How many rows a change touched.
pub open spec fn touched(a: AnswerView) -> Result<usize, ErrorView> {
    match scalar_of(a) {
        Ok(n) => Ok(n as usize),
        Err(e) => Err(e),
    }
}

/// The text in the first column of the first row, where there is a row.
pub open spec fn found_text(a: AnswerView) -> Result<Option<Seq<char>>, ErrorView> {
    match a {
        AnswerView::Failed(e) => if e is QueryReturnedNoRows {
            Ok(None)
        } else {
            Err(ErrorView::Sqlite(e))
        },
        AnswerView::Rows(rows, _) => if rows.len() == 0 {
            Ok(None)
        } else {
            match text_at(rows[0], 0) {
                Some(s) => Ok(Some(s)),
                None => Err(ErrorView::Sqlite(misread(a, seq![Wanted::Text]))),
            }
        },
    }
}

/// The whole number in the first column of the first row.
pub open spec fn scalar_of(a: AnswerView) -> Result<i64, ErrorView> {
    match a {
        AnswerView::Failed(e) => Err(ErrorView::Sqlite(e)),
        AnswerView::Rows(rows, _) => if rows.len() == 0 {
            Err(ErrorView::Sqlite(SqliteErrorView::QueryReturnedNoRows))
        } else {
            match integer_at(rows[0], 0) {
                Some(n) => Ok(n),
                None => Err(ErrorView::Sqlite(misread(a, seq![Wanted::Integer]))),
            }
        },
    }
}

/// The rows of an answer.
pub open spec fn rows_of(a: AnswerView) -> Result<Seq<Seq<Cell>>, ErrorView> {
    match a {
        AnswerView::Failed(e) => Err(ErrorView::Sqlite(e)),
        AnswerView::Rows(rows, _) => Ok(rows),
    }
}

/// The whole number in column `i`, where the column holds one.
pub open spec fn integer_at(row: Seq<Cell>, i: int) -> Option<i64> {
    if 0 <= i < row.len() && row[i] is Integer {
        Some(row[i]->Integer_0)
    } else {
        None
    }
}

/// The text in column `i`, where the column holds text.
pub open spec fn text_at(row: Seq<Cell>, i: int) -> Option<Seq<char>> {
    if 0 <= i < row.len() && row[i] is Text {
        Some(row[i]->Text_0)
    } else {
        None
    }
}

/// The whole number in column `i`, or its absence, where the column holds either.
pub open spec fn opt_integer_at(row: Seq<Cell>, i: int) -> Option<Option<i64>> {
    if 0 <= i < row.len() && row[i] is Null {
        Some(None)
    } else {
        match integer_at(row, i) {
            Some(n) => Some(Some(n)),
            None => None,
        }
    }
}

/// The text in column `i`, or its absence, where the column holds either.
pub open spec fn opt_text_at(row: Seq<Cell>, i: int) -> Option<Option<Seq<char>>> {
    if 0 <= i < row.len() && row[i] is Null {
        Some(None)
    } else {
        match text_at(row, i) {
            Some(s) => Some(Some(s)),
            None => None,
        }
    }
}

// ── Columns that hold something else ─────────────────────────────────────

/// What is read from a column.
#[derive(Debug, Clone, Copy, PartialEq, Eq, Structural)]
pub enum Wanted {
    Integer,
    Text,
    /// A whole number or nothing.
    OptInteger,
    /// A text or nothing.
    OptText,
}

impl Cell {
    /// The name of the type of a value.
    pub open spec fn kind(self) -> Seq<char> {
        match self {
            Cell::Null => "Null"@,
            Cell::Integer(_) => "Integer"@,
            Cell::Text(_) => "Text"@,
            Cell::Real => "Real"@,
            Cell::Blob => "Blob"@,
            Cell::Garbled(_) => "Text"@,
        }
    }

    /// Whether the value is one of those wanted.
    pub open spec fn is_wanted(self, wanted: Wanted) -> bool {
        match self {
            Cell::Null => wanted is OptInteger || wanted is OptText,
            Cell::Integer(_) => wanted is Integer || wanted is OptInteger,
            Cell::Text(_) => wanted is Text || wanted is OptText,
            _ => false,
        }
    }
}

/// Why column `i` cannot be read as wanted, if it cannot.
pub open spec fn misfit(row: Seq<Cell>, columns: Seq<Seq<char>>, i: int, wanted: Wanted) -> Option<
    SqliteErrorView,
> {
    if i >= row.len() {
        Some(SqliteErrorView::InvalidColumnIndex(i as usize))
    } else if row[i].is_wanted(wanted) {
        None
    } else if row[i] is Garbled && (wanted is Text || wanted is OptText) {
        Some(SqliteErrorView::Utf8Error { index: i as usize, message: row[i]->Garbled_0 })
    } else {
        Some(
            SqliteErrorView::InvalidColumnType {
                index: i as usize,
                name: if i < columns.len() {
                    columns[i]
                } else {
                    ""@
                },
                kind: row[i].kind(),
            },
        )
    }
}

/// Why the first columns cannot be read as wanted, one after the other.
pub open spec fn first_misfit(
    row: Seq<Cell>,
    columns: Seq<Seq<char>>,
    wanted: Seq<Wanted>,
) -> Option<SqliteErrorView>
    decreases wanted.len(),
{
    if wanted.len() == 0 {
        None
    } else {
        match first_misfit(row, columns, wanted.drop_last()) {
            Some(e) => Some(e),
            None => misfit(row, columns, wanted.len() - 1, wanted.last()),
        }
    }
}

/// Why the first row of an answer cannot be read as wanted.
pub open spec fn misread(a: AnswerView, wanted: Seq<Wanted>) -> SqliteErrorView {
    match a {
        AnswerView::Failed(e) => e,
        AnswerView::Rows(rows, columns) => if rows.len() == 0 {
            SqliteErrorView::QueryReturnedNoRows
        } else {
            match first_misfit(rows[0], columns, wanted) {
                Some(e) => e,
                None => SqliteErrorView::QueryReturnedNoRows,
            }
        },
    }
}

fn opt_error(e: Option<SqliteError>) -> (r: SqliteError)
    ensures
        e matches Some(x) ==> r == x,
        e is None ==> r is QueryReturnedNoRows,
{
    match e {
        Some(x) => x,
        None => SqliteError::QueryReturnedNoRows,
    }
}

fn wrong_column(row: &Row, columns: &Vec<String>, i: usize, wanted: Wanted) -> (r: Option<
    SqliteError,
>)
    ensures
        match r {
            Some(e) => misfit(cells(row@), text::texts(columns@), i as int, wanted) == Some(e@),
            None => misfit(cells(row@), text::texts(columns@), i as int, wanted) is None,
        },
{
    if i >= row.len() {
        return Some(SqliteError::InvalidColumnIndex(i));
    }
    let textual = wanted == Wanted::Text || wanted == Wanted::OptText;
    let nullable = wanted == Wanted::OptInteger || wanted == Wanted::OptText;
    assert(cells(row@)[i as int] == row@[i as int]@);
    let kind: &'static str = match &row[i] {
        SqlValue::Null => if nullable {
            return None;
        } else {
            "Null"
        },
        SqlValue::Integer(_) => if !textual {
            return None;
        } else {
            "Integer"
        },
        SqlValue::Text(_) => if textual {
            return None;
        } else {
            "Text"
        },
        SqlValue::Real => "Real",
        SqlValue::Blob => "Blob",
        SqlValue::Garbled(message) => if textual {
            return Some(
                SqliteError::Utf8Error { index: i, message: text::owned(message.as_str()) },
            );
        } else {
            "Text"
        },
    };
    let name = if i < columns.len() {
        assert(text::texts(columns@)[i as int] == columns@[i as int]@);
        text::owned(columns[i].as_str())
    } else {
        text::owned("")
    };
    Some(SqliteError::InvalidColumnType { index: i, name, kind })
}

/// Why the first row of an answer cannot be read as wanted: of its columns, in order,
/// the first that holds something else.
pub fn misread_error(a: &Answer, wanted: &Vec<Wanted>) -> (r: SqliteError)
    ensures
        r@ == misread(a@, wanted@),
{
    match a {
        Answer::Failed(e) => copy_error(e),
        Answer::Rows(rows, columns) => {
            if rows.len() == 0 {
                return SqliteError::QueryReturnedNoRows;
            }
            assert(rows_view(rows@)[0] == cells(rows@[0]@));
            let ghost row = cells(rows@[0]@);
            let ghost names = text::texts(columns@);
            let mut i: usize = 0;
            let mut found: Option<SqliteError> = None;
            while i < wanted.len() && found.is_none()
                invariant
                    i <= wanted@.len(),
                    rows@.len() > 0,
                    row == cells(rows@[0]@),
                    names == text::texts(columns@),
                    match found {
                        Some(e) => first_misfit(row, names, wanted@.take(i as int)) == Some(e@),
                        None => first_misfit(row, names, wanted@.take(i as int)) is None,
                    },
                decreases wanted@.len() - i,
            {
                assert(wanted@.take(i + 1).drop_last() =~= wanted@.take(i as int));
                assert(wanted@.take(i + 1).last() == wanted@[i as int]);
                found = wrong_column(&rows[0], columns, i, wanted[i]);
                i = i + 1;
            }
            proof {
                lemma_first_misfit(row, names, wanted@, i as int);
            }
            opt_error(found)
        },
    }
}

/// The first column that cannot be read decides.
proof fn lemma_first_misfit(row: Seq<Cell>, columns: Seq<Seq<char>>, wanted: Seq<Wanted>, n: int)
    requires
        0 <= n <= wanted.len(),
        n == wanted.len() || first_misfit(row, columns, wanted.take(n)) is Some,
    ensures
        first_misfit(row, columns, wanted) == first_misfit(row, columns, wanted.take(n)),
    decreases wanted.len(),
{
    if n == wanted.len() {
        assert(wanted.take(n) =~= wanted);
    } else {
        let front = wanted.drop_last();
        assert(front.take(n) =~= wanted.take(n));
        lemma_first_misfit(row, columns, front, n);
    }
}

pub fn scalar(a: &Answer) -> (r: Result<i64, Error>)
    ensures
        r matches Ok(n) ==> scalar_of(a@) == Ok::<i64, ErrorView>(n),
        r matches Err(e) ==> scalar_of(a@) == Err::<i64, ErrorView>(e@),
{
    match a {
        Answer::Failed(e) => Err(Error::Sqlite(copy_error(e))),
        Answer::Rows(rows, _) => {
            if rows.len() == 0 {
                Err(Error::Sqlite(SqliteError::QueryReturnedNoRows))
            } else {
                assert(rows_view(rows@)[0] == cells(rows@[0]@));
                match get_integer(&rows[0], 0) {
                    Some(n) => Ok(n),
                    None => {
                        let wanted = vec![Wanted::Integer];
                        assert(wanted@ =~= seq![Wanted::Integer]);
                        Err(Error::Sqlite(misread_error(a, &wanted)))
                    },
                }
            }
        },
    }
}

pub fn check(a: &Answer) -> (r: Result<(), Error>)
    ensures
        r is Ok == ran(a@) is Ok,
        r matches Err(e) ==> ran(a@) == Err::<(), ErrorView>(e@),
{
    match a {
        Answer::Failed(e) => Err(Error::Sqlite(copy_error(e))),
        Answer::Rows(..) => Ok(()),
    }
}

pub fn changes(a: &Answer) -> (r: Result<usize, Error>)
    ensures
        r matches Ok(n) ==> touched(a@) == Ok::<usize, ErrorView>(n),
        r matches Err(e) ==> touched(a@) == Err::<usize, ErrorView>(e@),
{
    match scalar(a) {
        Ok(n) => Ok(n as usize),
        Err(e) => Err(e),
    }
}

pub fn optional_text(a: &Answer) -> (r: Result<Option<String>, Error>)
    ensures
        r matches Ok(o) ==> found_text(a@) == Ok::<Option<Seq<char>>, ErrorView>(
            text::opt_text(o),
        ),
        r matches Err(e) ==> found_text(a@) == Err::<Option<Seq<char>>, ErrorView>(e@),
{
    match a {
        Answer::Failed(e) => match e {
            SqliteError::QueryReturnedNoRows => Ok(None),
            _ => Err(Error::Sqlite(copy_error(e))),
        },
        Answer::Rows(rows, _) => {
            if rows.len() == 0 {
                Ok(None)
            } else {
                assert(rows_view(rows@)[0] == cells(rows@[0]@));
                match get_text(&rows[0], 0) {
                    Some(s) => Ok(Some(s)),
                    None => {
                        let wanted = vec![Wanted::Text];
                        assert(wanted@ =~= seq![Wanted::Text]);
                        Err(Error::Sqlite(misread_error(a, &wanted)))
                    },
                }
            }
        },
    }
}

pub fn copy_error(e: &SqliteError) -> (r: SqliteError)
    ensures
        r@ == e@,
{
    match e {
        SqliteError::QueryReturnedNoRows => SqliteError::QueryReturnedNoRows,
        SqliteError::InvalidColumnType { index, name, kind } => SqliteError::InvalidColumnType {
            index: *index,
            name: text::owned(name.as_str()),
            kind,
        },
        SqliteError::Utf8Error { index, message } => SqliteError::Utf8Error {
            index: *index,
            message: text::owned(message.as_str()),
        },
        SqliteError::InvalidColumnIndex(index) => SqliteError::InvalidColumnIndex(*index),
        SqliteError::Failure(s) => SqliteError::Failure(text::owned(s.as_str())),
    }
}

pub fn get_integer(row: &Row, i: usize) -> (r: Option<i64>)
    ensures
        r == integer_at(cells(row@), i as int),
{
    if i < row.len() {
        match &row[i] {
            SqlValue::Integer(n) => Some(*n),
            _ => None,
        }
    } else {
        None
    }
}

pub fn get_text(row: &Row, i: usize) -> (r: Option<String>)
    ensures
        text::opt_text(r) == text_at(cells(row@), i as int),
{
    if i < row.len() {
        match &row[i] {
            SqlValue::Text(s) => Some(text::owned(s.as_str())),
            _ => None,
        }
    } else {
        None
    }
}

pub fn get_opt_integer(row: &Row, i: usize) -> (r: Option<Option<i64>>)
    ensures
        r == opt_integer_at(cells(row@), i as int),
{
    if i < row.len() {
        match &row[i] {
            SqlValue::Integer(n) => Some(Some(*n)),
            SqlValue::Null => Some(None),
            _ => None,
        }
    } else {
        None
    }
}

pub fn get_opt_text(row: &Row, i: usize) -> (r: Option<Option<String>>)
    ensures
        r is Some == opt_text_at(cells(row@), i as int) is Some,
        r matches Some(o) ==> opt_text_at(cells(row@), i as int) == Some(text::opt_text(o)),
{
    if i < row.len() {
        match &row[i] {
            SqlValue::Text(s) => Some(Some(text::owned(s.as_str()))),
            SqlValue::Null => Some(None),
            _ => None,
        }
    } else {
        None
    }
}

/// A parameter with the characters of `s`.
pub fn text_param(s: &str) -> (r: SqlValue)
    ensures
        r@ == Cell::Text(s@),
{
    SqlValue::Text(text::owned(s))
}

/// A parameter with the characters of `s`, or none.
pub open spec fn opt_text_cell(s: Option<Seq<char>>) -> Cell {
    match s {
        Some(t) => Cell::Text(t),
        None => Cell::Null,
    }
}

pub fn opt_text_param(s: Option<&str>) -> (r: SqlValue)
    ensures
        r@ == opt_text_cell(text::opt_str(s)),
{
    match s {
        Some(t) => text_param(t),
        None => SqlValue::Null,
    }
}

/// A statement without parameters.
pub fn plain(sql: &str) -> (r: Statement)
    ensures
        r@ == plain_stmt(sql@),
{
    let params: Vec<SqlValue> = Vec::new();
    assert(cells(params@) =~= Seq::empty());
    Statement { sql: text::owned(sql), params }
}

pub open spec fn plain_stmt(sql: Seq<char>) -> StatementView {
    StatementView { sql, params: Seq::empty() }
}

/// A statement with the given parameters.
pub fn bound(sql: &str, params: Vec<SqlValue>) -> (r: Statement)
    ensures
        r@ == (StatementView { sql: sql@, params: cells(params@) }),
{
    Statement { sql: text::owned(sql), params }
}

} // verus!
