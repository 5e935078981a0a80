//! The library's errors.

use vstd::prelude::*;

use crate::text::{self, decimal};

verus! {

/// What the database reports in place of an answer.
#[derive(Debug)]
pub enum SqliteError {
    /// A query that must give a row gave none.
    QueryReturnedNoRows,
    /// A column of the given name holds something else than is read from it.
    InvalidColumnType { index: usize, name: String, kind: &'static str },
    /// A column holds text that is not UTF-8, and what is wrong with it.
    Utf8Error { index: usize, message: String },
    /// There is no such column.
    InvalidColumnIndex(usize),
    /// The database could not run the statement.
    Failure(String),
}

/// A database error as text.
pub enum SqliteErrorView {
    QueryReturnedNoRows,
    InvalidColumnType { index: usize, name: Seq<char>, kind: Seq<char> },
    Utf8Error { index: usize, message: Seq<char> },
    InvalidColumnIndex(usize),
    Failure(Seq<char>),
}

impl View for SqliteError {
    type V = SqliteErrorView;

    open spec fn view(&self) -> SqliteErrorView {
        match self {
            SqliteError::QueryReturnedNoRows => SqliteErrorView::QueryReturnedNoRows,
            SqliteError::InvalidColumnType { index, name, kind } => {
                SqliteErrorView::InvalidColumnType { index: *index, name: name@, kind: kind@ }
            },
            SqliteError::Utf8Error { index, message } => SqliteErrorView::Utf8Error {
                index: *index,
                message: message@,
            },
            SqliteError::InvalidColumnIndex(index) => SqliteErrorView::InvalidColumnIndex(*index),
            SqliteError::Failure(s) => SqliteErrorView::Failure(s@),
        }
    }
}

/// A failure of the server.
#[derive(Debug)]
pub enum Error {
    ConfigRead { path: String, source: String },
    ConfigParse { path: String, source: String },
    Io(String),
    Sqlite(SqliteError),
    SerdeJson(String),
    Pool(String),
    LockPoisoned { what: &'static str },
    SemaphoreClosed { what: &'static str },
    NotFound { kind: &'static str, key: String },
}

/// An error as text.
pub enum ErrorView {
    ConfigRead { path: Seq<char>, source: Seq<char> },
    ConfigParse { path: Seq<char>, source: Seq<char> },
    Io(Seq<char>),
    Sqlite(SqliteErrorView),
    SerdeJson(Seq<char>),
    Pool(Seq<char>),
    LockPoisoned { what: Seq<char> },
    SemaphoreClosed { what: Seq<char> },
    NotFound { kind: Seq<char>, key: Seq<char> },
}

impl View for Error {
    type V = ErrorView;

    open spec fn view(&self) -> ErrorView {
        match self {
            Error::ConfigRead { path, source } => ErrorView::ConfigRead {
                path: path@,
                source: source@,
            },
            Error::ConfigParse { path, source } => ErrorView::ConfigParse {
                path: path@,
                source: source@,
            },
            Error::Io(s) => ErrorView::Io(s@),
            Error::Sqlite(e) => ErrorView::Sqlite(e@),
            Error::SerdeJson(s) => ErrorView::SerdeJson(s@),
            Error::Pool(s) => ErrorView::Pool(s@),
            Error::LockPoisoned { what } => ErrorView::LockPoisoned { what: what@ },
            Error::SemaphoreClosed { what } => ErrorView::SemaphoreClosed { what: what@ },
            Error::NotFound { kind, key } => ErrorView::NotFound { kind: kind@, key: key@ },
        }
    }
}

/// What a missing row means at the lookup of a single object: the object of that
/// kind and key does not exist. Any other database error stays what it is.
pub open spec fn lookup_error(e: SqliteErrorView, kind: Seq<char>, key: Seq<char>) -> ErrorView {
    if e is QueryReturnedNoRows {
        ErrorView::NotFound { kind, key }
    } else {
        ErrorView::Sqlite(e)
    }
}

/// The words of a database error.
pub open spec fn sqlite_message(e: SqliteErrorView) -> Seq<char> {
    match e {
        SqliteErrorView::QueryReturnedNoRows => "Query returned no rows"@,
        SqliteErrorView::InvalidColumnType { index, name, kind } => "Invalid column type "@ + kind
            + " at index: "@ + decimal(index as nat) + ", name: "@ + name,
        SqliteErrorView::Utf8Error { index, message } => message + " at index "@ + decimal(
            index as nat,
        ),
        SqliteErrorView::InvalidColumnIndex(index) => "Invalid column index: "@ + decimal(
            index as nat,
        ),
        SqliteErrorView::Failure(s) => s,
    }
}

/// The words of an error.
pub open spec fn error_message(e: ErrorView) -> Seq<char> {
    match e {
        ErrorView::ConfigRead { path, source } => "config file not found or unreadable: "@ + path
            + ": "@ + source,
        ErrorView::ConfigParse { path, source } => "config parse error in "@ + path + ": "@
            + source,
        ErrorView::Io(s) => "io error: "@ + s,
        ErrorView::Sqlite(s) => "sqlite error: "@ + sqlite_message(s),
        ErrorView::SerdeJson(s) => "json serialize/deserialize: "@ + s,
        ErrorView::Pool(s) => "db pool: "@ + s,
        ErrorView::LockPoisoned { what } => "internal lock poisoned: "@ + what,
        ErrorView::SemaphoreClosed { what } => "semaphore closed: "@ + what,
        ErrorView::NotFound { kind, key } => "not found: "@ + kind + " "@ + key,
    }
}

impl SqliteError {
    pub fn message(&self) -> (r: String)
        ensures
            r@ == sqlite_message(self@),
    {
        match self {
            SqliteError::QueryReturnedNoRows => text::owned("Query returned no rows"),
            SqliteError::InvalidColumnType { index, name, kind } => {
                let head = text::cat3("Invalid column type ", kind, " at index: ");
                let place = text::number_text(*index as u64);
                let head = text::cat3(head.as_str(), place.as_str(), ", name: ");
                text::cat(head.as_str(), name.as_str())
            },
            SqliteError::Utf8Error { index, message } => {
                let place = text::number_text(*index as u64);
                text::cat3(message.as_str(), " at index ", place.as_str())
            },
            SqliteError::InvalidColumnIndex(index) => text::cat(
                "Invalid column index: ",
                text::number_text(*index as u64).as_str(),
            ),
            SqliteError::Failure(s) => text::owned(s.as_str()),
        }
    }
}

impl Error {
    /// Map a database error at the lookup of a single object.
    pub fn sqlite_or_not_found(e: SqliteError, kind: &'static str, key: String) -> (r: Self)
        ensures
            r@ == lookup_error(e@, kind@, key@),
    {
        match e {
            SqliteError::QueryReturnedNoRows => Error::NotFound { kind, key },
            other => Error::Sqlite(other),
        }
    }

    /// What is shown of the error.
    pub fn message(&self) -> (r: String)
        ensures
            r@ == error_message(self@),
    {
        match self {
            Error::ConfigRead { path, source } => {
                let head = text::cat(
                    "config file not found or unreadable: ",
                    path.as_str(),
                );
                text::cat3(head.as_str(), ": ", source.as_str())
            },
            Error::ConfigParse { path, source } => {
                let head = text::cat("config parse error in ", path.as_str());
                text::cat3(head.as_str(), ": ", source.as_str())
            },
            Error::Io(s) => text::cat("io error: ", s.as_str()),
            Error::Sqlite(e) => text::cat("sqlite error: ", e.message().as_str()),
            Error::SerdeJson(s) => text::cat("json serialize/deserialize: ", s.as_str()),
            Error::Pool(s) => text::cat("db pool: ", s.as_str()),
            Error::LockPoisoned { what } => text::cat("internal lock poisoned: ", what),
            Error::SemaphoreClosed { what } => text::cat("semaphore closed: ", what),
            Error::NotFound { kind, key } => {
                let head = text::cat("not found: ", kind);
                text::cat3(head.as_str(), " ", key.as_str())
            },
        }
    }
}

} // verus!
