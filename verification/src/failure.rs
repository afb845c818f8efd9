//! What can go wrong when queries and migrations are run.

use crate::text::concat2;
use vstd::prelude::*;

verus! {

/// An error of an operation on a database.
#[derive(Debug)]
#[non_exhaustive]
pub enum Error {
    /// The server or the connection failed.
    Database(String),
    /// A migration failed, or cannot be run or reverted.
    Migration(String),
    /// A file cannot be read.
    Io(String),
    /// No connection can be had from the pool.
    Pool(String),
    /// A query that gives one row gave none.
    NoRows,
    /// A value of a domain or an enum cannot be read.
    Deserialize(String),
    /// A value of a domain or an enum cannot be written.
    Serialize(String),
}

#[verifier::ext_equal]
pub enum ErrorView {
    Database(Seq<char>),
    Migration(Seq<char>),
    Io(Seq<char>),
    Pool(Seq<char>),
    NoRows,
    Deserialize(Seq<char>),
    Serialize(Seq<char>),
}

impl View for Error {
    type V = ErrorView;

    open spec fn view(&self) -> ErrorView {
        match *self {
            Error::Database(m) => ErrorView::Database(m@),
            Error::Migration(m) => ErrorView::Migration(m@),
            Error::Io(m) => ErrorView::Io(m@),
            Error::Pool(m) => ErrorView::Pool(m@),
            Error::NoRows => ErrorView::NoRows,
            Error::Deserialize(m) => ErrorView::Deserialize(m@),
            Error::Serialize(m) => ErrorView::Serialize(m@),
        }
    }
}

/// What is said of an error.
pub open spec fn failure_text(e: ErrorView) -> Seq<char> {
    match e {
        ErrorView::Database(m) => "database error: "@ + m,
        ErrorView::Migration(m) => "migration error: "@ + m,
        ErrorView::Io(m) => "io error: "@ + m,
        ErrorView::Pool(m) => "pool error: "@ + m,
        ErrorView::NoRows => "query returned no rows"@,
        ErrorView::Deserialize(m) => "deserialization error: "@ + m,
        ErrorView::Serialize(m) => "serialization error: "@ + m,
    }
}

impl Error {
    /// What is said of this error.
    pub fn message(&self) -> (r: String)
        ensures
            r@ == failure_text(self@),
    {
        match self {
            Error::Database(m) => concat2("database error: ", m),
            Error::Migration(m) => concat2("migration error: ", m),
            Error::Io(m) => concat2("io error: ", m),
            Error::Pool(m) => concat2("pool error: ", m),
            Error::NoRows => "query returned no rows".to_string(),
            Error::Deserialize(m) => concat2("deserialization error: ", m),
            Error::Serialize(m) => concat2("serialization error: ", m),
        }
    }
}

} // verus!
