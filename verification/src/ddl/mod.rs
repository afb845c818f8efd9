//! Applies schema statements to a [`PgCatalog`](crate::catalog::PgCatalog) in memory.

pub mod aggregates;
pub mod alter;
pub mod alter_column;
pub mod alter_laws;
pub mod alter_table;
pub mod apply;
pub mod bindings;
pub mod checks;
pub mod collations;
pub mod consistency;
pub mod constraint_laws;
pub mod constraints;
pub mod dependents;
pub mod drop;
pub mod drop_laws;
pub mod extensions;
pub mod functions;
pub mod indexes;
pub mod laws;
pub mod operators;
pub mod origin;
pub mod rewrite;
pub mod routines;
pub mod sequences;
pub mod steps;
pub mod stmt;
pub mod table_laws;
pub mod tables;
pub mod type_laws;
pub mod types;
pub mod util;
pub mod view_laws;
pub mod views;
pub mod volatile;
pub mod volatile_laws;

use crate::error::{analyze_error_message, AnalyzeError, AnalyzeErrorView};
use crate::text::concat4;
use vstd::prelude::*;

verus! {

/// Why a schema statement could not be applied.
#[allow(inconsistent_fields)]
#[derive(Debug)]
pub enum DdlError {
    Parse(String),
    Migration { filename: String, source: Box<DdlError> },
    UnsupportedDdl(String),
    TypeNotFound(String),
    TableNotFound(String),
    DuplicateObject(String),
    ExtensionError(String),
    DependencyError(String),
    ViewAnalysis { view: String, source: Box<AnalyzeError> },
    /// Something that the interpreter relies on does not hold, such as that the
    /// counter for OIDs has not run out.
    Internal(String),
}

#[allow(inconsistent_fields)]
#[verifier::ext_equal]
pub enum DdlErrorView {
    Parse(Seq<char>),
    Migration { filename: Seq<char>, source: Box<DdlErrorView> },
    UnsupportedDdl(Seq<char>),
    TypeNotFound(Seq<char>),
    TableNotFound(Seq<char>),
    DuplicateObject(Seq<char>),
    ExtensionError(Seq<char>),
    DependencyError(Seq<char>),
    ViewAnalysis { view: Seq<char>, source: AnalyzeErrorView },
    Internal(Seq<char>),
}

impl DdlError {
    /// The error as a mathematical value.
    pub open spec fn view(&self) -> DdlErrorView
        decreases self,
    {
        match *self {
            DdlError::Parse(m) => DdlErrorView::Parse(m@),
            DdlError::Migration { filename, source } => DdlErrorView::Migration {
                filename: filename@,
                source: Box::new(source.view()),
            },
            DdlError::UnsupportedDdl(m) => DdlErrorView::UnsupportedDdl(m@),
            DdlError::TypeNotFound(m) => DdlErrorView::TypeNotFound(m@),
            DdlError::TableNotFound(m) => DdlErrorView::TableNotFound(m@),
            DdlError::DuplicateObject(m) => DdlErrorView::DuplicateObject(m@),
            DdlError::ExtensionError(m) => DdlErrorView::ExtensionError(m@),
            DdlError::DependencyError(m) => DdlErrorView::DependencyError(m@),
            DdlError::ViewAnalysis { view, source } => DdlErrorView::ViewAnalysis {
                view: view@,
                source: source@,
            },
            DdlError::Internal(m) => DdlErrorView::Internal(m@),
        }
    }

    /// A copy of this error.
    pub fn copy(&self) -> (r: DdlError)
        ensures
            r@ == self@,
        decreases self,
    {
        match self {
            DdlError::Parse(m) => DdlError::Parse(m.clone()),
            DdlError::Migration { filename, source } => DdlError::Migration {
                filename: filename.clone(),
                source: Box::new(source.copy()),
            },
            DdlError::UnsupportedDdl(m) => DdlError::UnsupportedDdl(m.clone()),
            DdlError::TypeNotFound(m) => DdlError::TypeNotFound(m.clone()),
            DdlError::TableNotFound(m) => DdlError::TableNotFound(m.clone()),
            DdlError::DuplicateObject(m) => DdlError::DuplicateObject(m.clone()),
            DdlError::ExtensionError(m) => DdlError::ExtensionError(m.clone()),
            DdlError::DependencyError(m) => DdlError::DependencyError(m.clone()),
            DdlError::ViewAnalysis { view, source } => DdlError::ViewAnalysis {
                view: view.clone(),
                source: Box::new(source.copy()),
            },
            DdlError::Internal(m) => DdlError::Internal(m.clone()),
        }
    }

    /// The message to show: that of the variant as it stands, so that it begins as
    /// PostgreSQL's own message does.
    pub fn message(&self) -> (r: String)
        ensures
            r@ == ddl_error_message(self@),
        decreases self,
    {
        match self {
            DdlError::Parse(m) => m.clone(),
            DdlError::Migration { filename, source } => {
                let inner: String = source.message();
                concat4("in migration '", filename.as_str(), "': ", inner.as_str())
            },
            DdlError::UnsupportedDdl(m) => m.clone(),
            DdlError::TypeNotFound(m) => m.clone(),
            DdlError::TableNotFound(m) => m.clone(),
            DdlError::DuplicateObject(m) => m.clone(),
            DdlError::ExtensionError(m) => m.clone(),
            DdlError::DependencyError(m) => m.clone(),
            DdlError::ViewAnalysis { view, source } => {
                let inner: String = source.message();
                concat4(inner.as_str(), " (while analyzing view '", view.as_str(), "')")
            },
            DdlError::Internal(m) => m.clone(),
        }
    }
}

/// The message for a DDL error.
pub open spec fn ddl_error_message(e: DdlErrorView) -> Seq<char>
    decreases e,
{
    match e {
        DdlErrorView::Parse(m) => m,
        DdlErrorView::Migration { filename, source } => "in migration '"@ + filename + "': "@
            + ddl_error_message(*source),
        DdlErrorView::UnsupportedDdl(m) => m,
        DdlErrorView::TypeNotFound(m) => m,
        DdlErrorView::TableNotFound(m) => m,
        DdlErrorView::DuplicateObject(m) => m,
        DdlErrorView::ExtensionError(m) => m,
        DdlErrorView::DependencyError(m) => m,
        DdlErrorView::ViewAnalysis { view, source } => analyze_error_message(source)
            + " (while analyzing view '"@ + view + "')"@,
        DdlErrorView::Internal(m) => m,
    }
}

/// What a call returned, over the views.
pub open spec fn ddl_outcome<T>(r: Result<T, DdlError>) -> Result<T, DdlErrorView> {
    match r {
        Ok(x) => Ok(x),
        Err(e) => Err(e@),
    }
}

} // verus!
