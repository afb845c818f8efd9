//! Errors of the static analyzer.

use crate::lexer::{lex_error_message, LexError};
use crate::text::{concat2, concat4, decimal, decimal_text};
use vstd::prelude::*;

verus! {

/// What can go wrong while a query is analyzed. The messages that name a missing
/// object read as PostgreSQL's own.
#[derive(Debug, Clone, PartialEq, Eq)]
pub enum AnalyzeError {
    /// The SQL could not be lexed (unclosed string, comment, ...).
    Lex(String),
    /// The SQL could not be parsed.
    Parse(String),
    /// A relation is not in scope or not in the catalog.
    UndefinedTable(String),
    /// A column or record field is not in scope.
    UndefinedColumn(String),
    /// A column name fits more than one source.
    AmbiguousColumn(String),
    /// A type is not in the catalog.
    UndefinedType { oid: u32, context: String },
    /// A function could not be resolved.
    UndefinedFunction(String),
    /// An operator does not exist for its operand types.
    UndefinedOperator(String),
    /// Neither operand of an operator has a known type.
    IndeterminateType(String),
    /// The type of an expression cannot be coerced to the expected one.
    TypeMismatch { actual: String, expected: String, context: String },
    /// The query breaks a rule of SQL.
    Invalid(String),
    /// The analyzer does not know this feature.
    Unsupported(String),
    /// The parser reported a kind of join that the analyzer does not know.
    UnsupportedJoinType(i32),
    /// Something that the analyzer relies on does not hold.
    Internal(String),
}

#[verifier::ext_equal]
pub enum AnalyzeErrorView {
    Lex(Seq<char>),
    Parse(Seq<char>),
    UndefinedTable(Seq<char>),
    UndefinedColumn(Seq<char>),
    AmbiguousColumn(Seq<char>),
    UndefinedType { oid: u32, context: Seq<char> },
    UndefinedFunction(Seq<char>),
    UndefinedOperator(Seq<char>),
    IndeterminateType(Seq<char>),
    TypeMismatch { actual: Seq<char>, expected: Seq<char>, context: Seq<char> },
    Invalid(Seq<char>),
    Unsupported(Seq<char>),
    UnsupportedJoinType(i32),
    Internal(Seq<char>),
}

impl View for AnalyzeError {
    type V = AnalyzeErrorView;

    open spec fn view(&self) -> AnalyzeErrorView {
        match *self {
            AnalyzeError::Lex(m) => AnalyzeErrorView::Lex(m@),
            AnalyzeError::Parse(m) => AnalyzeErrorView::Parse(m@),
            AnalyzeError::UndefinedTable(m) => AnalyzeErrorView::UndefinedTable(m@),
            AnalyzeError::UndefinedColumn(m) => AnalyzeErrorView::UndefinedColumn(m@),
            AnalyzeError::AmbiguousColumn(m) => AnalyzeErrorView::AmbiguousColumn(m@),
            AnalyzeError::UndefinedType { oid, context } => AnalyzeErrorView::UndefinedType {
                oid,
                context: context@,
            },
            AnalyzeError::UndefinedFunction(m) => AnalyzeErrorView::UndefinedFunction(m@),
            AnalyzeError::UndefinedOperator(m) => AnalyzeErrorView::UndefinedOperator(m@),
            AnalyzeError::IndeterminateType(m) => AnalyzeErrorView::IndeterminateType(m@),
            AnalyzeError::TypeMismatch { actual, expected, context } =>
                AnalyzeErrorView::TypeMismatch {
                actual: actual@,
                expected: expected@,
                context: context@,
            },
            AnalyzeError::Invalid(m) => AnalyzeErrorView::Invalid(m@),
            AnalyzeError::Unsupported(m) => AnalyzeErrorView::Unsupported(m@),
            AnalyzeError::UnsupportedJoinType(n) => AnalyzeErrorView::UnsupportedJoinType(n),
            AnalyzeError::Internal(m) => AnalyzeErrorView::Internal(m@),
        }
    }
}

/// The decimal notation of a signed number.
pub open spec fn signed_text(n: int) -> Seq<char> {
    if n < 0 {
        "-"@ + decimal_text((-n) as nat)
    } else {
        decimal_text(n as nat)
    }
}

/// Writes a signed number in decimal notation.
pub fn signed_decimal(n: i64) -> (r: String)
    ensures
        r@ == signed_text(n as int),
{
    if n < 0 {
        let magnitude: u64 = if n == i64::MIN {
            0x8000_0000_0000_0000
        } else {
            (-n) as u64
        };
        concat2("-", decimal(magnitude).as_str())
    } else {
        decimal(n as u64)
    }
}

/// The message for an analyzer error.
pub open spec fn analyze_error_message(e: AnalyzeErrorView) -> Seq<char> {
    match e {
        AnalyzeErrorView::Lex(m) => "SQL lex error: "@ + m,
        AnalyzeErrorView::Parse(m) => "SQL parse error: "@ + m,
        AnalyzeErrorView::UndefinedTable(m) => m,
        AnalyzeErrorView::UndefinedColumn(m) => m,
        AnalyzeErrorView::AmbiguousColumn(m) => m,
        AnalyzeErrorView::UndefinedType { oid, context } => "unknown type OID "@ + decimal_text(
            oid as nat,
        ) + " for "@ + context,
        AnalyzeErrorView::UndefinedFunction(m) => m,
        AnalyzeErrorView::UndefinedOperator(m) => m,
        AnalyzeErrorView::IndeterminateType(m) => m,
        AnalyzeErrorView::TypeMismatch { actual, expected, context } => "type mismatch: "@ + actual
            + " cannot be coerced to "@ + expected + " ("@ + context + ")"@,
        AnalyzeErrorView::Invalid(m) => m,
        AnalyzeErrorView::Unsupported(m) => "unsupported SQL feature: "@ + m,
        AnalyzeErrorView::UnsupportedJoinType(n) => "unsupported join type: "@ + signed_text(
            n as int,
        ),
        AnalyzeErrorView::Internal(m) => "internal analyzer error: "@ + m,
    }
}

impl AnalyzeError {
    /// The message to show for this error.
    pub fn message(&self) -> (r: String)
        ensures
            r@ == analyze_error_message(self@),
    {
        match self {
            AnalyzeError::Lex(m) => concat2("SQL lex error: ", m.as_str()),
            AnalyzeError::Parse(m) => concat2("SQL parse error: ", m.as_str()),
            AnalyzeError::UndefinedTable(m) => m.clone(),
            AnalyzeError::UndefinedColumn(m) => m.clone(),
            AnalyzeError::AmbiguousColumn(m) => m.clone(),
            AnalyzeError::UndefinedType { oid, context } => concat4(
                "unknown type OID ",
                decimal(*oid as u64).as_str(),
                " for ",
                context.as_str(),
            ),
            AnalyzeError::UndefinedFunction(m) => m.clone(),
            AnalyzeError::UndefinedOperator(m) => m.clone(),
            AnalyzeError::IndeterminateType(m) => m.clone(),
            AnalyzeError::TypeMismatch { actual, expected, context } => {
                let head: String = concat4(
                    "type mismatch: ",
                    actual.as_str(),
                    " cannot be coerced to ",
                    expected.as_str(),
                );
                concat4(head.as_str(), " (", context.as_str(), ")")
            },
            AnalyzeError::Invalid(m) => m.clone(),
            AnalyzeError::Unsupported(m) => concat2("unsupported SQL feature: ", m.as_str()),
            AnalyzeError::UnsupportedJoinType(n) => concat2(
                "unsupported join type: ",
                signed_decimal(*n as i64).as_str(),
            ),
            AnalyzeError::Internal(m) => concat2("internal analyzer error: ", m.as_str()),
        }
    }

    /// The analyzer error for a lexer error.
    pub fn from_lex(e: &LexError) -> (r: AnalyzeError)
        ensures
            r@ == AnalyzeErrorView::Lex(lex_error_message(e@)),
    {
        AnalyzeError::Lex(e.message())
    }

    /// A copy of this error.
    pub fn copy(&self) -> (r: AnalyzeError)
        ensures
            r@ == self@,
    {
        match self {
            AnalyzeError::Lex(m) => AnalyzeError::Lex(m.clone()),
            AnalyzeError::Parse(m) => AnalyzeError::Parse(m.clone()),
            AnalyzeError::UndefinedTable(m) => AnalyzeError::UndefinedTable(m.clone()),
            AnalyzeError::UndefinedColumn(m) => AnalyzeError::UndefinedColumn(m.clone()),
            AnalyzeError::AmbiguousColumn(m) => AnalyzeError::AmbiguousColumn(m.clone()),
            AnalyzeError::UndefinedType { oid, context } => AnalyzeError::UndefinedType {
                oid: *oid,
                context: context.clone(),
            },
            AnalyzeError::UndefinedFunction(m) => AnalyzeError::UndefinedFunction(m.clone()),
            AnalyzeError::UndefinedOperator(m) => AnalyzeError::UndefinedOperator(m.clone()),
            AnalyzeError::IndeterminateType(m) => AnalyzeError::IndeterminateType(m.clone()),
            AnalyzeError::TypeMismatch { actual, expected, context } =>
                AnalyzeError::TypeMismatch {
                actual: actual.clone(),
                expected: expected.clone(),
                context: context.clone(),
            },
            AnalyzeError::Invalid(m) => AnalyzeError::Invalid(m.clone()),
            AnalyzeError::Unsupported(m) => AnalyzeError::Unsupported(m.clone()),
            AnalyzeError::UnsupportedJoinType(n) => AnalyzeError::UnsupportedJoinType(*n),
            AnalyzeError::Internal(m) => AnalyzeError::Internal(m.clone()),
        }
    }
}

} // verus!
