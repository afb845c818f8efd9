//! The parsed form of SQL, as far as the analyzer reads it.

use crate::ddl::DdlError;
use crate::error::AnalyzeError;
use vstd::prelude::*;

verus! {

/// One part of a column reference.
#[derive(Debug)]
pub enum NamePart {
    Name(String),
    Star,
    Other,
}

/// What a literal holds.
#[derive(Debug, Clone, Copy, PartialEq, Eq, Structural)]
pub enum ConstValue {
    Null,
    Integer,
    Float,
    Boolean,
    Text,
    Bits,
    Missing,
}

/// A type as it is written.
#[derive(Debug)]
pub struct TypeName {
    pub names: Vec<String>,
    /// The OID where the parser already knows it, or zero.
    pub type_oid: u32,
    /// The encoded modifier, such as the length in `varchar(10)`, or why it is not one.
    pub typmod: Result<Option<i32>, DdlError>,
    pub is_array: bool,
    pub setof: bool,
}

/// The form of an operator expression.
#[derive(Debug, Clone, Copy, PartialEq, Eq, Structural)]
pub enum AExprKind {
    Op,
    OpAny,
    OpAll,
    Distinct,
    NotDistinct,
    NullIf,
    In,
    Like,
    Ilike,
    Similar,
    Between,
    NotBetween,
    BetweenSym,
    NotBetweenSym,
}

/// The form of a subquery expression.
#[derive(Debug, Clone, Copy, PartialEq, Eq, Structural)]
pub enum SubLinkType {
    Exists,
    All,
    Any,
    RowCompare,
    Expr,
    MultiExpr,
    Array,
    Cte,
}

/// The form of a grouping set.
#[derive(Debug, Clone, Copy, PartialEq, Eq, Structural)]
pub enum GroupingSetKind {
    Empty,
    Simple,
    Rollup,
    Cube,
    Sets,
    Undefined,
}

#[derive(Debug)]
pub struct ColumnRef {
    pub fields: Vec<NamePart>,
}

#[derive(Debug)]
pub struct TypeCast {
    pub arg: Option<Box<Node>>,
    pub target: Option<TypeName>,
}

#[derive(Debug)]
pub struct WindowDef {
    pub partition_clause: Vec<Node>,
    pub order_clause: Vec<Node>,
    pub start_offset: Option<Box<Node>>,
    pub end_offset: Option<Box<Node>>,
}

#[derive(Debug)]
pub struct FuncCall {
    pub funcname: Vec<String>,
    pub args: Vec<Node>,
    pub agg_order: Vec<Node>,
    pub agg_filter: Option<Box<Node>>,
    pub over: Option<Box<WindowDef>>,
    pub agg_star: bool,
}

#[derive(Debug)]
pub struct AExpr {
    pub kind: AExprKind,
    pub name: Vec<String>,
    pub lexpr: Option<Box<Node>>,
    pub rexpr: Option<Box<Node>>,
}

#[derive(Debug)]
pub struct CaseExpr {
    pub arg: Option<Box<Node>>,
    pub args: Vec<Node>,
    pub defresult: Option<Box<Node>>,
}

#[derive(Debug)]
pub struct CaseWhen {
    pub expr: Option<Box<Node>>,
    pub result: Option<Box<Node>>,
}

/// What is noted of a parameter while a subquery is analyzed.
#[derive(Debug, Clone, Copy, PartialEq, Eq, Structural)]
pub enum ParamEvent {
    /// It occurs.
    Seen { number: i32 },
    /// It is used as a value of a type.
    Typed { number: i32, type_oid: u32 },
    /// It is written to a column that is nullable or not.
    Nullable { number: i32, nullable: bool },
}

/// A column that a subquery gives.
#[derive(Debug, Clone, Copy, PartialEq, Eq, Structural)]
pub struct SubqueryColumn {
    pub type_oid: u32,
    pub nullable: bool,
}

/// What the analysis of a subquery, in the scope of its outer query, gave.
#[derive(Debug)]
pub struct SubqueryAnalysis {
    /// What was noted of parameters, in order.
    pub params: Vec<ParamEvent>,
    /// The columns of the subquery, or why it could not be analyzed.
    pub outcome: Result<Vec<SubqueryColumn>, AnalyzeError>,
}

#[derive(Debug)]
pub struct SubLink {
    pub kind: SubLinkType,
    pub testexpr: Option<Box<Node>>,
    pub subselect: Option<Box<Node>>,
    pub analysis: SubqueryAnalysis,
}

#[derive(Debug)]
pub struct MinMaxExpr {
    pub args: Vec<Node>,
    /// The result type where the parser already knows it, or zero.
    pub minmaxtype: u32,
}

#[derive(Debug)]
pub struct AIndirection {
    pub arg: Option<Box<Node>>,
    pub indirection: Vec<Node>,
}

#[derive(Debug)]
pub struct AIndices {
    pub is_slice: bool,
    pub lidx: Option<Box<Node>>,
    pub uidx: Option<Box<Node>>,
}

#[derive(Debug)]
pub struct RangeVar {
    /// The schema, or the empty text.
    pub schemaname: String,
    pub relname: String,
    pub alias: Option<String>,
}

#[derive(Debug)]
pub struct JoinExpr {
    pub larg: Option<Box<Node>>,
    pub rarg: Option<Box<Node>>,
    pub quals: Option<Box<Node>>,
}

#[derive(Debug)]
pub struct RangeSubselect {
    pub alias: Option<String>,
    pub subquery: Option<Box<Node>>,
}

#[derive(Debug)]
pub struct RangeFunction {
    pub alias: Option<String>,
    pub functions: Vec<Node>,
}

#[derive(Debug)]
pub struct CommonTableExpr {
    pub ctename: String,
    pub ctequery: Option<Box<Node>>,
    pub aliascolnames: Vec<String>,
}

#[derive(Debug)]
pub struct SelectStmt {
    pub larg: Option<Box<SelectStmt>>,
    pub rarg: Option<Box<SelectStmt>>,
    pub ctes: Vec<Node>,
    pub from_clause: Vec<Node>,
    pub target_list: Vec<Node>,
    pub where_clause: Option<Box<Node>>,
    pub group_clause: Vec<Node>,
    pub having_clause: Option<Box<Node>>,
    pub sort_clause: Vec<Node>,
    pub distinct_clause: Vec<Node>,
}

#[derive(Debug)]
pub struct GroupingSet {
    pub kind: GroupingSetKind,
    pub content: Vec<Node>,
}

/// A node of the tree.
#[derive(Debug)]
pub enum Node {
    /// A node without content.
    Empty,
    ColumnRef(ColumnRef),
    AConst(ConstValue),
    TypeCast(Box<TypeCast>),
    FuncCall(Box<FuncCall>),
    AExpr(Box<AExpr>),
    BoolExpr(Vec<Node>),
    NullTest(Option<Box<Node>>),
    BooleanTest(Option<Box<Node>>),
    CoalesceExpr(Vec<Node>),
    CaseExpr(Box<CaseExpr>),
    CaseWhen(Box<CaseWhen>),
    SubLink(Box<SubLink>),
    ParamRef(i32),
    MinMaxExpr(Box<MinMaxExpr>),
    NullIfExpr(Vec<Node>),
    AIndirection(Box<AIndirection>),
    AIndices(Box<AIndices>),
    AArrayExpr(Vec<Node>),
    ArrayExpr(Vec<Node>),
    RowExpr(Vec<Node>),
    SetToDefault,
    CollateClause(Option<Box<Node>>),
    List(Vec<Node>),
    Text(String),
    SelectStmt(Box<SelectStmt>),
    ResTarget(Option<Box<Node>>),
    SortBy(Option<Box<Node>>),
    RangeVar(RangeVar),
    JoinExpr(Box<JoinExpr>),
    RangeSubselect(Box<RangeSubselect>),
    RangeFunction(Box<RangeFunction>),
    CommonTableExpr(Box<CommonTableExpr>),
    GroupingSet(Box<GroupingSet>),
    /// A node that the analyzer does not read, by the name of its kind.
    Other(String),
}

/// The parts of a column reference that are names, in order.
pub open spec fn part_names(fields: Seq<NamePart>) -> Seq<Seq<char>>
    decreases fields.len(),
{
    if fields.len() == 0 {
        Seq::empty()
    } else {
        let rest = part_names(fields.drop_last());
        match fields.last() {
            NamePart::Name(s) => rest.push(s@),
            _ => rest,
        }
    }
}

/// The parts of a column reference that are names, in order.
pub fn extract_string_fields(fields: &Vec<NamePart>) -> (r: Vec<String>)
    ensures
        crate::text::texts(r@) == part_names(fields@),
{
    let mut r: Vec<String> = Vec::new();
    let mut i: usize = 0;
    proof {
        assert(crate::text::texts(r@) =~= part_names(fields@.take(0)));
    }
    while i < fields.len()
        invariant
            i <= fields@.len(),
            crate::text::texts(r@) == part_names(fields@.take(i as int)),
        decreases fields.len() - i,
    {
        proof {
            assert(fields@.take(i + 1).drop_last() =~= fields@.take(i as int));
        }
        match &fields[i] {
            NamePart::Name(s) => {
                let ghost before = crate::text::texts(r@);
                r.push(s.clone());
                proof {
                    assert(crate::text::texts(r@) =~= before.push(s@));
                }
            },
            _ => {},
        }
        i = i + 1;
    }
    proof {
        assert(fields@.take(i as int) =~= fields@);
    }
    r
}

/// A name that may be qualified by a schema: its last part, and the part before.
pub open spec fn qualified(parts: Seq<Seq<char>>) -> Option<(Option<Seq<char>>, Seq<char>)> {
    if parts.len() == 1 {
        Some((None, parts[0]))
    } else if parts.len() == 2 {
        Some((Some(parts[0]), parts[1]))
    } else {
        None
    }
}

/// The name of a node's kind.
pub open spec fn kind_text(n: Node) -> Seq<char> {
    match n {
        Node::Empty => "Empty"@,
        Node::ColumnRef(_) => "ColumnRef"@,
        Node::AConst(_) => "AConst"@,
        Node::TypeCast(_) => "TypeCast"@,
        Node::FuncCall(_) => "FuncCall"@,
        Node::AExpr(_) => "AExpr"@,
        Node::BoolExpr(_) => "BoolExpr"@,
        Node::NullTest(_) => "NullTest"@,
        Node::BooleanTest(_) => "BooleanTest"@,
        Node::CoalesceExpr(_) => "CoalesceExpr"@,
        Node::CaseExpr(_) => "CaseExpr"@,
        Node::CaseWhen(_) => "CaseWhen"@,
        Node::SubLink(_) => "SubLink"@,
        Node::ParamRef(_) => "ParamRef"@,
        Node::MinMaxExpr(_) => "MinMaxExpr"@,
        Node::NullIfExpr(_) => "NullIfExpr"@,
        Node::AIndirection(_) => "AIndirection"@,
        Node::AIndices(_) => "AIndices"@,
        Node::AArrayExpr(_) => "AArrayExpr"@,
        Node::ArrayExpr(_) => "ArrayExpr"@,
        Node::RowExpr(_) => "RowExpr"@,
        Node::SetToDefault => "SetToDefault"@,
        Node::CollateClause(_) => "CollateClause"@,
        Node::List(_) => "List"@,
        Node::Text(_) => "String"@,
        Node::SelectStmt(_) => "SelectStmt"@,
        Node::ResTarget(_) => "ResTarget"@,
        Node::SortBy(_) => "SortBy"@,
        Node::RangeVar(_) => "RangeVar"@,
        Node::JoinExpr(_) => "JoinExpr"@,
        Node::RangeSubselect(_) => "RangeSubselect"@,
        Node::RangeFunction(_) => "RangeFunction"@,
        Node::CommonTableExpr(_) => "CommonTableExpr"@,
        Node::GroupingSet(_) => "GroupingSet"@,
        Node::Other(s) => s@,
    }
}

/// The name of a node's kind.
pub fn kind_name(n: &Node) -> (r: &str)
    ensures
        r@ == kind_text(*n),
{
    match n {
        Node::Empty => "Empty",
        Node::ColumnRef(_) => "ColumnRef",
        Node::AConst(_) => "AConst",
        Node::TypeCast(_) => "TypeCast",
        Node::FuncCall(_) => "FuncCall",
        Node::AExpr(_) => "AExpr",
        Node::BoolExpr(_) => "BoolExpr",
        Node::NullTest(_) => "NullTest",
        Node::BooleanTest(_) => "BooleanTest",
        Node::CoalesceExpr(_) => "CoalesceExpr",
        Node::CaseExpr(_) => "CaseExpr",
        Node::CaseWhen(_) => "CaseWhen",
        Node::SubLink(_) => "SubLink",
        Node::ParamRef(_) => "ParamRef",
        Node::MinMaxExpr(_) => "MinMaxExpr",
        Node::NullIfExpr(_) => "NullIfExpr",
        Node::AIndirection(_) => "AIndirection",
        Node::AIndices(_) => "AIndices",
        Node::AArrayExpr(_) => "AArrayExpr",
        Node::ArrayExpr(_) => "ArrayExpr",
        Node::RowExpr(_) => "RowExpr",
        Node::SetToDefault => "SetToDefault",
        Node::CollateClause(_) => "CollateClause",
        Node::List(_) => "List",
        Node::Text(_) => "String",
        Node::SelectStmt(_) => "SelectStmt",
        Node::ResTarget(_) => "ResTarget",
        Node::SortBy(_) => "SortBy",
        Node::RangeVar(_) => "RangeVar",
        Node::JoinExpr(_) => "JoinExpr",
        Node::RangeSubselect(_) => "RangeSubselect",
        Node::RangeFunction(_) => "RangeFunction",
        Node::CommonTableExpr(_) => "CommonTableExpr",
        Node::GroupingSet(_) => "GroupingSet",
        Node::Other(s) => s.as_str(),
    }
}

} // verus!
