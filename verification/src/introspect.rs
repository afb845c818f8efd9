//! What a prepared statement says of its parameters and columns, and the Rust types
//! that stand for their types.

use crate::text::{
    characters, concat2, concat3, concat5, decimal, decimal_text, same_text, slice_text,
};
use crate::type_map::{from_oid, rust_name, supported_text, supported_type_names};
use vstd::prelude::*;

verus! {

/// The type of JSON values in binary form.
pub const JSONB_OID: u32 = 3802;

/// How many types may be nested in one another.
pub const MAX_RESOLVE_DEPTH: usize = 32;

/// The number of bytes in front of the query in the text that prepares it.
pub const PREPARE_PREFIX_LEN: usize = 28;

/// A type as the server describes it.
#[derive(Debug)]
pub struct WireType {
    pub oid: u32,
    pub schema: String,
    pub name: String,
    pub kind: WireKind,
}

/// What kind of type it is.
#[derive(Debug)]
pub enum WireKind {
    /// A domain over another type.
    Domain(Box<WireType>),
    Enum,
    /// An array of another type.
    Array(Box<WireType>),
    Other,
}

/// The names of types for which the project names a Rust type of its own.
#[derive(Debug)]
pub struct TypeNames {
    pub domains: Vec<(String, String)>,
    pub enums: Vec<(String, String)>,
    pub custom_types: Vec<(String, String)>,
}

/// The entry of a list of pairs with this name.
pub open spec fn named(list: Seq<(String, String)>, name: Seq<char>) -> Option<Seq<char>>
    decreases list.len(),
{
    if list.len() == 0 {
        None
    } else if list[0].0@ == name {
        Some(list[0].1@)
    } else {
        named(list.drop_first(), name)
    }
}

fn find_named(list: &Vec<(String, String)>, name: &str) -> (r: Option<String>)
    ensures
        match r {
            Some(t) => named(list@, name@) == Some(t@),
            None => named(list@, name@) is None,
        },
{
    let mut i: usize = 0;
    proof {
        assert(list@.skip(0) =~= list@);
    }
    while i < list.len()
        invariant
            i <= list@.len(),
            named(list@, name@) == named(list@.skip(i as int), name@),
        decreases list.len() - i,
    {
        proof {
            assert(list@.skip(i as int).drop_first() =~= list@.skip(i + 1));
        }
        if same_text(&list[i].0, name) {
            return Some(list[i].1.as_str().to_owned());
        }
        i = i + 1;
    }
    None
}

// ── Types ───────────────────────────────────────────────────────────────────

/// What stands for a type in Rust.
#[derive(Debug)]
pub struct ResolvedType {
    pub effective_oid: u32,
    pub rust_type: Option<String>,
    pub domain_rust_type: Option<String>,
    pub enum_rust_type: Option<String>,
}

#[verifier::ext_equal]
pub struct ResolvedView {
    pub effective_oid: u32,
    pub rust_type: Option<Seq<char>>,
    pub domain_rust_type: Option<Seq<char>>,
    pub enum_rust_type: Option<Seq<char>>,
}

/// The value of an optional text.
pub open spec fn text_value(t: Option<String>) -> Option<Seq<char>> {
    match t {
        Some(s) => Some(s@),
        None => None,
    }
}

impl View for ResolvedType {
    type V = ResolvedView;

    open spec fn view(&self) -> ResolvedView {
        ResolvedView {
            effective_oid: self.effective_oid,
            rust_type: text_value(self.rust_type),
            domain_rust_type: text_value(self.domain_rust_type),
            enum_rust_type: text_value(self.enum_rust_type),
        }
    }
}

/// A type for which only a Rust type is known, or not even that.
pub open spec fn plain_type(oid: u32, rust_type: Option<Seq<char>>) -> ResolvedView {
    ResolvedView { effective_oid: oid, rust_type, domain_rust_type: None, enum_rust_type: None }
}

/// What stands for a type that is nested in `depth` others: a domain over JSON that
/// the project names is read as JSON and converted, any other domain is its base
/// type; an enum is a text; an array is a vector; any other type is one that is
/// supported, or one that the project names with or without its schema.
pub open spec fn resolved_at(t: WireType, names: TypeNames, depth: int) -> ResolvedView
    decreases t,
{
    if depth > MAX_RESOLVE_DEPTH {
        plain_type(t.oid, None)
    } else {
        match t.kind {
            WireKind::Domain(base) => if base.oid == JSONB_OID && named(
                names.domains@,
                t.name@,
            ) is Some {
                ResolvedView {
                    effective_oid: JSONB_OID,
                    rust_type: Some("serde_json::Value"@),
                    domain_rust_type: named(names.domains@, t.name@),
                    enum_rust_type: None,
                }
            } else {
                resolved_at(*base, names, depth + 1)
            },
            WireKind::Enum => ResolvedView {
                effective_oid: t.oid,
                rust_type: Some("String"@),
                domain_rust_type: None,
                enum_rust_type: named(names.enums@, t.name@),
            },
            WireKind::Array(element) => plain_type(
                t.oid,
                match resolved_at(*element, names, depth + 1).rust_type {
                    Some(e) => Some("Vec<"@ + e + ">"@),
                    None => None,
                },
            ),
            WireKind::Other => plain_type(
                t.oid,
                if rust_name(t.oid) is Some {
                    rust_name(t.oid)
                } else if named(names.custom_types@, t.schema@ + "."@ + t.name@) is Some {
                    named(names.custom_types@, t.schema@ + "."@ + t.name@)
                } else {
                    named(names.custom_types@, t.name@)
                },
            ),
        }
    }
}

fn plain(oid: u32, rust_type: Option<String>) -> (r: ResolvedType)
    ensures
        r@ == plain_type(oid, text_value(rust_type)),
{
    ResolvedType { effective_oid: oid, rust_type, domain_rust_type: None, enum_rust_type: None }
}

fn resolve_type_inner(t: &WireType, names: &TypeNames, depth: usize) -> (r: ResolvedType)
    requires
        depth <= MAX_RESOLVE_DEPTH + 1,
    ensures
        r@ == resolved_at(*t, *names, depth as int),
    decreases t,
{
    if depth > MAX_RESOLVE_DEPTH {
        return plain(t.oid, None);
    }
    match &t.kind {
        WireKind::Domain(base) => {
            if base.oid == JSONB_OID {
                match find_named(&names.domains, &t.name) {
                    Some(path) => {
                        return ResolvedType {
                            effective_oid: JSONB_OID,
                            rust_type: Some("serde_json::Value".to_string()),
                            domain_rust_type: Some(path),
                            enum_rust_type: None,
                        };
                    },
                    None => {},
                }
            }
            resolve_type_inner(base, names, depth + 1)
        },
        WireKind::Enum => ResolvedType {
            effective_oid: t.oid,
            rust_type: Some("String".to_string()),
            domain_rust_type: None,
            enum_rust_type: find_named(&names.enums, &t.name),
        },
        WireKind::Array(element) => {
            let inner: ResolvedType = resolve_type_inner(element, names, depth + 1);
            match inner.rust_type {
                Some(e) => plain(t.oid, Some(concat3("Vec<", &e, ">"))),
                None => plain(t.oid, None),
            }
        },
        WireKind::Other => {
            match from_oid(t.oid) {
                Some(info) => plain(t.oid, Some(info.rust_type.to_string())),
                None => {
                    let qualified: String = concat3(&t.schema, ".", &t.name);
                    match find_named(&names.custom_types, &qualified) {
                        Some(rt) => plain(t.oid, Some(rt)),
                        None => plain(t.oid, find_named(&names.custom_types, &t.name)),
                    }
                },
            }
        },
    }
}

/// What stands for a type in Rust.
pub fn resolve_type(t: &WireType, names: &TypeNames) -> (r: ResolvedType)
    ensures
        r@ == resolved_at(*t, *names, 0),
{
    resolve_type_inner(t, names, 0)
}

// ── Errors ──────────────────────────────────────────────────────────────────

/// Why a query cannot be described.
#[derive(Debug)]
pub enum IntrospectError {
    /// What the server said.
    Postgres(String),
    UnknownType { oid: u32, column: String, pg_name: String },
    NullabilityCheck(String),
}

pub enum IntrospectErrorView {
    Postgres(Seq<char>),
    UnknownType { oid: u32, column: Seq<char>, pg_name: Seq<char> },
    NullabilityCheck(Seq<char>),
}

impl View for IntrospectError {
    type V = IntrospectErrorView;

    open spec fn view(&self) -> IntrospectErrorView {
        match *self {
            IntrospectError::Postgres(m) => IntrospectErrorView::Postgres(m@),
            IntrospectError::UnknownType { oid, column, pg_name } => IntrospectErrorView::UnknownType {
                oid,
                column: column@,
                pg_name: pg_name@,
            },
            IntrospectError::NullabilityCheck(m) => IntrospectErrorView::NullabilityCheck(m@),
        }
    }
}

/// What is said of an error.
pub open spec fn introspect_text(e: IntrospectErrorView) -> Seq<char> {
    match e {
        IntrospectErrorView::Postgres(m) => "postgres error: "@ + m,
        IntrospectErrorView::UnknownType { oid, column, pg_name } => {
            "unsupported PostgreSQL type '"@ + pg_name + "' (OID "@ + decimal_text(oid as nat)
                + ") for column '"@ + (column + "'. Supported types: "@ + supported_text()
                + ". If this is a custom type, consider using a domain over a supported base type."@)
        },
        IntrospectErrorView::NullabilityCheck(m) => "nullability check failed: "@ + m,
    }
}

impl IntrospectError {
    /// What is said of this error.
    pub fn message(&self) -> (r: String)
        ensures
            r@ == introspect_text(self@),
    {
        match self {
            IntrospectError::Postgres(m) => concat2("postgres error: ", m),
            IntrospectError::UnknownType { oid, column, pg_name } => {
                let head: String = concat5(
                    "unsupported PostgreSQL type '",
                    pg_name,
                    "' (OID ",
                    &decimal(*oid as u64),
                    ") for column '",
                );
                let tail: String = crate::text::concat4(
                    column,
                    "'. Supported types: ",
                    supported_type_names(),
                    ". If this is a custom type, consider using a domain over a supported base type.",
                );
                concat2(&head, &tail)
            },
            IntrospectError::NullabilityCheck(m) => concat2("nullability check failed: ", m),
        }
    }
}

// ── Parameters ──────────────────────────────────────────────────────────────

/// A parameter of a described query.
#[derive(Debug)]
pub struct ParamInfo {
    pub pg_type_oid: u32,
    pub rust_type: String,
    pub nullable: bool,
    pub domain_rust_type: Option<String>,
    pub enum_rust_type: Option<String>,
}

#[verifier::ext_equal]
pub struct ParamInfoView {
    pub pg_type_oid: u32,
    pub rust_type: Seq<char>,
    pub nullable: bool,
    pub domain_rust_type: Option<Seq<char>>,
    pub enum_rust_type: Option<Seq<char>>,
}

impl View for ParamInfo {
    type V = ParamInfoView;

    open spec fn view(&self) -> ParamInfoView {
        ParamInfoView {
            pg_type_oid: self.pg_type_oid,
            rust_type: self.rust_type@,
            nullable: self.nullable,
            domain_rust_type: text_value(self.domain_rust_type),
            enum_rust_type: text_value(self.enum_rust_type),
        }
    }
}

/// A parameter of this type, which is not null; an error where no Rust type stands
/// for it.
pub open spec fn param_described(t: WireType, names: TypeNames) -> Result<
    ParamInfoView,
    IntrospectErrorView,
> {
    let r = resolved_at(t, names, 0);
    match r.rust_type {
        Some(rust_type) => Ok(
            ParamInfoView {
                pg_type_oid: r.effective_oid,
                rust_type,
                nullable: false,
                domain_rust_type: r.domain_rust_type,
                enum_rust_type: r.enum_rust_type,
            },
        ),
        None => Err(
            IntrospectErrorView::UnknownType {
                oid: t.oid,
                column: "$param("@ + t.name@ + ")"@,
                pg_name: t.name@,
            },
        ),
    }
}

/// The first `n` parameters, or the first error.
pub open spec fn params_described(types: Seq<WireType>, names: TypeNames, n: int) -> Result<
    Seq<ParamInfoView>,
    IntrospectErrorView,
>
    decreases n,
{
    if n <= 0 {
        Ok(Seq::empty())
    } else {
        match params_described(types, names, n - 1) {
            Ok(before) => match param_described(types[n - 1], names) {
                Ok(p) => Ok(before.push(p)),
                Err(e) => Err(e),
            },
            Err(e) => Err(e),
        }
    }
}

/// The values of a list of parameters.
pub open spec fn param_info_views(v: Seq<ParamInfo>) -> Seq<ParamInfoView> {
    v.map_values(|p: ParamInfo| p@)
}

proof fn lemma_param_error(types: Seq<WireType>, names: TypeNames, k: int, n: int)
    requires
        0 <= k <= n,
        params_described(types, names, k) is Err,
    ensures
        params_described(types, names, n) == params_described(types, names, k),
    decreases n,
{
    if k < n {
        lemma_param_error(types, names, k, n - 1);
    }
}

/// The outcome of describing, as a mathematical value.
pub open spec fn params_outcome(r: Result<Vec<ParamInfo>, IntrospectError>) -> Result<
    Seq<ParamInfoView>,
    IntrospectErrorView,
> {
    match r {
        Ok(v) => Ok(param_info_views(v@)),
        Err(e) => Err(e@),
    }
}

/// The parameters of a query, by the types that the server gave them.
pub fn build_params(types: &Vec<WireType>, names: &TypeNames) -> (r: Result<
    Vec<ParamInfo>,
    IntrospectError,
>)
    ensures
        params_outcome(r) == params_described(types@, *names, types@.len() as int),
{
    let mut v: Vec<ParamInfo> = Vec::new();
    let mut i: usize = 0;
    proof {
        assert(param_info_views(v@) =~= Seq::empty());
    }
    while i < types.len()
        invariant
            i <= types@.len(),
            params_described(types@, *names, i as int) == Ok::<
                Seq<ParamInfoView>,
                IntrospectErrorView,
            >(param_info_views(v@)),
        decreases types.len() - i,
    {
        let t: &WireType = &types[i];
        let ghost before = param_info_views(v@);
        let resolved: ResolvedType = resolve_type(t, names);
        match resolved.rust_type {
            Some(rust_type) => {
                v.push(
                    ParamInfo {
                        pg_type_oid: resolved.effective_oid,
                        rust_type,
                        nullable: false,
                        domain_rust_type: resolved.domain_rust_type,
                        enum_rust_type: resolved.enum_rust_type,
                    },
                );
            },
            None => {
                proof {
                    lemma_param_error(types@, *names, i + 1, types@.len() as int);
                }
                return Err(
                    IntrospectError::UnknownType {
                        oid: t.oid,
                        column: concat3("$param(", &t.name, ")"),
                        pg_name: t.name.as_str().to_owned(),
                    },
                );
            },
        }
        proof {
            assert(param_info_views(v@) =~= before.push(
                param_described(types@[i as int], *names)->Ok_0,
            ));
        }
        i = i + 1;
    }
    Ok(v)
}

// ── Columns ─────────────────────────────────────────────────────────────────

/// A name without a mark behind it, and what the mark says: `!` that the value is
/// not null, `?` that it can be null.
pub open spec fn mark_of(name: Seq<char>) -> (Seq<char>, Option<bool>) {
    if name.len() > 0 && name.last() == '!' {
        (name.drop_last(), Some(false))
    } else if name.len() > 0 && name.last() == '?' {
        (name.drop_last(), Some(true))
    } else {
        (name, None)
    }
}

/// A column name without its mark, and what the mark says.
pub fn parse_nullability_annotation(name: &str) -> (r: (String, Option<bool>))
    ensures
        (r.0@, r.1) == mark_of(name@),
{
    let chars: Vec<char> = characters(name);
    let n: usize = chars.len();
    if n > 0 && chars[n - 1] == '!' {
        let front: String = slice_text(&chars, 0, n - 1);
        proof {
            assert(front@ =~= name@.drop_last());
        }
        (front, Some(false))
    } else if n > 0 && chars[n - 1] == '?' {
        let front: String = slice_text(&chars, 0, n - 1);
        proof {
            assert(front@ =~= name@.drop_last());
        }
        (front, Some(true))
    } else {
        (name.to_owned(), None)
    }
}

/// A column that a prepared statement gives.
#[derive(Debug)]
pub struct WireColumn {
    pub name: String,
    pub ty: WireType,
    /// Whether the column comes from a column of a table.
    pub has_origin: bool,
    /// Whether that column can be null, where the server says so.
    pub origin_nullable: Option<bool>,
}

/// Whether a column can be null by where it comes from: one that comes from no table,
/// and one whose origin is unknown, can be.
pub open spec fn origin_says(c: WireColumn) -> bool {
    if c.has_origin {
        match c.origin_nullable {
            Some(nullable) => nullable,
            None => true,
        }
    } else {
        true
    }
}

/// What the last of the first `n` columns with this name says.
pub open spec fn nullable_by_name(columns: Seq<WireColumn>, name: Seq<char>, n: int) -> bool
    decreases n,
{
    if n <= 0 {
        false
    } else if columns[n - 1].name@ == name {
        origin_says(columns[n - 1])
    } else {
        nullable_by_name(columns, name, n - 1)
    }
}

fn detect_nullability(columns: &Vec<WireColumn>, name: &str) -> (r: bool)
    ensures
        r == nullable_by_name(columns@, name@, columns@.len() as int),
{
    let mut i: usize = columns.len();
    while i > 0
        invariant
            i <= columns@.len(),
            nullable_by_name(columns@, name@, columns@.len() as int) == nullable_by_name(
                columns@,
                name@,
                i as int,
            ),
        decreases i,
    {
        let c: &WireColumn = &columns[i - 1];
        if same_text(&c.name, name) {
            return if c.has_origin {
                match c.origin_nullable {
                    Some(nullable) => nullable,
                    None => true,
                }
            } else {
                true
            };
        }
        i = i - 1;
    }
    false
}

/// A column of a described query.
#[derive(Debug)]
pub struct ColumnInfo {
    pub name: String,
    pub pg_type_oid: u32,
    pub rust_type: String,
    pub nullable: bool,
    pub domain_rust_type: Option<String>,
    pub enum_rust_type: Option<String>,
}

#[verifier::ext_equal]
pub struct ColumnInfoView {
    pub name: Seq<char>,
    pub pg_type_oid: u32,
    pub rust_type: Seq<char>,
    pub nullable: bool,
    pub domain_rust_type: Option<Seq<char>>,
    pub enum_rust_type: Option<Seq<char>>,
}

impl View for ColumnInfo {
    type V = ColumnInfoView;

    open spec fn view(&self) -> ColumnInfoView {
        ColumnInfoView {
            name: self.name@,
            pg_type_oid: self.pg_type_oid,
            rust_type: self.rust_type@,
            nullable: self.nullable,
            domain_rust_type: text_value(self.domain_rust_type),
            enum_rust_type: text_value(self.enum_rust_type),
        }
    }
}

/// One column: a mark behind the name decides whether it can be null, else where the
/// column comes from.
pub open spec fn column_described(columns: Seq<WireColumn>, i: int, names: TypeNames) -> Result<
    ColumnInfoView,
    IntrospectErrorView,
> {
    let c = columns[i];
    let r = resolved_at(c.ty, names, 0);
    let (name, mark) = mark_of(c.name@);
    match r.rust_type {
        Some(rust_type) => Ok(
            ColumnInfoView {
                name,
                pg_type_oid: r.effective_oid,
                rust_type,
                nullable: match mark {
                    Some(m) => m,
                    None => nullable_by_name(columns, c.name@, columns.len() as int),
                },
                domain_rust_type: r.domain_rust_type,
                enum_rust_type: r.enum_rust_type,
            },
        ),
        None => Err(
            IntrospectErrorView::UnknownType { oid: c.ty.oid, column: name, pg_name: c.ty.name@ },
        ),
    }
}

/// The first `n` columns, or the first error.
pub open spec fn columns_described(columns: Seq<WireColumn>, names: TypeNames, n: int) -> Result<
    Seq<ColumnInfoView>,
    IntrospectErrorView,
>
    decreases n,
{
    if n <= 0 {
        Ok(Seq::empty())
    } else {
        match columns_described(columns, names, n - 1) {
            Ok(before) => match column_described(columns, n - 1, names) {
                Ok(c) => Ok(before.push(c)),
                Err(e) => Err(e),
            },
            Err(e) => Err(e),
        }
    }
}

/// The values of a list of columns.
pub open spec fn column_info_views(v: Seq<ColumnInfo>) -> Seq<ColumnInfoView> {
    v.map_values(|c: ColumnInfo| c@)
}

proof fn lemma_column_error(columns: Seq<WireColumn>, names: TypeNames, k: int, n: int)
    requires
        0 <= k <= n,
        columns_described(columns, names, k) is Err,
    ensures
        columns_described(columns, names, n) == columns_described(columns, names, k),
    decreases n,
{
    if k < n {
        lemma_column_error(columns, names, k, n - 1);
    }
}

/// The outcome of describing, as a mathematical value.
pub open spec fn columns_outcome(r: Result<Vec<ColumnInfo>, IntrospectError>) -> Result<
    Seq<ColumnInfoView>,
    IntrospectErrorView,
> {
    match r {
        Ok(v) => Ok(column_info_views(v@)),
        Err(e) => Err(e@),
    }
}

/// The columns of a query, by what the server says of them.
pub fn build_columns(columns: &Vec<WireColumn>, names: &TypeNames) -> (r: Result<
    Vec<ColumnInfo>,
    IntrospectError,
>)
    ensures
        columns_outcome(r) == columns_described(columns@, *names, columns@.len() as int),
{
    let mut v: Vec<ColumnInfo> = Vec::new();
    let mut i: usize = 0;
    proof {
        assert(column_info_views(v@) =~= Seq::empty());
    }
    while i < columns.len()
        invariant
            i <= columns@.len(),
            columns_described(columns@, *names, i as int) == Ok::<
                Seq<ColumnInfoView>,
                IntrospectErrorView,
            >(column_info_views(v@)),
        decreases columns.len() - i,
    {
        let c: &WireColumn = &columns[i];
        let ghost before = column_info_views(v@);
        let (name, mark) = parse_nullability_annotation(&c.name);
        let resolved: ResolvedType = resolve_type(&c.ty, names);
        match resolved.rust_type {
            Some(rust_type) => {
                let nullable: bool = match mark {
                    Some(m) => m,
                    None => detect_nullability(columns, &c.name),
                };
                v.push(
                    ColumnInfo {
                        name,
                        pg_type_oid: resolved.effective_oid,
                        rust_type,
                        nullable,
                        domain_rust_type: resolved.domain_rust_type,
                        enum_rust_type: resolved.enum_rust_type,
                    },
                );
            },
            None => {
                proof {
                    lemma_column_error(columns@, *names, i + 1, columns@.len() as int);
                }
                return Err(
                    IntrospectError::UnknownType {
                        oid: c.ty.oid,
                        column: name,
                        pg_name: c.ty.name.as_str().to_owned(),
                    },
                );
            },
        }
        proof {
            assert(column_info_views(v@) =~= before.push(
                column_described(columns@, i as int, *names)->Ok_0,
            ));
        }
        i = i + 1;
    }
    Ok(v)
}

// ── Queries ─────────────────────────────────────────────────────────────────

/// The parameters and columns of a query.
#[derive(Debug)]
pub struct QueryInfo {
    pub params: Vec<ParamInfo>,
    pub columns: Vec<ColumnInfo>,
}

/// The text that prepares a query.
pub fn prepare_text(sql: &str) -> (r: String)
    ensures
        r@ == "PREPARE __cubos_sql_stmt AS "@ + sql@,
{
    concat2("PREPARE __cubos_sql_stmt AS ", sql)
}

/// The prefix of the text that prepares a query has the stated length.
pub proof fn law_prepare_prefix_has_its_length()
    ensures
        "PREPARE __cubos_sql_stmt AS "@.len() == PREPARE_PREFIX_LEN,
{
    reveal_strlit("PREPARE __cubos_sql_stmt AS ");
}

/// The description of a query that the server prepared: its parameters first, so that
/// an unknown parameter type is reported before an unknown column type.
pub fn introspect_query(
    types: &Vec<WireType>,
    columns: &Vec<WireColumn>,
    names: &TypeNames,
) -> (r: Result<QueryInfo, IntrospectError>)
    ensures
        match r {
            Ok(info) => params_described(types@, *names, types@.len() as int) == Ok::<
                Seq<ParamInfoView>,
                IntrospectErrorView,
            >(param_info_views(info.params@)) && columns_described(
                columns@,
                *names,
                columns@.len() as int,
            ) == Ok::<Seq<ColumnInfoView>, IntrospectErrorView>(column_info_views(info.columns@)),
            Err(e) => match params_described(types@, *names, types@.len() as int) {
                Err(pe) => e@ == pe,
                Ok(_) => columns_described(columns@, *names, columns@.len() as int) == Err::<
                    Seq<ColumnInfoView>,
                    IntrospectErrorView,
                >(e@),
            },
        },
{
    let params: Vec<ParamInfo> = match build_params(types, names) {
        Ok(p) => p,
        Err(e) => return Err(e),
    };
    match build_columns(columns, names) {
        Ok(columns) => Ok(QueryInfo { params, columns }),
        Err(e) => Err(e),
    }
}

/// A mark behind a column's name decides whether it can be null, wherever the column
/// comes from.
pub proof fn law_mark_decides(columns: Seq<WireColumn>, i: int, names: TypeNames)
    requires
        0 <= i < columns.len(),
        mark_of(columns[i].name@).1 is Some,
    ensures
        column_described(columns, i, names) matches Ok(c) ==> Some(c.nullable) == mark_of(
            columns[i].name@,
        ).1 && c.name == columns[i].name@.drop_last(),
{
}

} // verus!
