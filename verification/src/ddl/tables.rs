//! `CREATE TABLE`.

use super::checks::{expressions_checked, validate_constraint_expressions};
use super::constraints::{emit_constraints, with_table_constraints};
use super::stmt::{ColumnDef, ConstrType, Constraint, CreateStmt, TableElt};
use super::util::{
    ensure_range_var, ensured_range, opt_named_type, range_names, range_var_names,
    register_composite_to_record_cast, resolve_opt_type, with_record_cast, Step,
};
use super::volatile::{check_opt_volatile, opt_volatility, ExprLocation};
use super::{ddl_outcome, DdlError, DdlErrorView};
use crate::ast::{RangeVar, TypeName};
use crate::catalog::{CatalogView, PgCatalog};
use crate::lookup::{attribute_named, find_attribute};
use crate::pg_catalog::{
    attr_views, AttGenerated, AttIdentity, PgAttribute, PgAttributeView, PgClass, PgClassView,
    PgInherits, PgType, PgTypeView, RelKind, TypCategory, TypType, UNKNOWN,
};
use crate::text::{concat2, concat3, has_text, same_text, texts};
use vstd::prelude::*;

verus! {

// ── Columns ─────────────────────────────────────────────────────────────────

/// What the parts of a column definition say of the column, so far.
#[derive(Debug, Clone, Copy, PartialEq, Eq, Structural)]
pub struct ColumnFlags {
    pub not_null: bool,
    pub has_default: bool,
    pub is_generated: bool,
    pub identity: Option<AttIdentity>,
}

/// A column definition, read.
#[derive(Debug, Clone)]
pub struct ParsedColumn {
    pub name: String,
    pub type_oid: u32,
    pub typmod: Option<i32>,
    pub flags: ColumnFlags,
}

#[verifier::ext_equal]
pub struct ParsedColumnView {
    pub name: Seq<char>,
    pub type_oid: u32,
    pub typmod: Option<i32>,
    pub flags: ColumnFlags,
}

impl View for ParsedColumn {
    type V = ParsedColumnView;

    open spec fn view(&self) -> ParsedColumnView {
        ParsedColumnView {
            name: self.name@,
            type_oid: self.type_oid,
            typmod: self.typmod,
            flags: self.flags,
        }
    }
}

/// The views of several columns.
pub open spec fn parsed_views(list: Seq<ParsedColumn>) -> Seq<ParsedColumnView> {
    list.map_values(|p: ParsedColumn| p@)
}

/// The kind of identity column that a letter stands for.
pub open spec fn identity_kind(letter: Seq<char>) -> Option<AttIdentity> {
    if letter == "a"@ {
        Some(AttIdentity::Always)
    } else if letter == "d"@ {
        Some(AttIdentity::ByDefault)
    } else {
        None
    }
}

/// The kind of identity column that a letter stands for, by default when in doubt.
pub open spec fn sure_identity_kind(letter: Seq<char>) -> AttIdentity {
    if letter == "a"@ {
        AttIdentity::Always
    } else {
        AttIdentity::ByDefault
    }
}

/// Whether a written type is one of the serial types.
pub open spec fn is_serial(tn: Option<TypeName>) -> bool {
    match tn {
        Some(t) => texts(t.names@).contains("serial"@) || texts(t.names@).contains("bigserial"@)
            || texts(t.names@).contains("smallserial"@),
        None => false,
    }
}

/// The modifier of a written type, or why it is not one.
pub open spec fn modifier_of(tn: Option<TypeName>) -> Result<Option<i32>, DdlErrorView> {
    match tn {
        Some(t) => ddl_outcome(t.typmod),
        None => Ok(None),
    }
}

/// The modifier of a written type.
///
/// # Errors
///
/// What is written there is no modifier of the type.
pub(crate) fn read_modifier(tn: &Option<TypeName>) -> (r: Result<Option<i32>, DdlError>)
    ensures
        ddl_outcome(r) == modifier_of(*tn),
{
    match tn {
        Some(t) => match &t.typmod {
            Ok(m) => Ok(*m),
            Err(e) => Err(e.copy()),
        },
        None => Ok(None),
    }
}

/// What a definition says of its column, before its constraints.
pub open spec fn initial_flags(cd: ColumnDef) -> ColumnFlags {
    let is_identity = cd.identity@.len() > 0;
    let is_generated = cd.generated@.len() > 0;
    ColumnFlags {
        not_null: cd.is_not_null || is_identity,
        has_default: cd.has_default || is_serial(cd.target) || is_identity || is_generated,
        is_generated,
        identity: if is_identity {
            identity_kind(cd.identity@)
        } else {
            None
        },
    }
}

/// What a constraint adds to that.
pub open spec fn constrained_flags(f: ColumnFlags, con: Constraint) -> ColumnFlags {
    match con.contype {
        ConstrType::NotNull => ColumnFlags { not_null: true, ..f },
        ConstrType::Primary => ColumnFlags { not_null: true, ..f },
        ConstrType::Default => ColumnFlags { has_default: true, ..f },
        ConstrType::Identity => ColumnFlags {
            has_default: true,
            not_null: true,
            identity: match f.identity {
                Some(k) => Some(k),
                None => Some(sure_identity_kind(con.generated_when@)),
            },
            ..f
        },
        ConstrType::Generated => ColumnFlags { has_default: true, is_generated: true, ..f },
        _ => f,
    }
}

/// Whether the expression of a constraint may stand there.
pub open spec fn constraint_volatility(con: Constraint, c: CatalogView) -> Result<
    (),
    DdlErrorView,
> {
    match con.contype {
        ConstrType::Generated => opt_volatility(con.raw_expr, ExprLocation::Generated, c),
        ConstrType::Check => opt_volatility(con.raw_expr, ExprLocation::Check, c),
        _ => Ok(()),
    }
}

/// What the constraints from `i` on add to what is said of a column.
pub open spec fn flags_from(
    c: CatalogView,
    cons: Seq<Constraint>,
    i: int,
    f: ColumnFlags,
) -> Result<
    ColumnFlags,
    DdlErrorView,
>
    decreases cons.len() - i,
{
    if i < 0 || i >= cons.len() {
        Ok(f)
    } else {
        match constraint_volatility(cons[i], c) {
            Ok(_) => flags_from(c, cons, i + 1, constrained_flags(f, cons[i])),
            Err(e) => Err(e),
        }
    }
}

/// What a column definition stands for. A type that is not known counts as
/// `unknown`; a column of the primary key is not null.
pub open spec fn parsed_column(c: CatalogView, cd: ColumnDef, pk: Seq<Seq<char>>) -> Result<
    ParsedColumnView,
    DdlErrorView,
> {
    match modifier_of(cd.target) {
        Err(e) => Err(e),
        Ok(typmod) => match flags_from(c, cd.constraints@, 0, initial_flags(cd)) {
            Err(e) => Err(e),
            Ok(f) => Ok(
                ParsedColumnView {
                    name: cd.colname@,
                    type_oid: match opt_named_type(c, cd.target) {
                        Some(t) => t,
                        None => UNKNOWN,
                    },
                    typmod,
                    flags: ColumnFlags { not_null: f.not_null || pk.contains(cd.colname@), ..f },
                },
            ),
        },
    }
}

/// The row of a column.
pub open spec fn column_row(relid: u32, p: ParsedColumnView, attnum: i16) -> PgAttributeView {
    PgAttributeView {
        attrelid: relid,
        attname: p.name,
        atttypid: p.type_oid,
        attnum,
        attnotnull: p.flags.not_null,
        atthasdef: p.flags.has_default,
        attgenerated: if p.flags.is_generated {
            Some(AttGenerated::Stored)
        } else {
            None
        },
        atttypmod: p.typmod,
        attidentity: p.flags.identity,
    }
}

/// A column definition, read, as a value.
pub open spec fn parsed_view(r: Result<ParsedColumn, DdlError>) -> Result<
    ParsedColumnView,
    DdlErrorView,
> {
    match r {
        Ok(p) => Ok(p@),
        Err(e) => Err(e@),
    }
}

fn find_identity_kind(letter: &str) -> (r: Option<AttIdentity>)
    ensures
        r == identity_kind(letter@),
{
    if same_text(letter, "a") {
        Some(AttIdentity::Always)
    } else if same_text(letter, "d") {
        Some(AttIdentity::ByDefault)
    } else {
        None
    }
}

pub(crate) fn find_sure_identity_kind(letter: &str) -> (r: AttIdentity)
    ensures
        r == sure_identity_kind(letter@),
{
    if same_text(letter, "a") {
        AttIdentity::Always
    } else {
        AttIdentity::ByDefault
    }
}

fn is_serial_type(tn: &Option<TypeName>) -> (r: bool)
    ensures
        r == is_serial(*tn),
{
    match tn {
        Some(t) => has_text(&t.names, "serial") || has_text(&t.names, "bigserial") || has_text(
            &t.names,
            "smallserial",
        ),
        None => false,
    }
}

fn start_flags(cd: &ColumnDef) -> (r: ColumnFlags)
    ensures
        r == initial_flags(*cd),
{
    let is_identity: bool = !cd.identity.as_str().is_empty();
    let is_generated: bool = !cd.generated.as_str().is_empty();
    let identity: Option<AttIdentity> = if is_identity {
        find_identity_kind(cd.identity.as_str())
    } else {
        None
    };
    ColumnFlags {
        not_null: cd.is_not_null || is_identity,
        has_default: cd.has_default || is_serial_type(&cd.target) || is_identity || is_generated,
        is_generated,
        identity,
    }
}

fn add_constraint_flags(f: ColumnFlags, con: &Constraint) -> (r: ColumnFlags)
    ensures
        r == constrained_flags(f, *con),
{
    let mut r: ColumnFlags = f;
    match con.contype {
        ConstrType::NotNull | ConstrType::Primary => {
            r.not_null = true;
        },
        ConstrType::Default => {
            r.has_default = true;
        },
        ConstrType::Identity => {
            r.has_default = true;
            r.not_null = true;
            if r.identity.is_none() {
                r.identity = Some(find_sure_identity_kind(con.generated_when.as_str()));
            }
        },
        ConstrType::Generated => {
            r.has_default = true;
            r.is_generated = true;
        },
        _ => {},
    }
    r
}

fn check_constraint_volatility(con: &Constraint, db: &PgCatalog) -> (r: Result<(), DdlError>)
    ensures
        ddl_outcome(r) == constraint_volatility(*con, db@),
{
    match con.contype {
        ConstrType::Generated => check_opt_volatile(&con.raw_expr, ExprLocation::Generated, db),
        ConstrType::Check => check_opt_volatile(&con.raw_expr, ExprLocation::Check, db),
        _ => Ok(()),
    }
}

/// Reads a column definition.
///
/// # Errors
///
/// The modifier of its type is none, or an expression in it calls a volatile function.
pub(crate) fn parse_column_def(db: &PgCatalog, cd: &ColumnDef, pk_columns: &Vec<String>) -> (r:
    Result<ParsedColumn, DdlError>)
    ensures
        parsed_view(r) == parsed_column(db@, *cd, texts(pk_columns@)),
{
    let typmod: Option<i32> = match read_modifier(&cd.target) {
        Ok(m) => m,
        Err(e) => return Err(e),
    };
    let mut flags: ColumnFlags = start_flags(cd);
    let ghost cons = cd.constraints@;
    let mut i: usize = 0;
    while i < cd.constraints.len()
        invariant
            cons == cd.constraints@,
            i <= cons.len(),
            modifier_of(cd.target) == Ok::<Option<i32>, DdlErrorView>(typmod),
            flags_from(db@, cons, 0, initial_flags(*cd)) == flags_from(
                db@,
                cons,
                i as int,
                flags,
            ),
        decreases cons.len() - i,
    {
        match check_constraint_volatility(&cd.constraints[i], db) {
            Ok(_) => {},
            Err(e) => return Err(e),
        }
        flags = add_constraint_flags(flags, &cd.constraints[i]);
        i = i + 1;
    }
    if has_text(pk_columns, cd.colname.as_str()) {
        flags.not_null = true;
    }
    let type_oid: u32 = match resolve_opt_type(&cd.target, db) {
        Some(t) => t,
        None => UNKNOWN,
    };
    Ok(ParsedColumn { name: cd.colname.clone(), type_oid, typmod, flags })
}

pub(crate) fn new_column_row(relid: u32, p: &ParsedColumn, attnum: i16) -> (r: PgAttribute)
    ensures
        r@ == column_row(relid, p@, attnum),
{
    PgAttribute {
        attrelid: relid,
        attname: p.name.clone(),
        atttypid: p.type_oid,
        attnum,
        attnotnull: p.flags.not_null,
        atthasdef: p.flags.has_default,
        attgenerated: if p.flags.is_generated {
            Some(AttGenerated::Stored)
        } else {
            None
        },
        atttypmod: p.typmod,
        attidentity: p.flags.identity,
    }
}

// ── The elements of the statement ───────────────────────────────────────────

/// The columns of the primary keys among the elements from `i` on, behind `acc`;
/// the conditions of their `CHECK` constraints call no volatile function.
pub open spec fn key_columns(
    c: CatalogView,
    elts: Seq<TableElt>,
    i: int,
    acc: Seq<Seq<char>>,
) -> Result<Seq<Seq<char>>, DdlErrorView>
    decreases elts.len() - i,
{
    if i < 0 || i >= elts.len() {
        Ok(acc)
    } else {
        match elts[i] {
            TableElt::Constraint(con) => match con.contype {
                ConstrType::Primary => key_columns(c, elts, i + 1, acc + texts(con.keys@)),
                ConstrType::Check => match opt_volatility(con.raw_expr, ExprLocation::Check, c) {
                    Ok(_) => key_columns(c, elts, i + 1, acc),
                    Err(e) => Err(e),
                },
                _ => key_columns(c, elts, i + 1, acc),
            },
            _ => key_columns(c, elts, i + 1, acc),
        }
    }
}

/// Whether one of the columns has this name.
pub open spec fn has_column_named(list: Seq<ParsedColumnView>, name: Seq<char>) -> bool {
    exists|i: int| 0 <= i < list.len() && (#[trigger] list[i]).name == name
}

/// The columns among the elements from `i` on, behind `acc`.
pub open spec fn parsed_columns(
    c: CatalogView,
    elts: Seq<TableElt>,
    i: int,
    pk: Seq<Seq<char>>,
    acc: Seq<ParsedColumnView>,
) -> Result<Seq<ParsedColumnView>, DdlErrorView>
    decreases elts.len() - i,
{
    if i < 0 || i >= elts.len() {
        Ok(acc)
    } else {
        match elts[i] {
            TableElt::Column(cd) => if has_column_named(acc, cd.colname@) {
                Err(
                    DdlErrorView::DuplicateObject(
                        "column \""@ + cd.colname@ + "\" specified more than once"@,
                    ),
                )
            } else {
                match parsed_column(c, cd, pk) {
                    Ok(p) => parsed_columns(c, elts, i + 1, pk, acc.push(p)),
                    Err(e) => Err(e),
                }
            },
            _ => parsed_columns(c, elts, i + 1, pk, acc),
        }
    }
}

/// The columns that a statement defines.
pub open spec fn statement_columns(c: CatalogView, stmt: CreateStmt) -> Result<
    Seq<ParsedColumnView>,
    DdlErrorView,
> {
    match key_columns(c, stmt.constraints@, 0, Seq::empty()) {
        Err(e) => Err(e),
        Ok(pk1) => match key_columns(c, stmt.table_elts@, 0, pk1) {
            Err(e) => Err(e),
            Ok(pk) => parsed_columns(c, stmt.table_elts@, 0, pk, Seq::empty()),
        },
    }
}

/// A list of names as a value.
pub open spec fn names_view(r: Result<Vec<String>, DdlError>) -> Result<
    Seq<Seq<char>>,
    DdlErrorView,
> {
    match r {
        Ok(l) => Ok(texts(l@)),
        Err(e) => Err(e@),
    }
}

/// A list of columns as a value.
pub open spec fn columns_view(r: Result<Vec<ParsedColumn>, DdlError>) -> Result<
    Seq<ParsedColumnView>,
    DdlErrorView,
> {
    match r {
        Ok(l) => Ok(parsed_views(l@)),
        Err(e) => Err(e@),
    }
}

fn collect_keys(db: &PgCatalog, elts: &Vec<TableElt>, acc: Vec<String>) -> (r: Result<
    Vec<String>,
    DdlError,
>)
    ensures
        names_view(r) == key_columns(db@, elts@, 0, texts(acc@)),
{
    let mut list: Vec<String> = acc;
    let mut i: usize = 0;
    while i < elts.len()
        invariant
            i <= elts@.len(),
            key_columns(db@, elts@, 0, texts(acc@)) == key_columns(
                db@,
                elts@,
                i as int,
                texts(list@),
            ),
        decreases elts.len() - i,
    {
        match &elts[i] {
            TableElt::Constraint(con) => match con.contype {
                ConstrType::Primary => {
                    let mut more: Vec<String> = crate::text::copy_texts(&con.keys);
                    let ghost before = list@;
                    let ghost added = more@;
                    list.append(&mut more);
                    proof {
                        assert(texts(list@) =~= texts(before) + texts(added));
                    }
                },
                ConstrType::Check => {
                    match check_opt_volatile(&con.raw_expr, ExprLocation::Check, db) {
                        Ok(_) => {},
                        Err(e) => return Err(e),
                    }
                },
                _ => {},
            },
            _ => {},
        }
        i = i + 1;
    }
    Ok(list)
}

fn has_parsed(list: &Vec<ParsedColumn>, name: &str) -> (r: bool)
    ensures
        r == has_column_named(parsed_views(list@), name@),
{
    let ghost views = parsed_views(list@);
    let mut i: usize = 0;
    while i < list.len()
        invariant
            i <= list@.len(),
            views == parsed_views(list@),
            forall|k: int| 0 <= k < i ==> (#[trigger] views[k]).name != name@,
        decreases list.len() - i,
    {
        if same_text(list[i].name.as_str(), name) {
            proof {
                assert(views[i as int].name == name@);
            }
            return true;
        }
        i = i + 1;
    }
    false
}

fn collect_columns(db: &PgCatalog, elts: &Vec<TableElt>, pk: &Vec<String>) -> (r: Result<
    Vec<ParsedColumn>,
    DdlError,
>)
    ensures
        columns_view(r) == parsed_columns(db@, elts@, 0, texts(pk@), Seq::empty()),
{
    let mut list: Vec<ParsedColumn> = Vec::new();
    let mut i: usize = 0;
    proof {
        assert(parsed_views(list@) =~= Seq::empty());
    }
    while i < elts.len()
        invariant
            i <= elts@.len(),
            parsed_columns(db@, elts@, 0, texts(pk@), Seq::empty()) == parsed_columns(
                db@,
                elts@,
                i as int,
                texts(pk@),
                parsed_views(list@),
            ),
        decreases elts.len() - i,
    {
        match &elts[i] {
            TableElt::Column(cd) => {
                if has_parsed(&list, cd.colname.as_str()) {
                    return Err(
                        DdlError::DuplicateObject(
                            concat3(
                                "column \"",
                                cd.colname.as_str(),
                                "\" specified more than once",
                            ),
                        ),
                    );
                }
                match parse_column_def(db, cd, pk) {
                    Ok(p) => {
                        let ghost before = parsed_views(list@);
                        list.push(p);
                        proof {
                            assert(parsed_views(list@) =~= before.push(p@));
                        }
                    },
                    Err(e) => return Err(e),
                }
            },
            _ => {},
        }
        i = i + 1;
    }
    Ok(list)
}

fn find_statement_columns(db: &PgCatalog, stmt: &CreateStmt) -> (r: Result<
    Vec<ParsedColumn>,
    DdlError,
>)
    ensures
        columns_view(r) == statement_columns(db@, *stmt),
{
    let none: Vec<String> = Vec::new();
    proof {
        assert(texts(none@) =~= Seq::empty());
    }
    let pk1: Vec<String> = match collect_keys(db, &stmt.constraints, none) {
        Ok(l) => l,
        Err(e) => return Err(e),
    };
    let pk: Vec<String> = match collect_keys(db, &stmt.table_elts, pk1) {
        Ok(l) => l,
        Err(e) => return Err(e),
    };
    collect_columns(db, &stmt.table_elts, &pk)
}

// ── The relation and its types ──────────────────────────────────────────────

/// The greatest number that a column can have.
pub const MAX_ATTNUM: i16 = 32767;

/// The error for a column that can get no number.
pub open spec fn too_many_columns() -> DdlErrorView {
    DdlErrorView::Internal("column number overflowed"@)
}

/// The catalog with the first `n` columns of a new relation.
pub open spec fn with_columns(
    c: CatalogView,
    relid: u32,
    columns: Seq<ParsedColumnView>,
    n: int,
) -> CatalogView
    decreases n,
{
    if n <= 0 {
        c
    } else {
        with_columns(c, relid, columns, n - 1).with_attribute(
            column_row(relid, columns[n - 1], n as i16),
        )
    }
}

/// The row of the composite type of a relation.
pub open spec fn row_type_row(
    oid: u32,
    name: Seq<char>,
    ns: u32,
    relid: u32,
    array: Option<u32>,
) -> PgTypeView {
    PgTypeView {
        oid,
        typname: name,
        typnamespace: ns,
        typtype: TypType::Composite,
        typcategory: TypCategory::Composite,
        typispreferred: false,
        typrelid: Some(relid),
        typelem: None,
        typarray: array,
        typbasetype: None,
        typnotnull: false,
        typtypmod: None,
    }
}

/// The row of the array type over a type.
pub open spec fn array_type_row(oid: u32, name: Seq<char>, ns: u32, element: u32) -> PgTypeView {
    PgTypeView {
        oid,
        typname: "_"@ + name,
        typnamespace: ns,
        typtype: TypType::Base,
        typcategory: TypCategory::Array,
        typispreferred: false,
        typrelid: None,
        typelem: Some(element),
        typarray: None,
        typbasetype: None,
        typnotnull: false,
        typtypmod: None,
    }
}

/// The catalog with a new table: its relation, columns and types. Gives the
/// table's OID.
pub open spec fn with_relation(
    c: CatalogView,
    ns: u32,
    name: Seq<char>,
    columns: Seq<ParsedColumnView>,
) -> Step<u32> {
    match c.allocated() {
        (Err(e), c1) => (Err(e), c1),
        (Ok(relid), c1) => match c1.allocated() {
            (Err(e), c2) => (Err(e), c2),
            (Ok(composite), c2) => match c2.allocated() {
                (Err(e), c3) => (Err(e), c3),
                (Ok(array), c3) => {
                    let c4 = with_columns(
                        c3.with_class(
                            PgClassView {
                                oid: relid,
                                relname: name,
                                relnamespace: ns,
                                relkind: RelKind::Table,
                                reltype: Some(composite),
                            },
                        ),
                        relid,
                        columns,
                        columns.len() as int,
                    ).with_type(row_type_row(composite, name, ns, relid, Some(array)));
                    match with_record_cast(c4, composite) {
                        (Err(e), c5) => (Err(e), c5),
                        (Ok(_), c5) => (
                            Ok(relid),
                            c5.with_type(array_type_row(array, name, ns, composite)),
                        ),
                    }
                },
            },
        },
    }
}

fn add_columns(db: &mut PgCatalog, relid: u32, columns: &Vec<ParsedColumn>)
    requires
        columns@.len() <= MAX_ATTNUM,
    ensures
        final(db)@ == with_columns(
            old(db)@,
            relid,
            parsed_views(columns@),
            columns@.len() as int,
        ),
{
    let ghost views = parsed_views(columns@);
    let mut i: usize = 0;
    while i < columns.len()
        invariant
            i <= columns@.len() <= MAX_ATTNUM,
            views == parsed_views(columns@),
            db@ == with_columns(old(db)@, relid, views, i as int),
        decreases columns.len() - i,
    {
        db.insert_pg_attribute(new_column_row(relid, &columns[i], (i + 1) as i16));
        i = i + 1;
    }
}

pub(crate) fn new_row_type(oid: u32, name: &str, ns: u32, relid: u32, array: Option<u32>) -> (r:
    PgType)
    ensures
        r@ == row_type_row(oid, name@, ns, relid, array),
{
    PgType {
        oid,
        typname: name.to_owned(),
        typnamespace: ns,
        typtype: TypType::Composite,
        typcategory: TypCategory::Composite,
        typispreferred: false,
        typrelid: Some(relid),
        typelem: None,
        typarray: array,
        typbasetype: None,
        typnotnull: false,
        typtypmod: None,
    }
}

pub(crate) fn new_array_type(oid: u32, name: &str, ns: u32, element: u32) -> (r: PgType)
    ensures
        r@ == array_type_row(oid, name@, ns, element),
{
    PgType {
        oid,
        typname: concat2("_", name),
        typnamespace: ns,
        typtype: TypType::Base,
        typcategory: TypCategory::Array,
        typispreferred: false,
        typrelid: None,
        typelem: Some(element),
        typarray: None,
        typbasetype: None,
        typnotnull: false,
        typtypmod: None,
    }
}

fn add_relation(db: &mut PgCatalog, ns: u32, name: &str, columns: &Vec<ParsedColumn>) -> (r: Result<
    u32,
    DdlError,
>)
    requires
        columns@.len() <= MAX_ATTNUM,
    ensures
        (ddl_outcome(r), final(db)@) == with_relation(
            old(db)@,
            ns,
            name@,
            parsed_views(columns@),
        ),
{
    let relid: u32 = match db.alloc_oid() {
        Ok(oid) => oid,
        Err(e) => return Err(e),
    };
    let composite: u32 = match db.alloc_oid() {
        Ok(oid) => oid,
        Err(e) => return Err(e),
    };
    let array: u32 = match db.alloc_oid() {
        Ok(oid) => oid,
        Err(e) => return Err(e),
    };
    db.insert_pg_class(
        PgClass {
            oid: relid,
            relname: name.to_owned(),
            relnamespace: ns,
            relkind: RelKind::Table,
            reltype: Some(composite),
        },
    );
    add_columns(db, relid, columns);
    db.insert_pg_type(new_row_type(composite, name, ns, relid, Some(array)));
    match register_composite_to_record_cast(db, composite) {
        Ok(_) => {},
        Err(e) => return Err(e),
    }
    db.insert_pg_type(new_array_type(array, name, ns, composite));
    Ok(relid)
}

// ── Inheritance ─────────────────────────────────────────────────────────────

/// The greatest number of a column, or zero.
pub open spec fn last_attnum(attrs: Seq<PgAttributeView>) -> i16
    decreases attrs.len(),
{
    if attrs.len() == 0 {
        0
    } else {
        let rest = last_attnum(attrs.drop_last());
        if attrs.len() == 1 || attrs.last().attnum > rest {
            attrs.last().attnum
        } else {
            rest
        }
    }
}

/// A column of a parent, as the child has it.
pub open spec fn inherited_row(relid: u32, a: PgAttributeView, attnum: i16) -> PgAttributeView {
    PgAttributeView { attrelid: relid, attnum, ..a }
}

/// The catalog in which a child has got the parent's columns from `i` on that are
/// not among its own (`existing`), numbered behind `attnum`.
pub open spec fn with_inherited_columns(
    c: CatalogView,
    child: u32,
    existing: Seq<PgAttributeView>,
    parent: Seq<PgAttributeView>,
    i: int,
    attnum: i16,
) -> Step<()>
    decreases parent.len() - i,
{
    if i < 0 || i >= parent.len() {
        (Ok(()), c)
    } else if find_attribute(existing, parent[i].attname) is Some {
        with_inherited_columns(c, child, existing, parent, i + 1, attnum)
    } else if attnum >= MAX_ATTNUM {
        (Err(too_many_columns()), c)
    } else {
        let next = (attnum + 1) as i16;
        with_inherited_columns(
            c.with_attribute(inherited_row(child, parent[i], next)),
            child,
            existing,
            parent,
            i + 1,
            next,
        )
    }
}

/// The catalog in which a relation is the child of another.
pub open spec fn with_parent(c: CatalogView, child: u32, parent: u32, seqno: i32) -> Step<()> {
    let existing = c.attributes_of(child);
    match with_inherited_columns(
        c,
        child,
        existing,
        c.attributes_of(parent),
        0,
        last_attnum(existing),
    ) {
        (Err(e), c1) => (Err(e), c1),
        (Ok(_), c1) => (
            Ok(()),
            CatalogView {
                pg_inherits: c1.pg_inherits.push(
                    PgInherits { inhrelid: child, inhparent: parent, inhseqno: seqno },
                ),
                ..c1
            },
        ),
    }
}

/// The relation that a parent is written as.
pub open spec fn parent_relation(c: CatalogView, rv: RangeVar) -> Result<u32, DdlErrorView> {
    let (schema, name) = range_names(c, rv);
    match c.namespace_oid(schema) {
        None => Err(DdlErrorView::TableNotFound(schema + "."@ + name)),
        Some(ns) => match c.class_named(ns, name) {
            None => Err(
                DdlErrorView::TableNotFound("relation \""@ + name + "\" does not exist"@),
            ),
            Some(oid) => Ok(oid),
        },
    }
}

/// The catalog in which a relation is the child of the parents from `i` on.
pub open spec fn with_parents(
    c: CatalogView,
    child: u32,
    parents: Seq<RangeVar>,
    i: int,
) -> Step<()>
    decreases parents.len() - i,
{
    if i < 0 || i >= parents.len() {
        (Ok(()), c)
    } else {
        match parent_relation(c, parents[i]) {
            Err(e) => (Err(e), c),
            Ok(parent) => if i >= 0x7fff_ffff {
                (Err(DdlErrorView::Internal("number of parents overflowed"@)), c)
            } else {
                match with_parent(c, child, parent, (i + 1) as i32) {
                    (Err(e), c1) => (Err(e), c1),
                    (Ok(_), c1) => with_parents(c1, child, parents, i + 1),
                }
            },
        }
    }
}

pub(crate) fn find_last_attnum(attrs: &Vec<PgAttribute>) -> (r: i16)
    ensures
        r == last_attnum(attr_views(attrs@)),
{
    let ghost views = attr_views(attrs@);
    let mut r: i16 = 0;
    let mut i: usize = 0;
    while i < attrs.len()
        invariant
            i <= attrs@.len(),
            views == attr_views(attrs@),
            r == last_attnum(views.take(i as int)),
        decreases attrs.len() - i,
    {
        proof {
            assert(views.take(i + 1).drop_last() =~= views.take(i as int));
        }
        if i == 0 || attrs[i].attnum > r {
            r = attrs[i].attnum;
        }
        i = i + 1;
    }
    proof {
        assert(views.take(i as int) =~= views);
    }
    r
}

fn inherit_columns(
    db: &mut PgCatalog,
    child: u32,
    existing: &Vec<PgAttribute>,
    parent: &Vec<PgAttribute>,
) -> (r: Result<(), DdlError>)
    ensures
        (ddl_outcome(r), final(db)@) == with_inherited_columns(
            old(db)@,
            child,
            attr_views(existing@),
            attr_views(parent@),
            0,
            last_attnum(attr_views(existing@)),
        ),
{
    let ghost own = attr_views(existing@);
    let ghost views = attr_views(parent@);
    let mut attnum: i16 = find_last_attnum(existing);
    let mut i: usize = 0;
    while i < parent.len()
        invariant
            i <= parent@.len(),
            own == attr_views(existing@),
            views == attr_views(parent@),
            with_inherited_columns(old(db)@, child, own, views, 0, last_attnum(own))
                == with_inherited_columns(db@, child, own, views, i as int, attnum),
        decreases parent.len() - i,
    {
        let a: &PgAttribute = &parent[i];
        if attribute_named(existing, a.attname.as_str()).is_none() {
            if attnum >= MAX_ATTNUM {
                return Err(DdlError::Internal("column number overflowed".to_owned()));
            }
            attnum = attnum + 1;
            db.insert_pg_attribute(
                PgAttribute {
                    attrelid: child,
                    attname: a.attname.clone(),
                    atttypid: a.atttypid,
                    attnum,
                    attnotnull: a.attnotnull,
                    atthasdef: a.atthasdef,
                    attgenerated: a.attgenerated,
                    atttypmod: a.atttypmod,
                    attidentity: a.attidentity,
                },
            );
        }
        i = i + 1;
    }
    Ok(())
}

fn find_parent(db: &PgCatalog, rv: &RangeVar) -> (r: Result<u32, DdlError>)
    ensures
        ddl_outcome(r) == parent_relation(db@, *rv),
{
    let (schema, name): (String, String) = range_var_names(rv, db);
    match db.namespace_oid(schema.as_str()) {
        None => Err(DdlError::TableNotFound(concat3(schema.as_str(), ".", name.as_str()))),
        Some(ns) => match db.class_by_qname.get(ns, name.as_str()) {
            None => Err(
                DdlError::TableNotFound(
                    concat3("relation \"", name.as_str(), "\" does not exist"),
                ),
            ),
            Some(oid) => Ok(oid),
        },
    }
}

/// Gives a child the columns of its parents that it does not have, and notes the
/// parents.
fn apply_inherits(db: &mut PgCatalog, child: u32, parents: &Vec<RangeVar>) -> (r: Result<
    (),
    DdlError,
>)
    ensures
        (ddl_outcome(r), final(db)@) == with_parents(old(db)@, child, parents@, 0),
{
    let mut i: usize = 0;
    while i < parents.len()
        invariant
            i <= parents@.len(),
            with_parents(old(db)@, child, parents@, 0) == with_parents(
                db@,
                child,
                parents@,
                i as int,
            ),
        decreases parents.len() - i,
    {
        let parent: u32 = match find_parent(db, &parents[i]) {
            Ok(oid) => oid,
            Err(e) => return Err(e),
        };
        if i >= 0x7fff_ffff {
            return Err(DdlError::Internal("number of parents overflowed".to_owned()));
        }
        let existing: Vec<PgAttribute> = db.attributes_of(child);
        let columns: Vec<PgAttribute> = db.attributes_of(parent);
        match inherit_columns(db, child, &existing, &columns) {
            Ok(_) => {},
            Err(e) => return Err(e),
        }
        db.pg_inherits.push(
            PgInherits { inhrelid: child, inhparent: parent, inhseqno: (i + 1) as i32 },
        );
        i = i + 1;
    }
    Ok(())
}

// ── CREATE TABLE ────────────────────────────────────────────────────────────

/// What making a table whose name is free does.
pub open spec fn new_table(c: CatalogView, ns: u32, name: Seq<char>, stmt: CreateStmt) -> Step<()> {
    match statement_columns(c, stmt) {
        Err(e) => (Err(e), c),
        Ok(columns) => if columns.len() > MAX_ATTNUM {
            (Err(too_many_columns()), c)
        } else {
            match with_relation(c, ns, name, columns) {
                (Err(e), c1) => (Err(e), c1),
                (Ok(relid), c1) => match (if stmt.partbound {
                    (Ok(()), c1)
                } else {
                    with_parents(c1, relid, stmt.inh_relations@, 0)
                }) {
                    (Err(e), c2) => (Err(e), c2),
                    (Ok(_), c2) => match expressions_checked(c2, relid, name, stmt) {
                        Err(e) => (Err(e), c2),
                        Ok(_) => with_table_constraints(c2, relid, name, stmt),
                    },
                },
            }
        },
    }
}

/// The error for a name that is taken.
pub open spec fn relation_exists(name: Seq<char>) -> DdlErrorView {
    DdlErrorView::DuplicateObject("relation \""@ + name + "\" already exists"@)
}

/// What `CREATE TABLE` does.
pub open spec fn table_created(c: CatalogView, stmt: CreateStmt) -> Step<()> {
    match stmt.relation {
        None => (Err(DdlErrorView::Parse("CREATE TABLE without relation"@)), c),
        Some(rv) => match ensured_range(c, rv) {
            (Err(e), c1) => (Err(e), c1),
            (Ok((ns, name)), c1) => if c1.class_named(ns, name) is Some {
                if stmt.if_not_exists {
                    (Ok(()), c1)
                } else {
                    (Err(relation_exists(name)), c1)
                }
            } else {
                new_table(c1, ns, name, stmt)
            },
        },
    }
}

fn build_table(db: &mut PgCatalog, ns: u32, name: &str, stmt: &CreateStmt) -> (r: Result<
    (),
    DdlError,
>)
    ensures
        (ddl_outcome(r), final(db)@) == new_table(old(db)@, ns, name@, *stmt),
{
    let columns: Vec<ParsedColumn> = match find_statement_columns(db, stmt) {
        Ok(l) => l,
        Err(e) => return Err(e),
    };
    if columns.len() > 32767 {
        return Err(DdlError::Internal("column number overflowed".to_owned()));
    }
    let relid: u32 = match add_relation(db, ns, name, &columns) {
        Ok(oid) => oid,
        Err(e) => return Err(e),
    };
    if !stmt.partbound {
        match apply_inherits(db, relid, &stmt.inh_relations) {
            Ok(_) => {},
            Err(e) => return Err(e),
        }
    }
    match validate_constraint_expressions(db, relid, name, stmt) {
        Ok(_) => {},
        Err(e) => return Err(e),
    }
    emit_constraints(db, relid, name, stmt)
}

/// Applies a `CREATE TABLE`.
///
/// # Errors
///
/// The relation exists already, a column occurs twice, a parent or the target of
/// a foreign key does not exist, an expression has a wrong type or calls a
/// volatile function, or the OIDs have run out.
pub fn create_table(db: &mut PgCatalog, stmt: &CreateStmt) -> (r: Result<(), DdlError>)
    ensures
        (ddl_outcome(r), final(db)@) == table_created(old(db)@, *stmt),
{
    let rv: &RangeVar = match &stmt.relation {
        Some(rv) => rv,
        None => return Err(DdlError::Parse("CREATE TABLE without relation".to_owned())),
    };
    let (ns, name): (u32, String) = match ensure_range_var(db, rv) {
        Ok(p) => p,
        Err(e) => return Err(e),
    };
    if db.class_by_qname.get(ns, name.as_str()).is_some() {
        if stmt.if_not_exists {
            return Ok(());
        }
        return Err(
            DdlError::DuplicateObject(
                concat3("relation \"", name.as_str(), "\" already exists"),
            ),
        );
    }
    build_table(db, ns, name.as_str(), stmt)
}

} // verus!
