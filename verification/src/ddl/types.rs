//! `CREATE DOMAIN`, `CREATE TYPE`, `ALTER TYPE ... ADD VALUE` and `CREATE CAST`.

use super::drop::{find_type_at, type_at};
use super::stmt::{
    AlterEnumStmt, CoercionContext, ColumnDef, CompositeTypeStmt, ConstrType, Constraint,
    CreateCastStmt, CreateDomainStmt, CreateEnumStmt, CreateRangeStmt, DefArg, DefElem, DefineStmt,
    ObjectType,
};
use super::tables::{
    array_type_row, modifier_of, new_array_type, new_row_type, read_modifier, row_type_row,
    too_many_columns, MAX_ATTNUM,
};
use super::util::{
    ensure_qualified_name, ensure_range_var, ensured_names, ensured_range, listed_names, named_type,
    names_key, opt_named_type, register_composite_to_record_cast, resolve_opt_type,
    resolve_type_name, with_record_cast, Step,
};
use super::views::node_texts;
use super::{ddl_outcome, DdlError, DdlErrorView};
use crate::ast::{RangeVar, TypeName};
use crate::catalog::{CatalogView, PgCatalog};
use crate::pg_catalog::{
    label_views, CastContext, CastMethod, PgAttribute, PgAttributeView, PgCast, PgClass,
    PgClassView, PgEnum, PgEnumView, PgRange, PgType, PgTypeView, RelKind, TypCategory, TypType,
};
use crate::scope::QualifiedName;
use crate::table::row_put;
use crate::text::{concat3, same_text, texts};
use vstd::prelude::*;

verus! {

// ── Array types ─────────────────────────────────────────────────────────────

/// The catalog in which a type knows the array type over it.
pub open spec fn with_array_link(c: CatalogView, element: u32, array: u32) -> CatalogView {
    match c.get_type(element) {
        Some(t) => CatalogView {
            pg_type: row_put::<PgType>(c.pg_type, PgTypeView { typarray: Some(array), ..t }),
            ..c
        },
        None => c,
    }
}

/// The catalog with the array type over a type; the type knows it.
pub open spec fn with_array_type(
    c: CatalogView,
    ns: u32,
    name: Seq<char>,
    element: u32,
) -> Step<u32> {
    match c.allocated() {
        (Err(e), c1) => (Err(e), c1),
        (Ok(array), c1) => (
            Ok(array),
            with_array_link(
                c1.with_type(array_type_row(array, name, ns, element)),
                element,
                array,
            ),
        ),
    }
}

/// Adds the array type over a type.
pub(crate) fn register_array_type(
    db: &mut PgCatalog,
    ns: u32,
    name: &str,
    element: u32,
) -> (r: Result<
    u32,
    DdlError,
>)
    ensures
        (ddl_outcome(r), final(db)@) == with_array_type(old(db)@, ns, name@, element),
{
    let array: u32 = match db.alloc_oid() {
        Ok(oid) => oid,
        Err(e) => return Err(e),
    };
    db.insert_pg_type(new_array_type(array, name, ns, element));
    let row: Option<PgType> = match db.get_type(element) {
        Some(t) => Some(
            PgType {
                oid: t.oid,
                typname: t.typname.clone(),
                typnamespace: t.typnamespace,
                typtype: t.typtype,
                typcategory: t.typcategory,
                typispreferred: t.typispreferred,
                typrelid: t.typrelid,
                typelem: t.typelem,
                typarray: Some(array),
                typbasetype: t.typbasetype,
                typnotnull: t.typnotnull,
                typtypmod: t.typtypmod,
            },
        ),
        None => None,
    };
    match row {
        Some(t) => db.pg_type.insert(t),
        None => {},
    }
    Ok(array)
}

/// The row of a type that stands for itself.
pub open spec fn plain_type_row(
    oid: u32,
    name: Seq<char>,
    ns: u32,
    kind: TypType,
    category: TypCategory,
) -> PgTypeView {
    PgTypeView {
        oid,
        typname: name,
        typnamespace: ns,
        typtype: kind,
        typcategory: category,
        typispreferred: false,
        typrelid: None,
        typelem: None,
        typarray: None,
        typbasetype: None,
        typnotnull: false,
        typtypmod: None,
    }
}

fn new_plain_type(
    oid: u32,
    name: &str,
    ns: u32,
    kind: TypType,
    category: TypCategory,
) -> (r: PgType)
    ensures
        r@ == plain_type_row(oid, name@, ns, kind, category),
{
    PgType {
        oid,
        typname: name.to_owned(),
        typnamespace: ns,
        typtype: kind,
        typcategory: category,
        typispreferred: false,
        typrelid: None,
        typelem: None,
        typarray: None,
        typbasetype: None,
        typnotnull: false,
        typtypmod: None,
    }
}

/// The error for the name of a type that is taken.
pub open spec fn type_exists(name: Seq<char>) -> DdlErrorView {
    DdlErrorView::DuplicateObject("type \""@ + name + "\" already exists"@)
}

fn type_exists_error(name: &str) -> (r: DdlError)
    ensures
        r@ == type_exists(name@),
{
    DdlError::DuplicateObject(concat3("type \"", name, "\" already exists"))
}

/// What came of a step, without its value.
pub open spec fn done<T>(s: Step<T>) -> Step<()> {
    match s {
        (Ok(_), c) => (Ok(()), c),
        (Err(e), c) => (Err(e), c),
    }
}

// ── CREATE DOMAIN ───────────────────────────────────────────────────────────

/// Whether one of the constraints is `NOT NULL`.
pub open spec fn some_not_null(cons: Seq<Constraint>) -> bool {
    exists|i: int| 0 <= i < cons.len() && (#[trigger] cons[i]).contype == ConstrType::NotNull
}

/// The row of a domain: category and preference are those of its base type.
pub open spec fn domain_row(
    c: CatalogView,
    oid: u32,
    ns: u32,
    name: Seq<char>,
    base: u32,
    typmod: Option<i32>,
    not_null: bool,
) -> PgTypeView {
    PgTypeView {
        typispreferred: match c.get_type(base) {
            Some(t) => t.typispreferred,
            None => false,
        },
        typbasetype: Some(base),
        typnotnull: not_null,
        typtypmod: typmod,
        ..plain_type_row(
            oid,
            name,
            ns,
            TypType::Domain,
            match c.get_type(base) {
                Some(t) => t.typcategory,
                None => TypCategory::UserDefined,
            },
        )
    }
}

/// What `CREATE DOMAIN` does.
pub open spec fn domain_created(c: CatalogView, stmt: CreateDomainStmt) -> Step<()> {
    match ensured_names(c, texts(stmt.domainname@)) {
        (Err(e), c1) => (Err(e), c1),
        (Ok((ns, name)), c1) => if c1.type_named(ns, name) is Some {
            (Err(type_exists(name)), c1)
        } else {
            match opt_named_type(c1, stmt.target) {
                None => (Err(DdlErrorView::TypeNotFound("domain base type"@)), c1),
                Some(base) => match modifier_of(stmt.target) {
                    Err(e) => (Err(e), c1),
                    Ok(typmod) => match c1.allocated() {
                        (Err(e), c2) => (Err(e), c2),
                        (Ok(oid), c2) => done(
                            with_array_type(
                                c2.with_type(
                                    domain_row(
                                        c2,
                                        oid,
                                        ns,
                                        name,
                                        base,
                                        typmod,
                                        some_not_null(stmt.constraints@),
                                    ),
                                ),
                                ns,
                                name,
                                oid,
                            ),
                        ),
                    },
                },
            }
        },
    }
}

fn has_not_null(cons: &Vec<Constraint>) -> (r: bool)
    ensures
        r == some_not_null(cons@),
{
    let mut i: usize = 0;
    while i < cons.len()
        invariant
            i <= cons@.len(),
            forall|j: int| 0 <= j < i ==> (#[trigger] cons@[j]).contype != ConstrType::NotNull,
        decreases cons.len() - i,
    {
        match cons[i].contype {
            ConstrType::NotNull => {
                return true;
            },
            _ => {},
        }
        i = i + 1;
    }
    false
}

fn end_with_array(
    db: &mut PgCatalog,
    ns: u32,
    name: &str,
    element: u32,
) -> (r: Result<(), DdlError>)
    ensures
        (ddl_outcome(r), final(db)@) == done(with_array_type(old(db)@, ns, name@, element)),
{
    match register_array_type(db, ns, name, element) {
        Ok(_) => Ok(()),
        Err(e) => Err(e),
    }
}

/// Applies a `CREATE DOMAIN`.
///
/// # Errors
///
/// The name is taken, the base type is not known, its modifier is none, or the OIDs have
/// run out.
pub fn create_domain(db: &mut PgCatalog, stmt: &CreateDomainStmt) -> (r: Result<(), DdlError>)
    ensures
        (ddl_outcome(r), final(db)@) == domain_created(old(db)@, *stmt),
{
    let (ns, name): (u32, String) = match ensure_qualified_name(db, &stmt.domainname) {
        Ok(p) => p,
        Err(e) => return Err(e),
    };
    if db.type_by_qname.get(ns, name.as_str()).is_some() {
        return Err(type_exists_error(name.as_str()));
    }
    let base: u32 = match resolve_opt_type(&stmt.target, db) {
        Some(oid) => oid,
        None => return Err(DdlError::TypeNotFound("domain base type".to_owned())),
    };
    let typtypmod: Option<i32> = match read_modifier(&stmt.target) {
        Ok(m) => m,
        Err(e) => return Err(e),
    };
    let oid: u32 = match db.alloc_oid() {
        Ok(oid) => oid,
        Err(e) => return Err(e),
    };
    let (typcategory, typispreferred): (TypCategory, bool) = match db.get_type(base) {
        Some(t) => (t.typcategory, t.typispreferred),
        None => (TypCategory::UserDefined, false),
    };
    let mut row: PgType = new_plain_type(oid, name.as_str(), ns, TypType::Domain, typcategory);
    row.typispreferred = typispreferred;
    row.typbasetype = Some(base);
    row.typnotnull = has_not_null(&stmt.constraints);
    row.typtypmod = typtypmod;
    db.insert_pg_type(row);
    end_with_array(db, ns, name.as_str(), oid)
}

// ── CREATE TYPE AS ENUM ─────────────────────────────────────────────────────

/// The catalog with the labels from `i` on, each at its position in the list.
pub open spec fn with_enum_labels(
    c: CatalogView,
    typid: u32,
    labels: Seq<Seq<char>>,
    i: int,
) -> Step<()>
    decreases labels.len() - i,
{
    if i < 0 || i >= labels.len() {
        (Ok(()), c)
    } else {
        match c.allocated() {
            (Err(e), c1) => (Err(e), c1),
            (Ok(oid), c1) => with_enum_labels(
                c1.with_label_at(
                    PgEnumView { oid, enumtypid: typid, enumlabel: labels[i] },
                    c1.labels_of(typid).len() as int,
                ),
                typid,
                labels,
                i + 1,
            ),
        }
    }
}

/// What `CREATE TYPE ... AS ENUM` does.
pub open spec fn enum_created(c: CatalogView, stmt: CreateEnumStmt) -> Step<()> {
    match ensured_names(c, texts(stmt.names@)) {
        (Err(e), c1) => (Err(e), c1),
        (Ok((ns, name)), c1) => if c1.type_named(ns, name) is Some {
            (Err(type_exists(name)), c1)
        } else {
            match c1.allocated() {
                (Err(e), c2) => (Err(e), c2),
                (Ok(oid), c2) => match with_enum_labels(
                    c2.with_type(
                        plain_type_row(oid, name, ns, TypType::Enum, TypCategory::Enum),
                    ),
                    oid,
                    node_texts(stmt.vals@),
                    0,
                ) {
                    (Err(e), c3) => (Err(e), c3),
                    (Ok(_), c3) => done(with_array_type(c3, ns, name, oid)),
                },
            }
        },
    }
}

fn add_labels(db: &mut PgCatalog, typid: u32, labels: &Vec<String>) -> (r: Result<(), DdlError>)
    ensures
        (ddl_outcome(r), final(db)@) == with_enum_labels(old(db)@, typid, texts(labels@), 0),
{
    let mut i: usize = 0;
    while i < labels.len()
        invariant
            i <= labels@.len(),
            with_enum_labels(old(db)@, typid, texts(labels@), 0) == with_enum_labels(
                db@,
                typid,
                texts(labels@),
                i as int,
            ),
        decreases labels.len() - i,
    {
        let oid: u32 = match db.alloc_oid() {
            Ok(oid) => oid,
            Err(e) => return Err(e),
        };
        let at: usize = db.labels_of(typid).len();
        db.insert_pg_enum(
            PgEnum { oid, enumtypid: typid, enumlabel: labels[i].clone() },
            at,
        );
        i = i + 1;
    }
    Ok(())
}

/// Applies a `CREATE TYPE ... AS ENUM`.
///
/// # Errors
///
/// The name is taken, or the OIDs have run out.
pub fn create_enum(db: &mut PgCatalog, stmt: &CreateEnumStmt) -> (r: Result<(), DdlError>)
    ensures
        (ddl_outcome(r), final(db)@) == enum_created(old(db)@, *stmt),
{
    let (ns, name): (u32, String) = match ensure_qualified_name(db, &stmt.names) {
        Ok(p) => p,
        Err(e) => return Err(e),
    };
    if db.type_by_qname.get(ns, name.as_str()).is_some() {
        return Err(type_exists_error(name.as_str()));
    }
    let labels: Vec<String> = super::views::collect_texts(&stmt.vals);
    let oid: u32 = match db.alloc_oid() {
        Ok(oid) => oid,
        Err(e) => return Err(e),
    };
    db.insert_pg_type(
        new_plain_type(oid, name.as_str(), ns, TypType::Enum, TypCategory::Enum),
    );
    match add_labels(db, oid, &labels) {
        Ok(_) => {},
        Err(e) => return Err(e),
    }
    end_with_array(db, ns, name.as_str(), oid)
}

// ── CREATE TYPE AS (...) ────────────────────────────────────────────────────

/// A field of a composite type.
#[verifier::ext_equal]
pub struct FieldView {
    pub name: Seq<char>,
    pub type_oid: u32,
    pub typmod: Option<i32>,
    pub not_null: bool,
}

/// The fields whose types are known, or the first of their modifiers that is none.
pub open spec fn composite_fields(c: CatalogView, defs: Seq<ColumnDef>) -> Result<
    Seq<FieldView>,
    DdlErrorView,
>
    decreases defs.len(),
{
    if defs.len() == 0 {
        Ok(Seq::empty())
    } else {
        let cd = defs.last();
        match composite_fields(c, defs.drop_last()) {
            Err(e) => Err(e),
            Ok(rest) => match opt_named_type(c, cd.target) {
                Some(oid) => match modifier_of(cd.target) {
                    Err(e) => Err(e),
                    Ok(typmod) => Ok(
                        rest.push(
                            FieldView {
                                name: cd.colname@,
                                type_oid: oid,
                                typmod,
                                not_null: cd.is_not_null,
                            },
                        ),
                    ),
                },
                None => Ok(rest),
            },
        }
    }
}

/// A modifier that is none stays one whatever fields follow.
proof fn lemma_fault_stays(c: CatalogView, defs: Seq<ColumnDef>, n: int)
    requires
        0 <= n <= defs.len(),
        composite_fields(c, defs.take(n)) is Err,
    ensures
        composite_fields(c, defs) == composite_fields(c, defs.take(n)),
    decreases defs.len() - n,
{
    if n == defs.len() {
        assert(defs.take(n) =~= defs);
    } else {
        assert(defs.take(n + 1).drop_last() =~= defs.take(n));
        lemma_fault_stays(c, defs, n + 1);
    }
}

/// The row of a field.
pub open spec fn field_row(relid: u32, f: FieldView, attnum: i16) -> PgAttributeView {
    PgAttributeView {
        attrelid: relid,
        attname: f.name,
        atttypid: f.type_oid,
        attnum,
        attnotnull: f.not_null,
        atthasdef: false,
        attgenerated: None,
        atttypmod: f.typmod,
        attidentity: None,
    }
}

/// The catalog with the first `n` fields of a composite type.
pub open spec fn with_fields(
    c: CatalogView,
    relid: u32,
    fields: Seq<FieldView>,
    n: int,
) -> CatalogView
    decreases n,
{
    if n <= 0 {
        c
    } else {
        with_fields(c, relid, fields, n - 1).with_attribute(
            field_row(relid, fields[n - 1], n as i16),
        )
    }
}

/// What making a composite type whose name is free does.
pub open spec fn composite_added(
    c: CatalogView,
    ns: u32,
    name: Seq<char>,
    fields: Seq<FieldView>,
) -> Step<
    (),
> {
    match c.allocated() {
        (Err(e), c1) => (Err(e), c1),
        (Ok(relid), c1) => match c1.allocated() {
            (Err(e), c2) => (Err(e), c2),
            (Ok(oid), c2) => match with_array_type(
                with_fields(
                    c2.with_class(
                        PgClassView {
                            oid: relid,
                            relname: name,
                            relnamespace: ns,
                            relkind: RelKind::CompositeType,
                            reltype: Some(oid),
                        },
                    ),
                    relid,
                    fields,
                    fields.len() as int,
                ).with_type(row_type_row(oid, name, ns, relid, None)),
                ns,
                name,
                oid,
            ) {
                (Err(e), c3) => (Err(e), c3),
                (Ok(_), c3) => with_record_cast(c3, oid),
            },
        },
    }
}

/// What `CREATE TYPE ... AS (...)` does.
pub open spec fn composite_created(c: CatalogView, stmt: CompositeTypeStmt) -> Step<()> {
    match stmt.typevar {
        None => (Err(DdlErrorView::Parse("CREATE TYPE without name"@)), c),
        Some(rv) => match ensured_range(c, rv) {
            (Err(e), c1) => (Err(e), c1),
            (Ok((ns, name)), c1) => if c1.type_named(ns, name) is Some {
                (Err(type_exists(name)), c1)
            } else {
                match composite_fields(c1, stmt.coldeflist@) {
                    Err(e) => (Err(e), c1),
                    Ok(fields) => if fields.len() > MAX_ATTNUM {
                        (Err(too_many_columns()), c1)
                    } else {
                        composite_added(c1, ns, name, fields)
                    },
                }
            },
        },
    }
}

#[derive(Debug)]
struct Field {
    name: String,
    type_oid: u32,
    typmod: Option<i32>,
    not_null: bool,
}

impl View for Field {
    type V = FieldView;

    closed spec fn view(&self) -> FieldView {
        FieldView {
            name: self.name@,
            type_oid: self.type_oid,
            typmod: self.typmod,
            not_null: self.not_null,
        }
    }
}

spec fn field_views(v: Seq<Field>) -> Seq<FieldView> {
    v.map_values(|f: Field| f@)
}

spec fn fields_outcome(r: Result<Vec<Field>, DdlError>) -> Result<Seq<FieldView>, DdlErrorView> {
    match r {
        Ok(v) => Ok(field_views(v@)),
        Err(e) => Err(e@),
    }
}

fn read_fields(db: &PgCatalog, defs: &Vec<ColumnDef>) -> (r: Result<Vec<Field>, DdlError>)
    ensures
        fields_outcome(r) == composite_fields(db@, defs@),
{
    let mut r: Vec<Field> = Vec::new();
    let mut i: usize = 0;
    proof {
        assert(field_views(r@) =~= Seq::empty());
    }
    while i < defs.len()
        invariant
            i <= defs@.len(),
            composite_fields(db@, defs@.take(i as int)) == Ok::<Seq<FieldView>, DdlErrorView>(
                field_views(r@),
            ),
        decreases defs.len() - i,
    {
        proof {
            assert(defs@.take(i + 1).drop_last() =~= defs@.take(i as int));
        }
        let cd: &ColumnDef = &defs[i];
        match resolve_opt_type(&cd.target, db) {
            Some(oid) => {
                let ghost before = field_views(r@);
                let typmod: Option<i32> = match read_modifier(&cd.target) {
                    Ok(m) => m,
                    Err(e) => {
                        proof {
                            lemma_fault_stays(db@, defs@, i + 1);
                        }
                        return Err(e);
                    },
                };
                let f: Field = Field {
                    name: cd.colname.clone(),
                    type_oid: oid,
                    typmod,
                    not_null: cd.is_not_null,
                };
                r.push(f);
                proof {
                    assert(field_views(r@) =~= before.push(f@));
                }
            },
            None => {},
        }
        i = i + 1;
    }
    proof {
        assert(defs@.take(i as int) =~= defs@);
    }
    Ok(r)
}

fn add_composite(db: &mut PgCatalog, ns: u32, name: &str, fields: &Vec<Field>) -> (r: Result<
    (),
    DdlError,
>)
    requires
        fields@.len() <= MAX_ATTNUM,
    ensures
        (ddl_outcome(r), final(db)@) == composite_added(
            old(db)@,
            ns,
            name@,
            field_views(fields@),
        ),
{
    let relid: u32 = match db.alloc_oid() {
        Ok(oid) => oid,
        Err(e) => return Err(e),
    };
    let oid: u32 = match db.alloc_oid() {
        Ok(oid) => oid,
        Err(e) => return Err(e),
    };
    db.insert_pg_class(
        PgClass {
            oid: relid,
            relname: name.to_owned(),
            relnamespace: ns,
            relkind: RelKind::CompositeType,
            reltype: Some(oid),
        },
    );
    let ghost c0 = db@;
    let ghost views = field_views(fields@);
    let mut i: usize = 0;
    while i < fields.len()
        invariant
            i <= fields@.len() <= MAX_ATTNUM,
            views == field_views(fields@),
            db@ == with_fields(c0, relid, views, i as int),
        decreases fields.len() - i,
    {
        let f: &Field = &fields[i];
        proof {
            assert(views[i as int] == f@);
        }
        db.insert_pg_attribute(
            PgAttribute {
                attrelid: relid,
                attname: f.name.clone(),
                atttypid: f.type_oid,
                attnum: (i + 1) as i16,
                attnotnull: f.not_null,
                atthasdef: false,
                attgenerated: None,
                atttypmod: f.typmod,
                attidentity: None,
            },
        );
        i = i + 1;
    }
    db.insert_pg_type(new_row_type(oid, name, ns, relid, None));
    match register_array_type(db, ns, name, oid) {
        Ok(_) => {},
        Err(e) => return Err(e),
    }
    register_composite_to_record_cast(db, oid)
}

/// Applies a `CREATE TYPE ... AS (...)`.
///
/// # Errors
///
/// The name is missing or taken, a modifier is none, or the OIDs have run out.
pub fn create_composite(db: &mut PgCatalog, stmt: &CompositeTypeStmt) -> (r: Result<(), DdlError>)
    ensures
        (ddl_outcome(r), final(db)@) == composite_created(old(db)@, *stmt),
{
    let rv: &RangeVar = match &stmt.typevar {
        Some(rv) => rv,
        None => return Err(DdlError::Parse("CREATE TYPE without name".to_owned())),
    };
    let (ns, name): (u32, String) = match ensure_range_var(db, rv) {
        Ok(p) => p,
        Err(e) => return Err(e),
    };
    if db.type_by_qname.get(ns, name.as_str()).is_some() {
        return Err(type_exists_error(name.as_str()));
    }
    let fields: Vec<Field> = match read_fields(db, &stmt.coldeflist) {
        Ok(fields) => fields,
        Err(e) => return Err(e),
    };
    proof {
        assert(field_views(fields@).len() == fields@.len());
    }
    if fields.len() > 32767 {
        return Err(DdlError::Internal("column number overflowed".to_owned()));
    }
    add_composite(db, ns, name.as_str(), &fields)
}

// ── CREATE TYPE AS RANGE ────────────────────────────────────────────────────

/// The subtype that the options of a range type give; of several the last.
pub open spec fn range_subtype(c: CatalogView, params: Seq<DefElem>) -> Option<u32>
    decreases params.len(),
{
    if params.len() == 0 {
        None
    } else {
        match params.last().arg {
            DefArg::TypeName(tn) => if params.last().defname@ == "subtype"@ {
                named_type(c, tn)
            } else {
                range_subtype(c, params.drop_last())
            },
            _ => range_subtype(c, params.drop_last()),
        }
    }
}

/// What `CREATE TYPE ... AS RANGE` does. Without a known subtype it does nothing.
pub open spec fn range_created(c: CatalogView, stmt: CreateRangeStmt) -> Step<()> {
    match ensured_names(c, texts(stmt.names@)) {
        (Err(e), c1) => (Err(e), c1),
        (Ok((ns, name)), c1) => if c1.type_named(ns, name) is Some {
            (Err(type_exists(name)), c1)
        } else {
            match range_subtype(c1, stmt.params@) {
                None => (Ok(()), c1),
                Some(subtype) => match c1.allocated() {
                    (Err(e), c2) => (Err(e), c2),
                    (Ok(oid), c2) => done(
                        with_array_type(
                            c2.with_type(
                                plain_type_row(oid, name, ns, TypType::Range, TypCategory::Range),
                            ).with_range(PgRange { rngtypid: oid, rngsubtype: subtype }),
                            ns,
                            name,
                            oid,
                        ),
                    ),
                },
            }
        },
    }
}

fn find_subtype(db: &PgCatalog, params: &Vec<DefElem>) -> (r: Option<u32>)
    ensures
        r == range_subtype(db@, params@),
{
    let mut r: Option<u32> = None;
    let mut i: usize = 0;
    while i < params.len()
        invariant
            i <= params@.len(),
            r == range_subtype(db@, params@.take(i as int)),
        decreases params.len() - i,
    {
        proof {
            assert(params@.take(i + 1).drop_last() =~= params@.take(i as int));
        }
        match &params[i].arg {
            DefArg::TypeName(tn) => {
                if same_text(params[i].defname.as_str(), "subtype") {
                    r = resolve_type_name(tn, db);
                }
            },
            _ => {},
        }
        i = i + 1;
    }
    proof {
        assert(params@.take(i as int) =~= params@);
    }
    r
}

/// Applies a `CREATE TYPE ... AS RANGE`.
///
/// # Errors
///
/// The name is taken, or the OIDs have run out.
pub fn create_range(db: &mut PgCatalog, stmt: &CreateRangeStmt) -> (r: Result<(), DdlError>)
    ensures
        (ddl_outcome(r), final(db)@) == range_created(old(db)@, *stmt),
{
    let (ns, name): (u32, String) = match ensure_qualified_name(db, &stmt.names) {
        Ok(p) => p,
        Err(e) => return Err(e),
    };
    if db.type_by_qname.get(ns, name.as_str()).is_some() {
        return Err(type_exists_error(name.as_str()));
    }
    let subtype: u32 = match find_subtype(db, &stmt.params) {
        Some(oid) => oid,
        None => return Ok(()),
    };
    let oid: u32 = match db.alloc_oid() {
        Ok(oid) => oid,
        Err(e) => return Err(e),
    };
    db.insert_pg_type(
        new_plain_type(oid, name.as_str(), ns, TypType::Range, TypCategory::Range),
    );
    db.insert_pg_range(PgRange { rngtypid: oid, rngsubtype: subtype });
    end_with_array(db, ns, name.as_str(), oid)
}

// ── ALTER TYPE ADD VALUE ────────────────────────────────────────────────────

/// The position of the first label of a text, or the number of labels.
pub open spec fn label_position(labels: Seq<PgEnumView>, text: Seq<char>) -> int
    decreases labels.len(),
{
    if labels.len() == 0 {
        0
    } else if labels[0].enumlabel == text {
        0
    } else {
        1 + label_position(labels.drop_first(), text)
    }
}

/// The position at which a new label goes: beside its neighbour, or last.
pub open spec fn new_label_position(labels: Seq<PgEnumView>, stmt: AlterEnumStmt) -> int {
    let n = label_position(labels, stmt.new_val_neighbor@);
    if stmt.new_val_neighbor@.len() == 0 || n >= labels.len() {
        labels.len() as int
    } else if stmt.new_val_is_after {
        n + 1
    } else {
        n
    }
}

/// What `ALTER TYPE ... ADD VALUE` does. A type that is no enum stays as it is.
pub open spec fn enum_altered(c: CatalogView, stmt: AlterEnumStmt) -> Step<()> {
    let names = listed_names(c, texts(stmt.names@));
    match type_at(c, names) {
        None => (Err(DdlErrorView::TypeNotFound(names.0 + "."@ + names.1)), c),
        Some(oid) => {
            let is_enum = match c.get_type(oid) {
                Some(t) => t.typtype == TypType::Enum,
                None => false,
            };
            let labels = c.labels_of(oid);
            if !is_enum {
                (Ok(()), c)
            } else if label_position(labels, stmt.new_val@) < labels.len() {
                if stmt.skip_if_new_val_exists {
                    (Ok(()), c)
                } else {
                    (
                        Err(
                            DdlErrorView::DuplicateObject(
                                "enum label \""@ + stmt.new_val@ + "\" already exists"@,
                            ),
                        ),
                        c,
                    )
                }
            } else {
                match c.allocated() {
                    (Err(e), c1) => (Err(e), c1),
                    (Ok(label), c1) => (
                        Ok(()),
                        c1.with_label_at(
                            PgEnumView {
                                oid: label,
                                enumtypid: oid,
                                enumlabel: stmt.new_val@,
                            },
                            new_label_position(labels, stmt),
                        ),
                    ),
                }
            }
        },
    }
}

proof fn lemma_label_position(labels: Seq<PgEnumView>, text: Seq<char>, k: int)
    requires
        0 <= k <= labels.len(),
        forall|j: int| 0 <= j < k ==> (#[trigger] labels[j]).enumlabel != text,
        k < labels.len() ==> labels[k].enumlabel == text,
    ensures
        label_position(labels, text) == k,
    decreases labels.len(),
{
    if labels.len() > 0 && k > 0 {
        let rest = labels.drop_first();
        assert forall|j: int| 0 <= j < k - 1 implies (#[trigger] rest[j]).enumlabel != text by {
            assert(rest[j] == labels[j + 1]);
        }
        lemma_label_position(rest, text, k - 1);
    }
}

fn find_label_position(labels: &Vec<PgEnum>, text: &str) -> (r: usize)
    ensures
        r == label_position(label_views(labels@), text@),
        r <= labels@.len(),
{
    let ghost views = label_views(labels@);
    let mut i: usize = 0;
    while i < labels.len()
        invariant
            views == label_views(labels@),
            i <= labels@.len(),
            forall|j: int| 0 <= j < i ==> (#[trigger] views[j]).enumlabel != text@,
        decreases labels.len() - i,
    {
        if same_text(labels[i].enumlabel.as_str(), text) {
            proof {
                lemma_label_position(views, text@, i as int);
            }
            return i;
        }
        i = i + 1;
    }
    proof {
        lemma_label_position(views, text@, i as int);
    }
    i
}

/// Applies an `ALTER TYPE ... ADD VALUE`.
///
/// # Errors
///
/// The type does not exist, the label exists already and `IF NOT EXISTS` is not
/// written, or the OIDs have run out.
pub fn alter_enum(db: &mut PgCatalog, stmt: &AlterEnumStmt) -> (r: Result<(), DdlError>)
    ensures
        (ddl_outcome(r), final(db)@) == enum_altered(old(db)@, *stmt),
{
    let key: QualifiedName = names_key(&stmt.names, db);
    let oid: u32 = match find_type_at(db, key.schema.as_str(), key.name.as_str()) {
        Some(oid) => oid,
        None => return Err(
            DdlError::TypeNotFound(concat3(key.schema.as_str(), ".", key.name.as_str())),
        ),
    };
    let is_enum: bool = match db.get_type(oid) {
        Some(t) => match t.typtype {
            TypType::Enum => true,
            _ => false,
        },
        None => false,
    };
    if !is_enum {
        return Ok(());
    }
    let labels: Vec<PgEnum> = db.labels_of(oid);
    if find_label_position(&labels, stmt.new_val.as_str()) < labels.len() {
        if stmt.skip_if_new_val_exists {
            return Ok(());
        }
        return Err(
            DdlError::DuplicateObject(
                concat3("enum label \"", stmt.new_val.as_str(), "\" already exists"),
            ),
        );
    }
    let n: usize = find_label_position(&labels, stmt.new_val_neighbor.as_str());
    let at: usize = if stmt.new_val_neighbor.as_str().is_empty() || n >= labels.len() {
        labels.len()
    } else if stmt.new_val_is_after {
        n + 1
    } else {
        n
    };
    let label: u32 = match db.alloc_oid() {
        Ok(oid) => oid,
        Err(e) => return Err(e),
    };
    db.insert_pg_enum(
        PgEnum { oid: label, enumtypid: oid, enumlabel: stmt.new_val.clone() },
        at,
    );
    Ok(())
}

// ── CREATE TYPE name ────────────────────────────────────────────────────────

/// What `CREATE TYPE name` and `CREATE TYPE name (...)` do. The second completes the
/// first, which needs nothing more here.
pub open spec fn type_defined(c: CatalogView, stmt: DefineStmt) -> Step<()> {
    if stmt.kind != ObjectType::Type {
        (Ok(()), c)
    } else {
        match ensured_names(c, texts(stmt.defnames@)) {
            (Err(e), c1) => (Err(e), c1),
            (Ok((ns, name)), c1) => if c1.type_named(ns, name) is Some {
                (Ok(()), c1)
            } else {
                match c1.allocated() {
                    (Err(e), c2) => (Err(e), c2),
                    (Ok(oid), c2) => done(
                        with_array_type(
                            c2.with_type(
                                plain_type_row(
                                    oid,
                                    name,
                                    ns,
                                    TypType::Base,
                                    TypCategory::UserDefined,
                                ),
                            ),
                            ns,
                            name,
                            oid,
                        ),
                    ),
                }
            },
        }
    }
}

/// Applies a `CREATE TYPE name`, with or without a definition.
///
/// # Errors
///
/// The OIDs have run out.
pub fn define_type(db: &mut PgCatalog, stmt: &DefineStmt) -> (r: Result<(), DdlError>)
    ensures
        (ddl_outcome(r), final(db)@) == type_defined(old(db)@, *stmt),
{
    match stmt.kind {
        ObjectType::Type => {},
        _ => return Ok(()),
    }
    let (ns, name): (u32, String) = match ensure_qualified_name(db, &stmt.defnames) {
        Ok(p) => p,
        Err(e) => return Err(e),
    };
    if db.type_by_qname.get(ns, name.as_str()).is_some() {
        return Ok(());
    }
    let oid: u32 = match db.alloc_oid() {
        Ok(oid) => oid,
        Err(e) => return Err(e),
    };
    db.insert_pg_type(
        new_plain_type(oid, name.as_str(), ns, TypType::Base, TypCategory::UserDefined),
    );
    end_with_array(db, ns, name.as_str(), oid)
}

// ── CREATE CAST ─────────────────────────────────────────────────────────────

/// When a cast is applied.
pub open spec fn cast_context(x: CoercionContext) -> CastContext {
    match x {
        CoercionContext::Implicit => CastContext::Implicit,
        CoercionContext::Assignment => CastContext::Assignment,
        CoercionContext::Other => CastContext::Explicit,
    }
}

/// How a cast is carried out.
pub open spec fn cast_method(stmt: CreateCastStmt) -> CastMethod {
    if stmt.inout {
        CastMethod::InOut
    } else if stmt.has_func {
        CastMethod::Function
    } else {
        CastMethod::Binary
    }
}

/// What `CREATE CAST` does. Between types that are not known it does nothing.
pub open spec fn cast_created(c: CatalogView, stmt: CreateCastStmt) -> Step<()> {
    match (opt_named_type(c, stmt.sourcetype), opt_named_type(c, stmt.targettype)) {
        (Some(source), Some(target)) => match c.allocated() {
            (Err(e), c1) => (Err(e), c1),
            (Ok(oid), c1) => (
                Ok(()),
                c1.with_cast(
                    PgCast {
                        oid,
                        castsource: source,
                        casttarget: target,
                        castcontext: cast_context(stmt.context),
                        castmethod: cast_method(stmt),
                    },
                ),
            ),
        },
        _ => (Ok(()), c),
    }
}

/// Applies a `CREATE CAST`.
///
/// # Errors
///
/// The OIDs have run out.
pub fn create_cast(db: &mut PgCatalog, stmt: &CreateCastStmt) -> (r: Result<(), DdlError>)
    ensures
        (ddl_outcome(r), final(db)@) == cast_created(old(db)@, *stmt),
{
    let (source, target): (u32, u32) = match (
        resolve_opt_type(&stmt.sourcetype, db),
        resolve_opt_type(&stmt.targettype, db),
    ) {
        (Some(s), Some(t)) => (s, t),
        _ => return Ok(()),
    };
    let castcontext: CastContext = match stmt.context {
        CoercionContext::Implicit => CastContext::Implicit,
        CoercionContext::Assignment => CastContext::Assignment,
        CoercionContext::Other => CastContext::Explicit,
    };
    let castmethod: CastMethod = if stmt.inout {
        CastMethod::InOut
    } else if stmt.has_func {
        CastMethod::Function
    } else {
        CastMethod::Binary
    };
    let oid: u32 = match db.alloc_oid() {
        Ok(oid) => oid,
        Err(e) => return Err(e),
    };
    db.insert_pg_cast(
        PgCast { oid, castsource: source, casttarget: target, castcontext, castmethod },
    );
    Ok(())
}

} // verus!
