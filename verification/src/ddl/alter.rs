//! `ALTER ... RENAME` and `ALTER ... SET SCHEMA`.
//!
//! Only what an object is called and where it stands changes here. Stored queries
//! refer to objects and not to names, so nothing has to be done for views.

use super::alter_column::{column_position, find_column_position};
use super::alter_table::{constraint_named, find_constraint_named};
use super::constraints::makes_key;
use super::drop::{collect_item_texts, find_type_at, type_at, type_parts};
use super::routines::{
    find_placed_proc, known_args, resolve_args, routine_on_path, RoutineKind,
};
use super::stmt::{AlterObjectSchemaStmt, ObjectRef, ObjectType, ObjectWithArgs, RenameStmt};
use super::util::{
    default_schema, default_schema_name, ensure_namespace, ensured_namespace, range_names,
    range_var_names, Step,
};
use super::views::{
    rewrite_views_on_column_rename, rewrite_views_on_schema_rename, rewrite_views_on_table_rename,
};
use super::{ddl_outcome, DdlError, DdlErrorView};
use crate::ast::{qualified, RangeVar};
use crate::catalog::{CatalogView, PgCatalog};
use crate::expr::split_name;
use crate::pg_catalog::{
    attr_views, copy_attnums, ConType, PgAttribute, PgAttributeView, PgConstraint,
    PgConstraintView, RelKind,
};
use crate::text::{concat2, concat3, concat4, concat5, texts};
use vstd::prelude::*;

verus! {

// ── Types with their arrays ─────────────────────────────────────────────────

/// The catalog in which the type of this name and the array type over it, as far as
/// they are there, have another name and schema.
pub open spec fn with_types_moved(
    c: CatalogView,
    ns: u32,
    name: Seq<char>,
    new_name: Seq<char>,
    new_ns: u32,
) -> CatalogView {
    match c.type_named(ns, name) {
        Some(oid) => {
            let c1 = c.with_type_renamed(oid, new_name, new_ns);
            match c1.type_named(ns, "_"@ + name) {
                Some(array) => c1.with_type_renamed(array, "_"@ + new_name, new_ns),
                None => c1,
            }
        },
        None => c,
    }
}

fn move_types(db: &mut PgCatalog, ns: u32, name: &str, new_name: &str, new_ns: u32)
    ensures
        final(db)@ == with_types_moved(old(db)@, ns, name@, new_name@, new_ns),
{
    match db.type_by_qname.get(ns, name) {
        Some(oid) => {
            db.rename_pg_type(oid, new_name, new_ns);
            let old_array: String = concat2("_", name);
            match db.type_by_qname.get(ns, old_array.as_str()) {
                Some(array) => {
                    let new_array: String = concat2("_", new_name);
                    db.rename_pg_type(array, new_array.as_str(), new_ns);
                },
                None => {},
            }
        },
        None => {},
    }
}

// ── Relations ───────────────────────────────────────────────────────────────

/// The error for a relation that is not there.
pub open spec fn unknown_table(names: (Seq<char>, Seq<char>)) -> DdlErrorView {
    DdlErrorView::TableNotFound(names.0 + "."@ + names.1)
}

/// The error for a type that is not there.
pub open spec fn unknown_type(names: (Seq<char>, Seq<char>)) -> DdlErrorView {
    DdlErrorView::TypeNotFound(names.0 + "."@ + names.1)
}

/// The catalog in which a relation, its composite type and the array type over it
/// have another name and schema.
pub open spec fn with_relation_moved(
    c: CatalogView,
    relid: u32,
    ns: u32,
    name: Seq<char>,
    new_name: Seq<char>,
    new_ns: u32,
) -> CatalogView {
    with_types_moved(c.with_class_renamed(relid, new_name, new_ns), ns, name, new_name, new_ns)
}

/// The schema and the relation that a name leads to.
pub open spec fn placed_relation(
    c: CatalogView,
    names: (Seq<char>, Seq<char>),
) -> Option<(u32, u32)> {
    match c.namespace_oid(names.0) {
        Some(ns) => match c.class_named(ns, names.1) {
            Some(oid) => Some((ns, oid)),
            None => None,
        },
        None => None,
    }
}

/// What renaming a relation does.
pub open spec fn relation_renamed(c: CatalogView, stmt: RenameStmt) -> Step<()> {
    match stmt.relation {
        None => (Ok(()), c),
        Some(rv) => {
            let names = range_names(c, rv);
            match placed_relation(c, names) {
                None => if stmt.missing_ok {
                    (Ok(()), c)
                } else {
                    (Err(unknown_table(names)), c)
                },
                Some((ns, relid)) => (
                    Ok(()),
                    with_relation_moved(c, relid, ns, names.1, stmt.newname@, ns),
                ),
            }
        },
    }
}

/// What moving a relation to another schema does.
pub open spec fn relation_moved(
    c: CatalogView,
    stmt: AlterObjectSchemaStmt,
    new_ns: u32,
) -> Step<()> {
    match stmt.relation {
        None => (Ok(()), c),
        Some(rv) => {
            let names = range_names(c, rv);
            match placed_relation(c, names) {
                None => if stmt.missing_ok {
                    (Ok(()), c)
                } else {
                    (Err(unknown_table(names)), c)
                },
                Some((ns, relid)) => (
                    Ok(()),
                    with_relation_moved(c, relid, ns, names.1, names.1, new_ns),
                ),
            }
        },
    }
}

fn find_placed_relation(db: &PgCatalog, schema: &str, name: &str) -> (r: Option<(u32, u32)>)
    ensures
        r == placed_relation(db@, (schema@, name@)),
{
    match db.namespace_oid(schema) {
        Some(ns) => match db.class_by_qname.get(ns, name) {
            Some(oid) => Some((ns, oid)),
            None => None,
        },
        None => None,
    }
}

fn unknown_table_error(schema: &str, name: &str) -> (r: DdlError)
    ensures
        r@ == unknown_table((schema@, name@)),
{
    DdlError::TableNotFound(concat3(schema, ".", name))
}

fn unknown_type_error(schema: &str, name: &str) -> (r: DdlError)
    ensures
        r@ == unknown_type((schema@, name@)),
{
    DdlError::TypeNotFound(concat3(schema, ".", name))
}

fn rename_relation(db: &mut PgCatalog, stmt: &RenameStmt) -> (r: Result<(), DdlError>)
    ensures
        (ddl_outcome(r), final(db)@) == relation_renamed(old(db)@, *stmt),
{
    let rv: &RangeVar = match &stmt.relation {
        Some(rv) => rv,
        None => return Ok(()),
    };
    let (schema, name): (String, String) = range_var_names(rv, db);
    let (ns, relid): (u32, u32) = match find_placed_relation(db, schema.as_str(), name.as_str()) {
        Some(p) => p,
        None => {
            if stmt.missing_ok {
                return Ok(());
            }
            return Err(unknown_table_error(schema.as_str(), name.as_str()));
        },
    };
    db.rename_pg_class(relid, stmt.newname.as_str(), ns);
    move_types(db, ns, name.as_str(), stmt.newname.as_str(), ns);
    rewrite_views_on_table_rename(
        db,
        schema.as_str(),
        name.as_str(),
        schema.as_str(),
        stmt.newname.as_str(),
    );
    Ok(())
}

fn set_relation_schema(db: &mut PgCatalog, stmt: &AlterObjectSchemaStmt, new_ns: u32) -> (r: Result<
    (),
    DdlError,
>)
    ensures
        (ddl_outcome(r), final(db)@) == relation_moved(old(db)@, *stmt, new_ns),
{
    let rv: &RangeVar = match &stmt.relation {
        Some(rv) => rv,
        None => return Ok(()),
    };
    let (schema, name): (String, String) = range_var_names(rv, db);
    let (ns, relid): (u32, u32) = match find_placed_relation(db, schema.as_str(), name.as_str()) {
        Some(p) => p,
        None => {
            if stmt.missing_ok {
                return Ok(());
            }
            return Err(unknown_table_error(schema.as_str(), name.as_str()));
        },
    };
    db.rename_pg_class(relid, name.as_str(), new_ns);
    move_types(db, ns, name.as_str(), name.as_str(), new_ns);
    rewrite_views_on_table_rename(
        db,
        schema.as_str(),
        name.as_str(),
        stmt.newschema.as_str(),
        name.as_str(),
    );
    Ok(())
}

// ── Constraints and columns ─────────────────────────────────────────────────

/// The index of this name in a schema.
pub open spec fn index_at(c: CatalogView, ns: u32, name: Seq<char>) -> Option<u32> {
    match c.class_named(ns, name) {
        Some(oid) => match c.get_class(oid) {
            Some(k) => if k.relkind == RelKind::Index {
                Some(oid)
            } else {
                None
            },
            None => None,
        },
        None => None,
    }
}

/// The catalog in which a constraint has another name. The index that backs a key
/// has it too.
pub open spec fn with_constraint_renamed(
    c: CatalogView,
    ns: u32,
    k: PgConstraintView,
    new_name: Seq<char>,
) -> CatalogView {
    let c1 = c.with_constraint(PgConstraintView { conname: new_name, ..k });
    if makes_key(k.contype) {
        match index_at(c1, ns, k.conname) {
            Some(oid) => c1.with_class_renamed(oid, new_name, ns),
            None => c1,
        }
    } else {
        c1
    }
}

/// What renaming a constraint does.
pub open spec fn constraint_renamed(c: CatalogView, stmt: RenameStmt) -> Step<()> {
    match stmt.relation {
        None => (Ok(()), c),
        Some(rv) => {
            let names = range_names(c, rv);
            match placed_relation(c, names) {
                None => if stmt.missing_ok {
                    (Ok(()), c)
                } else {
                    (Err(unknown_table(names)), c)
                },
                Some((ns, relid)) => match constraint_named(
                    c.pg_constraint,
                    relid,
                    stmt.subname@,
                ) {
                    None => if stmt.missing_ok {
                        (Ok(()), c)
                    } else {
                        (
                            Err(
                                DdlErrorView::DependencyError(
                                    "constraint \""@ + stmt.subname@ + "\" of relation \""@
                                        + names.1 + "\" does not exist"@,
                                ),
                            ),
                            c,
                        )
                    },
                    Some(k) => (Ok(()), with_constraint_renamed(c, ns, k, stmt.newname@)),
                },
            }
        },
    }
}

/// The catalog in which the first column of a name has another name; it stays as it
/// is where there is none.
pub open spec fn with_column_renamed(
    c: CatalogView,
    relid: u32,
    name: Seq<char>,
    new_name: Seq<char>,
) -> CatalogView {
    let attrs = c.attributes_of(relid);
    let i = column_position(attrs, name);
    if i < attrs.len() {
        c.with_attributes(
            relid,
            attrs.update(i, PgAttributeView { attname: new_name, ..attrs[i] }),
        )
    } else {
        c
    }
}

/// What renaming a column does.
pub open spec fn column_renamed(c: CatalogView, stmt: RenameStmt) -> Step<()> {
    match stmt.relation {
        None => (Ok(()), c),
        Some(rv) => {
            let names = range_names(c, rv);
            match placed_relation(c, names) {
                None => if stmt.missing_ok {
                    (Ok(()), c)
                } else {
                    (Err(unknown_table(names)), c)
                },
                Some((_, relid)) => (
                    Ok(()),
                    with_column_renamed(c, relid, stmt.subname@, stmt.newname@),
                ),
            }
        },
    }
}

fn rename_constraint(db: &mut PgCatalog, stmt: &RenameStmt) -> (r: Result<(), DdlError>)
    ensures
        (ddl_outcome(r), final(db)@) == constraint_renamed(old(db)@, *stmt),
{
    let rv: &RangeVar = match &stmt.relation {
        Some(rv) => rv,
        None => return Ok(()),
    };
    let (schema, relname): (String, String) = range_var_names(rv, db);
    let (ns, relid): (u32, u32) = match find_placed_relation(
        db,
        schema.as_str(),
        relname.as_str(),
    ) {
        Some(p) => p,
        None => {
            if stmt.missing_ok {
                return Ok(());
            }
            return Err(unknown_table_error(schema.as_str(), relname.as_str()));
        },
    };
    let row: PgConstraint = match find_constraint_named(db, relid, stmt.subname.as_str()) {
        Some(k) => PgConstraint {
            oid: k.oid,
            conname: stmt.newname.clone(),
            conrelid: k.conrelid,
            contype: k.contype,
            conkey: copy_attnums(&k.conkey),
            confrelid: k.confrelid,
            confkey: copy_attnums(&k.confkey),
        },
        None => {
            if stmt.missing_ok {
                return Ok(());
            }
            return Err(
                DdlError::DependencyError(
                    concat5(
                        "constraint \"",
                        stmt.subname.as_str(),
                        "\" of relation \"",
                        relname.as_str(),
                        "\" does not exist",
                    ),
                ),
            );
        },
    };
    proof {
        lemma_constraint_has_name(db@.pg_constraint, relid, stmt.subname@);
    }
    let key: bool = match row.contype {
        ConType::PrimaryKey => true,
        ConType::Unique => true,
        _ => false,
    };
    db.insert_pg_constraint(row);
    if key {
        match db.class_by_qname.get(ns, stmt.subname.as_str()) {
            Some(oid) => {
                let is_index: bool = match db.get_class(oid) {
                    Some(k) => match k.relkind {
                        RelKind::Index => true,
                        _ => false,
                    },
                    None => false,
                };
                if is_index {
                    db.rename_pg_class(oid, stmt.newname.as_str(), ns);
                }
            },
            None => {},
        }
    }
    Ok(())
}

proof fn lemma_constraint_has_name(rows: Seq<PgConstraintView>, relid: u32, name: Seq<char>)
    ensures
        constraint_named(rows, relid, name) matches Some(k) ==> k.conname == name,
    decreases rows.len(),
{
    if rows.len() > 0 {
        lemma_constraint_has_name(rows.drop_last(), relid, name);
    }
}

fn rename_column(db: &mut PgCatalog, stmt: &RenameStmt) -> (r: Result<(), DdlError>)
    ensures
        (ddl_outcome(r), final(db)@) == column_renamed(old(db)@, *stmt),
{
    let rv: &RangeVar = match &stmt.relation {
        Some(rv) => rv,
        None => return Ok(()),
    };
    let (schema, name): (String, String) = range_var_names(rv, db);
    let (_, relid): (u32, u32) = match find_placed_relation(db, schema.as_str(), name.as_str()) {
        Some(p) => p,
        None => {
            if stmt.missing_ok {
                return Ok(());
            }
            return Err(unknown_table_error(schema.as_str(), name.as_str()));
        },
    };
    let mut attrs: Vec<PgAttribute> = db.attributes_of(relid);
    let ghost views = attr_views(attrs@);
    let i: usize = find_column_position(&attrs, stmt.subname.as_str());
    if i < attrs.len() {
        let mut row: PgAttribute = attrs[i].copy();
        row.attname = stmt.newname.clone();
        attrs.set(i, row);
        proof {
            assert(attr_views(attrs@) =~= views.update(i as int, row@));
        }
        db.set_attributes(relid, attrs);
    }
    rewrite_views_on_column_rename(db, relid, stmt.subname.as_str(), stmt.newname.as_str());
    Ok(())
}

// ── Routines ────────────────────────────────────────────────────────────────

/// The kind of routine that a statement is about.
pub open spec fn wanted_kind(t: ObjectType) -> RoutineKind {
    match t {
        ObjectType::Aggregate => RoutineKind::Aggregate,
        ObjectType::Procedure => RoutineKind::Procedure,
        _ => RoutineKind::Function,
    }
}

/// What messages call a routine of this kind.
pub open spec fn kind_name(t: RoutineKind) -> Seq<char> {
    match t {
        RoutineKind::Aggregate => "aggregate"@,
        RoutineKind::Procedure => "procedure"@,
        RoutineKind::Function => "function"@,
    }
}

/// The schema, the name and the argument types of the routine that an object names.
pub open spec fn routine_target(c: CatalogView, obj: ObjectRef) -> Option<
    (Option<Seq<char>>, Seq<char>, Seq<u32>),
> {
    match obj {
        ObjectRef::WithArgs(o) => match qualified(texts(o.objname@)) {
            Some((schema, name)) => Some((schema, name, known_args(c, o.objargs@))),
            None => None,
        },
        _ => None,
    }
}

/// What giving a routine another name or schema does; without a new name it keeps
/// its own, without a new schema it stays where it was found.
pub open spec fn routine_moved(
    c: CatalogView,
    obj: ObjectRef,
    t: ObjectType,
    new_name: Option<Seq<char>>,
    new_ns: Option<u32>,
    missing_ok: bool,
) -> Step<()> {
    match routine_target(c, obj) {
        None => (Ok(()), c),
        Some((schema, name, args)) => match routine_on_path(
            c,
            c.routine_path(schema),
            name,
            wanted_kind(t),
            Some(args),
        ) {
            None => if missing_ok {
                (Ok(()), c)
            } else {
                (
                    Err(
                        DdlErrorView::DependencyError(
                            kind_name(wanted_kind(t)) + " "@ + name
                                + " does not exist for the requested argument types"@,
                        ),
                    ),
                    c,
                )
            },
            Some((ns, oid)) => (
                Ok(()),
                c.with_proc_renamed(
                    oid,
                    match new_name {
                        Some(n) => n,
                        None => name,
                    },
                    match new_ns {
                        Some(n) => n,
                        None => ns,
                    },
                ),
            ),
        },
    }
}

fn move_routine(
    db: &mut PgCatalog,
    obj: &ObjectRef,
    t: ObjectType,
    new_name: Option<&str>,
    new_ns: Option<u32>,
    missing_ok: bool,
) -> (r: Result<(), DdlError>)
    ensures
        (ddl_outcome(r), final(db)@) == routine_moved(
            old(db)@,
            *obj,
            t,
            crate::lookup::opt_str(new_name),
            new_ns,
            missing_ok,
        ),
{
    let o: &ObjectWithArgs = match obj {
        ObjectRef::WithArgs(o) => o,
        _ => return Ok(()),
    };
    let (schema, name): (Option<&str>, &str) = match split_name(&o.objname) {
        Some(p) => p,
        None => return Ok(()),
    };
    let args: Vec<u32> = resolve_args(&o.objargs, db);
    let (want, word): (RoutineKind, &'static str) = match t {
        ObjectType::Aggregate => (RoutineKind::Aggregate, "aggregate"),
        ObjectType::Procedure => (RoutineKind::Procedure, "procedure"),
        _ => (RoutineKind::Function, "function"),
    };
    match find_placed_proc(db, schema, name, want, Some(&args)) {
        None => {
            if missing_ok {
                return Ok(());
            }
            Err(
                DdlError::DependencyError(
                    concat4(
                        word,
                        " ",
                        name,
                        " does not exist for the requested argument types",
                    ),
                ),
            )
        },
        Some((ns, oid)) => {
            let final_name: &str = match new_name {
                Some(n) => n,
                None => name,
            };
            let final_ns: u32 = match new_ns {
                Some(n) => n,
                None => ns,
            };
            db.rename_pg_proc(oid, final_name, final_ns);
            Ok(())
        },
    }
}

// ── Types and schemas ───────────────────────────────────────────────────────

/// The schema and the name of the type that an object names.
pub open spec fn type_names(c: CatalogView, obj: ObjectRef) -> Option<(Seq<char>, Seq<char>)> {
    match type_parts(obj) {
        Some(parts) => match qualified(parts) {
            Some((Some(schema), name)) => Some((schema, name)),
            Some((None, name)) => Some((default_schema(c), name)),
            None => None,
        },
        None => None,
    }
}

/// What giving a type, and the array type over it, another name or schema does.
pub open spec fn type_moved(
    c: CatalogView,
    obj: ObjectRef,
    new_name: Option<Seq<char>>,
    new_ns: Option<u32>,
    missing_ok: bool,
) -> Step<()> {
    match type_names(c, obj) {
        None => (Ok(()), c),
        Some(names) => match type_at(c, names) {
            None => if missing_ok {
                (Ok(()), c)
            } else {
                (Err(unknown_type(names)), c)
            },
            Some(_) => {
                let ns = c.namespace_oid(names.0).unwrap();
                (
                    Ok(()),
                    with_types_moved(
                        c,
                        ns,
                        names.1,
                        match new_name {
                            Some(n) => n,
                            None => names.1,
                        },
                        match new_ns {
                            Some(n) => n,
                            None => ns,
                        },
                    ),
                )
            },
        },
    }
}

fn find_type_names(db: &PgCatalog, obj: &ObjectRef) -> (r: Option<(String, String)>)
    ensures
        (match r {
            Some((s, n)) => Some((s@, n@)),
            None => None,
        }) == type_names(db@, *obj),
{
    let listed: Vec<String> = match obj {
        ObjectRef::TypeName(tn) => crate::text::copy_texts(&tn.names),
        ObjectRef::List(items) => collect_item_texts(items),
        _ => return None,
    };
    match split_name(&listed) {
        Some((Some(schema), name)) => Some((schema.to_owned(), name.to_owned())),
        Some((None, name)) => Some((default_schema_name(db), name.to_owned())),
        None => None,
    }
}

fn move_type(
    db: &mut PgCatalog,
    obj: &ObjectRef,
    new_name: Option<&str>,
    new_ns: Option<u32>,
    missing_ok: bool,
) -> (r: Result<(), DdlError>)
    ensures
        (ddl_outcome(r), final(db)@) == type_moved(
            old(db)@,
            *obj,
            crate::lookup::opt_str(new_name),
            new_ns,
            missing_ok,
        ),
{
    let (schema, name): (String, String) = match find_type_names(db, obj) {
        Some(p) => p,
        None => return Ok(()),
    };
    let found: bool = find_type_at(db, schema.as_str(), name.as_str()).is_some();
    match db.namespace_oid(schema.as_str()) {
        Some(ns) => {
            if found {
                let final_name: &str = match new_name {
                    Some(n) => n,
                    None => name.as_str(),
                };
                let final_ns: u32 = match new_ns {
                    Some(n) => n,
                    None => ns,
                };
                move_types(db, ns, name.as_str(), final_name, final_ns);
                return Ok(());
            }
        },
        None => {},
    }
    if missing_ok {
        Ok(())
    } else {
        Err(unknown_type_error(schema.as_str(), name.as_str()))
    }
}

/// What renaming a schema does.
pub open spec fn schema_renamed(c: CatalogView, stmt: RenameStmt) -> Step<()> {
    match c.namespace_oid(stmt.subname@) {
        None => if stmt.missing_ok {
            (Ok(()), c)
        } else {
            (
                Err(
                    DdlErrorView::DependencyError(
                        "schema \""@ + stmt.subname@ + "\" does not exist"@,
                    ),
                ),
                c,
            )
        },
        Some(ns) => (Ok(()), c.with_namespace_renamed(ns, stmt.newname@)),
    }
}

fn rename_schema(db: &mut PgCatalog, stmt: &RenameStmt) -> (r: Result<(), DdlError>)
    ensures
        (ddl_outcome(r), final(db)@) == schema_renamed(old(db)@, *stmt),
{
    match db.namespace_oid(stmt.subname.as_str()) {
        None => {
            if stmt.missing_ok {
                return Ok(());
            }
            Err(
                DdlError::DependencyError(
                    concat3("schema \"", stmt.subname.as_str(), "\" does not exist"),
                ),
            )
        },
        Some(ns) => {
            db.rename_pg_namespace(ns, stmt.newname.as_str());
            rewrite_views_on_schema_rename(db, stmt.subname.as_str(), stmt.newname.as_str());
            Ok(())
        },
    }
}

// ── The statements ──────────────────────────────────────────────────────────

/// What `ALTER ... RENAME` does.
pub open spec fn renamed(c: CatalogView, stmt: RenameStmt) -> Step<()> {
    match stmt.rename_type {
        ObjectType::Table
        | ObjectType::View
        | ObjectType::Matview
        | ObjectType::ForeignTable
        | ObjectType::Sequence => relation_renamed(c, stmt),
        ObjectType::Function | ObjectType::Procedure | ObjectType::Aggregate => routine_moved(
            c,
            stmt.object,
            stmt.rename_type,
            Some(stmt.newname@),
            None,
            stmt.missing_ok,
        ),
        ObjectType::Type | ObjectType::Domain => type_moved(
            c,
            stmt.object,
            Some(stmt.newname@),
            None,
            stmt.missing_ok,
        ),
        ObjectType::Schema => schema_renamed(c, stmt),
        ObjectType::Column => column_renamed(c, stmt),
        ObjectType::TableConstraint | ObjectType::DomainConstraint => constraint_renamed(c, stmt),
        _ => (Ok(()), c),
    }
}

/// What `ALTER ... SET SCHEMA` does. The new schema is made where it is missing.
pub open spec fn schema_set(c: CatalogView, stmt: AlterObjectSchemaStmt) -> Step<()> {
    match ensured_namespace(c, stmt.newschema@) {
        (Err(e), c1) => (Err(e), c1),
        (Ok(ns), c1) => match stmt.object_type {
            ObjectType::Table
            | ObjectType::View
            | ObjectType::Matview
            | ObjectType::ForeignTable
            | ObjectType::Sequence => relation_moved(c1, stmt, ns),
            ObjectType::Function | ObjectType::Procedure | ObjectType::Aggregate => routine_moved(
                c1,
                stmt.object,
                stmt.object_type,
                None,
                Some(ns),
                stmt.missing_ok,
            ),
            ObjectType::Type | ObjectType::Domain => type_moved(
                c1,
                stmt.object,
                None,
                Some(ns),
                stmt.missing_ok,
            ),
            _ => (Ok(()), c1),
        },
    }
}

/// Applies an `ALTER ... RENAME`.
///
/// # Errors
///
/// The object does not exist and `IF EXISTS` is not written.
pub fn rename(db: &mut PgCatalog, stmt: &RenameStmt) -> (r: Result<(), DdlError>)
    ensures
        (ddl_outcome(r), final(db)@) == renamed(old(db)@, *stmt),
{
    match stmt.rename_type {
        ObjectType::Table
        | ObjectType::View
        | ObjectType::Matview
        | ObjectType::ForeignTable
        | ObjectType::Sequence => rename_relation(db, stmt),
        ObjectType::Function | ObjectType::Procedure | ObjectType::Aggregate => move_routine(
            db,
            &stmt.object,
            stmt.rename_type,
            Some(stmt.newname.as_str()),
            None,
            stmt.missing_ok,
        ),
        ObjectType::Type | ObjectType::Domain => move_type(
            db,
            &stmt.object,
            Some(stmt.newname.as_str()),
            None,
            stmt.missing_ok,
        ),
        ObjectType::Schema => rename_schema(db, stmt),
        ObjectType::Column => rename_column(db, stmt),
        ObjectType::TableConstraint | ObjectType::DomainConstraint => rename_constraint(db, stmt),
        _ => Ok(()),
    }
}

/// Applies an `ALTER ... SET SCHEMA`.
///
/// # Errors
///
/// The object does not exist and `IF EXISTS` is not written, or the OIDs have run
/// out.
pub fn set_schema(db: &mut PgCatalog, stmt: &AlterObjectSchemaStmt) -> (r: Result<(), DdlError>)
    ensures
        (ddl_outcome(r), final(db)@) == schema_set(old(db)@, *stmt),
{
    let ns: u32 = match ensure_namespace(db, stmt.newschema.as_str()) {
        Ok(ns) => ns,
        Err(e) => return Err(e),
    };
    match stmt.object_type {
        ObjectType::Table
        | ObjectType::View
        | ObjectType::Matview
        | ObjectType::ForeignTable
        | ObjectType::Sequence => set_relation_schema(db, stmt, ns),
        ObjectType::Function | ObjectType::Procedure | ObjectType::Aggregate => move_routine(
            db,
            &stmt.object,
            stmt.object_type,
            None,
            Some(ns),
            stmt.missing_ok,
        ),
        ObjectType::Type | ObjectType::Domain => move_type(
            db,
            &stmt.object,
            None,
            Some(ns),
            stmt.missing_ok,
        ),
        _ => Ok(()),
    }
}

} // verus!
