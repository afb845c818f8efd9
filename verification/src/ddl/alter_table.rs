//! `ALTER TABLE`: its commands on constraints, and the statement as a whole.

use super::alter_column::{
    add_column, alter_column_type, change_column, column_added, column_altered, column_dropped,
    column_retyped, default_change, drop_column, drop_identity, find_plain_relname, has_columns,
    identity_set, plain_relname, set_default, set_identity, set_not_null, with_column_changed,
    ColumnChange,
};
use super::checks::{added_check_checked, validate_check_expression_for_table};
use super::constraints::{
    chosen_name, constraint_name, emit_constraint, emit_constraint_with_backing_index, find_numbers,
    find_types, fk_pending, has_same_members, local_pending, makes_key, new_foreign_key, numbers_of,
    same_members, types_of, with_backed_constraint, with_constraint_row, Pending,
};
use super::drop::{class_at, find_class_at};
use super::stmt::{AlterDef, AlterTableCmd, AlterTableStmt, AlterTableType, ConstrType, Constraint};
use super::util::{range_names, range_var_names, Step};
use super::volatile::{check_no_volatile, volatility, ExprLocation};
use super::{ddl_outcome, DdlError, DdlErrorView};
use crate::ast::RangeVar;
use crate::catalog::{CatalogView, PgCatalog};
use crate::pg_catalog::{
    attr_views, ConType, PgAttribute, PgAttributeView, PgClass, PgConstraint, PgConstraintView,
    RelKind, PG_CLASS_RELID,
};
use crate::text::{concat2, concat3, concat4, concat5, has_text, join, joined, same_text, texts};
use vstd::prelude::*;

verus! {

// ── DROP CONSTRAINT ─────────────────────────────────────────────────────────

/// The first constraint of a relation with this name.
pub open spec fn constraint_named(
    rows: Seq<PgConstraintView>,
    relid: u32,
    name: Seq<char>,
) -> Option<
    PgConstraintView,
>
    decreases rows.len(),
{
    if rows.len() == 0 {
        None
    } else {
        match constraint_named(rows.drop_last(), relid, name) {
            Some(k) => Some(k),
            None => if rows.last().conrelid == relid && rows.last().conname == name {
                Some(rows.last())
            } else {
                None
            },
        }
    }
}

/// The name of the first foreign key that refers to just these columns.
pub open spec fn foreign_key_over(rows: Seq<PgConstraintView>, relid: u32, key: Seq<i16>) -> Option<
    Seq<char>,
>
    decreases rows.len(),
{
    if rows.len() == 0 {
        None
    } else {
        match foreign_key_over(rows.drop_last(), relid, key) {
            Some(n) => Some(n),
            None => {
                let k = rows.last();
                if k.contype == ConType::ForeignKey && k.confrelid == Some(relid) && same_members(
                    k.confkey,
                    key,
                ) {
                    Some(k.conname)
                } else {
                    None
                }
            },
        }
    }
}

/// The name of a relation as messages give it.
pub open spec fn shown_relname(c: CatalogView, relid: u32) -> Seq<char> {
    match c.get_class(relid) {
        Some(k) => k.relname,
        None => "?"@,
    }
}

/// The index that backs a key: the one that has its name, in the relation's schema.
pub open spec fn backing_index(c: CatalogView, relid: u32, name: Seq<char>) -> Option<u32> {
    match c.get_class(relid) {
        Some(k) => match c.class_named(k.relnamespace, name) {
            Some(oid) => match c.get_class(oid) {
                Some(i) => if i.relkind == RelKind::Index {
                    Some(oid)
                } else {
                    None
                },
                None => None,
            },
            None => None,
        },
        None => None,
    }
}

/// The catalog without the index that backs a key.
pub open spec fn without_backing(c: CatalogView, relid: u32, name: Seq<char>) -> CatalogView {
    match backing_index(c, relid, name) {
        Some(oid) => c.without_index(oid).without_class(oid).without_dependencies(
            PG_CLASS_RELID,
            oid,
        ),
        None => c,
    }
}

/// What dropping a constraint does. A key that a foreign key refers to stays,
/// unless the command cascades; its index goes with it.
pub open spec fn constraint_dropped(c: CatalogView, relid: u32, cmd: AlterTableCmd) -> Step<()> {
    let name = cmd.name@;
    match constraint_named(c.pg_constraint, relid, name) {
        None => if cmd.missing_ok {
            (Ok(()), c)
        } else {
            (
                Err(
                    DdlErrorView::DependencyError(
                        "constraint \""@ + name + "\" of relation \""@ + shown_relname(c, relid)
                            + "\" does not exist"@,
                    ),
                ),
                c,
            )
        },
        Some(k) => if makes_key(k.contype) {
            match foreign_key_over(c.pg_constraint, relid, k.conkey) {
                Some(dep) => if cmd.cascade {
                    (Ok(()), without_backing(c, relid, name).without_constraint(k.oid))
                } else {
                    (
                        Err(
                            DdlErrorView::DependencyError(
                                "cannot drop constraint \""@ + name + "\" on \""@ + shown_relname(
                                    c,
                                    relid,
                                ) + "\" because foreign key constraint \""@ + dep
                                    + "\" depends on it"@,
                            ),
                        ),
                        c,
                    )
                },
                None => (Ok(()), without_backing(c, relid, name).without_constraint(k.oid)),
            }
        } else {
            (Ok(()), c.without_constraint(k.oid))
        },
    }
}

proof fn lemma_constraint_named(rows: Seq<PgConstraintView>, relid: u32, name: Seq<char>, n: int)
    requires
        0 <= n <= rows.len(),
        constraint_named(rows.take(n), relid, name) is Some,
    ensures
        constraint_named(rows, relid, name) == constraint_named(rows.take(n), relid, name),
    decreases rows.len(),
{
    if n < rows.len() {
        assert(rows.drop_last().take(n) =~= rows.take(n));
        lemma_constraint_named(rows.drop_last(), relid, name, n);
    } else {
        assert(rows.take(n) =~= rows);
    }
}

proof fn lemma_foreign_key_over(rows: Seq<PgConstraintView>, relid: u32, key: Seq<i16>, n: int)
    requires
        0 <= n <= rows.len(),
        foreign_key_over(rows.take(n), relid, key) is Some,
    ensures
        foreign_key_over(rows, relid, key) == foreign_key_over(rows.take(n), relid, key),
    decreases rows.len(),
{
    if n < rows.len() {
        assert(rows.drop_last().take(n) =~= rows.take(n));
        lemma_foreign_key_over(rows.drop_last(), relid, key, n);
    } else {
        assert(rows.take(n) =~= rows);
    }
}

pub(crate) fn find_constraint_named<'a>(db: &'a PgCatalog, relid: u32, name: &str) -> (r: Option<
    &'a PgConstraint,
>)
    ensures
        (match r {
            Some(k) => Some(k@),
            None => None,
        }) == constraint_named(db@.pg_constraint, relid, name@),
{
    let ghost rows = db@.pg_constraint;
    let mut i: usize = 0;
    while i < db.pg_constraint.len()
        invariant
            rows == db@.pg_constraint,
            i <= rows.len(),
            constraint_named(rows.take(i as int), relid, name@) is None,
        decreases rows.len() - i,
    {
        let k: &PgConstraint = db.pg_constraint.at(i);
        proof {
            assert(rows.take(i + 1).drop_last() =~= rows.take(i as int));
            assert(rows.take(i + 1).last() == k@);
        }
        if k.conrelid == relid && same_text(k.conname.as_str(), name) {
            proof {
                lemma_constraint_named(rows, relid, name@, i + 1);
            }
            return Some(k);
        }
        i = i + 1;
    }
    proof {
        assert(rows.take(i as int) =~= rows);
    }
    None
}

fn find_foreign_key_over(db: &PgCatalog, relid: u32, key: &Vec<i16>) -> (r: Option<String>)
    ensures
        (match r {
            Some(n) => Some(n@),
            None => None,
        }) == foreign_key_over(db@.pg_constraint, relid, key@),
{
    let ghost rows = db@.pg_constraint;
    let mut i: usize = 0;
    while i < db.pg_constraint.len()
        invariant
            rows == db@.pg_constraint,
            i <= rows.len(),
            foreign_key_over(rows.take(i as int), relid, key@) is None,
        decreases rows.len() - i,
    {
        let k: &PgConstraint = db.pg_constraint.at(i);
        proof {
            assert(rows.take(i + 1).drop_last() =~= rows.take(i as int));
            assert(rows.take(i + 1).last() == k@);
        }
        let foreign: bool = match k.contype {
            ConType::ForeignKey => true,
            _ => false,
        };
        let here: bool = match k.confrelid {
            Some(oid) => oid == relid,
            None => false,
        };
        if foreign && here && has_same_members(&k.confkey, key) {
            proof {
                lemma_foreign_key_over(rows, relid, key@, i + 1);
            }
            return Some(k.conname.clone());
        }
        i = i + 1;
    }
    proof {
        assert(rows.take(i as int) =~= rows);
    }
    None
}

fn find_shown_relname(db: &PgCatalog, relid: u32) -> (r: String)
    ensures
        r@ == shown_relname(db@, relid),
{
    match db.get_class(relid) {
        Some(k) => k.relname.clone(),
        None => "?".to_owned(),
    }
}

fn remove_backing(db: &mut PgCatalog, relid: u32, name: &str)
    ensures
        final(db)@ == without_backing(old(db)@, relid, name@),
{
    let ns: u32 = match db.get_class(relid) {
        Some(k) => k.relnamespace,
        None => return ,
    };
    let oid: u32 = match db.class_by_qname.get(ns, name) {
        Some(oid) => oid,
        None => return ,
    };
    let is_index: bool = match db.get_class(oid) {
        Some(i) => match i.relkind {
            RelKind::Index => true,
            _ => false,
        },
        None => false,
    };
    if is_index {
        db.remove_pg_index(oid);
        let _row: Option<PgClass> = db.remove_pg_class(oid);
        db.remove_dependencies(PG_CLASS_RELID, oid);
    }
}

fn drop_constraint(db: &mut PgCatalog, relid: u32, cmd: &AlterTableCmd) -> (r: Result<
    (),
    DdlError,
>)
    ensures
        (ddl_outcome(r), final(db)@) == constraint_dropped(old(db)@, relid, *cmd),
{
    let name: &str = cmd.name.as_str();
    let (oid, key, conkey): (u32, bool, Vec<i16>) = match find_constraint_named(db, relid, name) {
        Some(k) => (
            k.oid,
            match k.contype {
                ConType::PrimaryKey => true,
                ConType::Unique => true,
                _ => false,
            },
            crate::pg_catalog::copy_attnums(&k.conkey),
        ),
        None => {
            if cmd.missing_ok {
                return Ok(());
            }
            let relname: String = find_shown_relname(db, relid);
            return Err(
                DdlError::DependencyError(
                    concat5(
                        "constraint \"",
                        name,
                        "\" of relation \"",
                        relname.as_str(),
                        "\" does not exist",
                    ),
                ),
            );
        },
    };
    if key {
        match find_foreign_key_over(db, relid, &conkey) {
            Some(dep) => {
                if !cmd.cascade {
                    let relname: String = find_shown_relname(db, relid);
                    let head: String = concat5(
                        "cannot drop constraint \"",
                        name,
                        "\" on \"",
                        relname.as_str(),
                        "\" because foreign key constraint \"",
                    );
                    return Err(
                        DdlError::DependencyError(
                            concat3(head.as_str(), dep.as_str(), "\" depends on it"),
                        ),
                    );
                }
            },
            None => {},
        }
        remove_backing(db, relid, name);
    }
    db.remove_pg_constraint(oid);
    Ok(())
}

// ── ADD CONSTRAINT ──────────────────────────────────────────────────────────

/// Columns of which those with these names are not null.
pub open spec fn not_null_where(attrs: Seq<PgAttributeView>, names: Seq<Seq<char>>) -> Seq<
    PgAttributeView,
> {
    attrs.map_values(
        |a: PgAttributeView|
            if names.contains(a.attname) {
                PgAttributeView { attnotnull: true, ..a }
            } else {
                a
            },
    )
}

/// The catalog in which the columns of these names are not null.
pub open spec fn with_not_null(c: CatalogView, relid: u32, names: Seq<Seq<char>>) -> CatalogView {
    if has_columns(c, relid) {
        c.with_attributes(relid, not_null_where(c.attributes_of(relid), names))
    } else {
        c
    }
}

/// The catalog with a key over these columns, where one of them is known.
pub open spec fn with_key(
    c: CatalogView,
    relid: u32,
    name: Seq<char>,
    t: ConType,
    nums: Seq<i16>,
) -> Step<
    (),
> {
    if nums.len() == 0 {
        (Ok(()), c)
    } else {
        with_backed_constraint(c, relid, local_pending(name, t, nums))
    }
}

/// The column that a constraint `NOT NULL` is about.
pub open spec fn not_null_column(con: Constraint, fallback: Seq<char>) -> Seq<char> {
    if con.keys@.len() > 0 {
        con.keys@[0]@
    } else {
        fallback
    }
}

/// What adding a foreign key does.
pub open spec fn foreign_key_added(c: CatalogView, relid: u32, con: Constraint) -> Step<()> {
    let relname = plain_relname(c, relid);
    let attrs = c.attributes_of(relid);
    let names = texts(con.fk_attrs@);
    let types = types_of(attrs, names);
    if types.len() != names.len() {
        (
            Err(
                DdlErrorView::Parse(
                    "ALTER TABLE ADD FOREIGN KEY references unknown local column"@,
                ),
            ),
            c,
        )
    } else {
        match fk_pending(
            c,
            con,
            relname,
            relname + "_"@ + joined(names, "_"@) + "_fkey"@,
            numbers_of(attrs, names),
            types,
        ) {
            Err(e) => (Err(e), c),
            Ok(p) => with_constraint_row(c, relid, p),
        }
    }
}

/// What adding a `CHECK` does.
pub open spec fn check_added(c: CatalogView, relid: u32, con: Constraint) -> Step<()> {
    match con.raw_expr {
        None => (Ok(()), c),
        Some(expr) => match volatility(*expr, ExprLocation::Check, c) {
            Err(e) => (Err(e), c),
            Ok(_) => match added_check_checked(c, relid, *expr) {
                Err(e) => (Err(e), c),
                Ok(_) => with_constraint_row(
                    c,
                    relid,
                    local_pending(
                        chosen_name(con.conname@, plain_relname(c, relid) + "_check"@),
                        ConType::Check,
                        Seq::empty(),
                    ),
                ),
            },
        },
    }
}

/// What adding a constraint does.
pub open spec fn constraint_added(c: CatalogView, relid: u32, cmd: AlterTableCmd) -> Step<()> {
    match cmd.def {
        AlterDef::Constraint(con) => {
            let names = texts(con.keys@);
            match con.contype {
                ConstrType::Primary => {
                    let c1 = with_not_null(c, relid, names);
                    with_key(
                        c1,
                        relid,
                        chosen_name(con.conname@, plain_relname(c1, relid) + "_pkey"@),
                        ConType::PrimaryKey,
                        numbers_of(c1.attributes_of(relid), names),
                    )
                },
                ConstrType::Unique => with_key(
                    c,
                    relid,
                    chosen_name(
                        con.conname@,
                        plain_relname(c, relid) + "_"@ + joined(names, "_"@) + "_key"@,
                    ),
                    ConType::Unique,
                    numbers_of(c.attributes_of(relid), names),
                ),
                ConstrType::NotNull => (
                    Ok(()),
                    with_column_changed(
                        c,
                        relid,
                        not_null_column(con, cmd.name@),
                        ColumnChange::NotNull(true),
                    ),
                ),
                ConstrType::Check => check_added(c, relid, con),
                ConstrType::Foreign => foreign_key_added(c, relid, con),
                _ => (Ok(()), c),
            }
        },
        _ => (Ok(()), c),
    }
}

fn set_not_null_where(db: &mut PgCatalog, relid: u32, names: &Vec<String>)
    ensures
        final(db)@ == with_not_null(old(db)@, relid, texts(names@)),
{
    if db.pg_attribute.has(relid) {
        let mut attrs: Vec<PgAttribute> = db.attributes_of(relid);
        let ghost before = attr_views(attrs@);
        let ghost after = not_null_where(before, texts(names@));
        let mut i: usize = 0;
        while i < attrs.len()
            invariant
                after == not_null_where(before, texts(names@)),
                i <= attrs@.len() == before.len(),
                forall|j: int| 0 <= j < i ==> #[trigger] attrs@[j]@ == after[j],
                forall|j: int| i <= j < attrs@.len() ==> #[trigger] attrs@[j]@ == before[j],
            decreases attrs.len() - i,
        {
            proof {
                assert(attrs@[i as int]@ == before[i as int]);
            }
            if has_text(names, attrs[i].attname.as_str()) {
                let mut a: PgAttribute = attrs[i].copy();
                a.attnotnull = true;
                proof {
                    assert(a@ == after[i as int]);
                }
                attrs.set(i, a);
            }
            i = i + 1;
        }
        proof {
            assert(attr_views(attrs@) =~= after);
        }
        db.set_attributes(relid, attrs);
    }
}

fn emit_key(
    db: &mut PgCatalog,
    relid: u32,
    conname: String,
    contype: ConType,
    conkey: Vec<i16>,
) -> (r:
    Result<(), DdlError>)
    ensures
        (ddl_outcome(r), final(db)@) == with_key(
            old(db)@,
            relid,
            conname@,
            contype,
            conkey@,
        ),
{
    if conkey.len() == 0 {
        return Ok(());
    }
    let p: Pending = Pending { conname, contype, conkey, confrelid: None, confkey: Vec::new() };
    proof {
        assert(p@ =~= local_pending(conname@, contype, conkey@));
    }
    emit_constraint_with_backing_index(db, relid, &p)
}

fn add_foreign_key(db: &mut PgCatalog, relid: u32, con: &Constraint) -> (r: Result<(), DdlError>)
    ensures
        (ddl_outcome(r), final(db)@) == foreign_key_added(old(db)@, relid, *con),
{
    let relname: String = find_plain_relname(db, relid);
    let attrs: Vec<PgAttribute> = db.attributes_of(relid);
    let types: Vec<u32> = find_types(&attrs, &con.fk_attrs);
    if types.len() != con.fk_attrs.len() {
        return Err(
            DdlError::Parse(
                "ALTER TABLE ADD FOREIGN KEY references unknown local column".to_owned(),
            ),
        );
    }
    let nums: Vec<i16> = find_numbers(&attrs, &con.fk_attrs);
    let listed: String = join(&con.fk_attrs, "_");
    let made: String = concat4(relname.as_str(), "_", listed.as_str(), "_fkey");
    match new_foreign_key(db, con, relname.as_str(), made, nums, &types) {
        Err(e) => Err(e),
        Ok(p) => emit_constraint(db, relid, &p),
    }
}

fn add_check(db: &mut PgCatalog, relid: u32, con: &Constraint) -> (r: Result<(), DdlError>)
    ensures
        (ddl_outcome(r), final(db)@) == check_added(old(db)@, relid, *con),
{
    match &con.raw_expr {
        None => Ok(()),
        Some(expr) => {
            match check_no_volatile(expr, ExprLocation::Check, db) {
                Ok(_) => {},
                Err(e) => return Err(e),
            }
            match validate_check_expression_for_table(db, relid, expr) {
                Ok(_) => {},
                Err(e) => return Err(e),
            }
            let relname: String = find_plain_relname(db, relid);
            let conname: String = constraint_name(
                con.conname.as_str(),
                concat2(relname.as_str(), "_check"),
            );
            let p: Pending = Pending {
                conname,
                contype: ConType::Check,
                conkey: Vec::new(),
                confrelid: None,
                confkey: Vec::new(),
            };
            proof {
                assert(p@ =~= local_pending(conname@, ConType::Check, Seq::empty()));
            }
            emit_constraint(db, relid, &p)
        },
    }
}

fn add_constraint(db: &mut PgCatalog, relid: u32, cmd: &AlterTableCmd) -> (r: Result<(), DdlError>)
    ensures
        (ddl_outcome(r), final(db)@) == constraint_added(old(db)@, relid, *cmd),
{
    let con: &Constraint = match &cmd.def {
        AlterDef::Constraint(con) => con,
        _ => return Ok(()),
    };
    match con.contype {
        ConstrType::Primary => {
            set_not_null_where(db, relid, &con.keys);
            let attrs: Vec<PgAttribute> = db.attributes_of(relid);
            let nums: Vec<i16> = find_numbers(&attrs, &con.keys);
            let relname: String = find_plain_relname(db, relid);
            let conname: String = constraint_name(
                con.conname.as_str(),
                concat2(relname.as_str(), "_pkey"),
            );
            emit_key(db, relid, conname, ConType::PrimaryKey, nums)
        },
        ConstrType::Unique => {
            let attrs: Vec<PgAttribute> = db.attributes_of(relid);
            let nums: Vec<i16> = find_numbers(&attrs, &con.keys);
            let relname: String = find_plain_relname(db, relid);
            let listed: String = join(&con.keys, "_");
            let conname: String = constraint_name(
                con.conname.as_str(),
                concat4(relname.as_str(), "_", listed.as_str(), "_key"),
            );
            emit_key(db, relid, conname, ConType::Unique, nums)
        },
        ConstrType::NotNull => {
            let _found: bool = if con.keys.len() > 0 {
                change_column(db, relid, con.keys[0].as_str(), ColumnChange::NotNull(true))
            } else {
                change_column(db, relid, cmd.name.as_str(), ColumnChange::NotNull(true))
            };
            Ok(())
        },
        ConstrType::Check => add_check(db, relid, con),
        ConstrType::Foreign => add_foreign_key(db, relid, con),
        _ => Ok(()),
    }
}

// ── ALTER TABLE ─────────────────────────────────────────────────────────────

/// What a command does.
pub open spec fn command_applied(c: CatalogView, relid: u32, cmd: AlterTableCmd) -> Step<()> {
    match cmd.subtype {
        AlterTableType::AddColumn | AlterTableType::AddColumnToView => column_added(
            c,
            relid,
            cmd,
        ),
        AlterTableType::DropColumn => column_dropped(c, relid, cmd),
        AlterTableType::SetNotNull => column_altered(
            c,
            relid,
            cmd.name@,
            ColumnChange::NotNull(true),
            false,
        ),
        AlterTableType::DropNotNull => column_altered(
            c,
            relid,
            cmd.name@,
            ColumnChange::NotNull(false),
            false,
        ),
        AlterTableType::ColumnDefault => column_altered(
            c,
            relid,
            cmd.name@,
            default_change(cmd),
            false,
        ),
        AlterTableType::AlterColumnType => column_retyped(c, relid, cmd),
        AlterTableType::AddConstraint => constraint_added(c, relid, cmd),
        AlterTableType::DropConstraint => constraint_dropped(c, relid, cmd),
        AlterTableType::AddIdentity | AlterTableType::SetIdentity => identity_set(c, relid, cmd),
        AlterTableType::DropIdentity => column_altered(
            c,
            relid,
            cmd.name@,
            ColumnChange::NoIdentity,
            cmd.missing_ok,
        ),
        AlterTableType::Other => (Ok(()), c),
    }
}

/// What the commands from `i` on do. The first error ends them.
pub open spec fn commands_applied(
    c: CatalogView,
    relid: u32,
    cmds: Seq<AlterTableCmd>,
    i: int,
) -> Step<
    (),
>
    decreases cmds.len() - i,
{
    if i < 0 || i >= cmds.len() {
        (Ok(()), c)
    } else {
        match command_applied(c, relid, cmds[i]) {
            (Err(e), c1) => (Err(e), c1),
            (Ok(_), c1) => commands_applied(c1, relid, cmds, i + 1),
        }
    }
}

/// What `ALTER TABLE` does.
pub open spec fn table_altered(c: CatalogView, stmt: AlterTableStmt) -> Step<()> {
    match stmt.relation {
        None => (Err(DdlErrorView::Parse("ALTER TABLE without relation"@)), c),
        Some(rv) => {
            let names = range_names(c, rv);
            match class_at(c, names) {
                None => if stmt.missing_ok {
                    (Ok(()), c)
                } else {
                    (Err(DdlErrorView::TableNotFound(names.0 + "."@ + names.1)), c)
                },
                Some(relid) => commands_applied(c, relid, stmt.cmds@, 0),
            }
        },
    }
}

fn apply_alter_cmd(db: &mut PgCatalog, relid: u32, cmd: &AlterTableCmd) -> (r: Result<(), DdlError>)
    ensures
        (ddl_outcome(r), final(db)@) == command_applied(old(db)@, relid, *cmd),
{
    match cmd.subtype {
        AlterTableType::AddColumn | AlterTableType::AddColumnToView => add_column(db, relid, cmd),
        AlterTableType::DropColumn => drop_column(db, relid, cmd),
        AlterTableType::SetNotNull => set_not_null(db, relid, cmd.name.as_str(), true),
        AlterTableType::DropNotNull => set_not_null(db, relid, cmd.name.as_str(), false),
        AlterTableType::ColumnDefault => set_default(db, relid, cmd),
        AlterTableType::AlterColumnType => alter_column_type(db, relid, cmd),
        AlterTableType::AddConstraint => add_constraint(db, relid, cmd),
        AlterTableType::DropConstraint => drop_constraint(db, relid, cmd),
        AlterTableType::AddIdentity | AlterTableType::SetIdentity => set_identity(db, relid, cmd),
        AlterTableType::DropIdentity => drop_identity(db, relid, cmd),
        AlterTableType::Other => Ok(()),
    }
}

/// Applies an `ALTER TABLE`.
///
/// # Errors
///
/// The table does not exist and `IF EXISTS` is not written, or a command cannot be
/// carried out.
pub fn alter_table(db: &mut PgCatalog, stmt: &AlterTableStmt) -> (r: Result<(), DdlError>)
    ensures
        (ddl_outcome(r), final(db)@) == table_altered(old(db)@, *stmt),
{
    let rv: &RangeVar = match &stmt.relation {
        Some(rv) => rv,
        None => return Err(DdlError::Parse("ALTER TABLE without relation".to_owned())),
    };
    let (schema, name): (String, String) = range_var_names(rv, db);
    let relid: u32 = match find_class_at(db, schema.as_str(), name.as_str()) {
        Some(oid) => oid,
        None => {
            if stmt.missing_ok {
                return Ok(());
            }
            return Err(DdlError::TableNotFound(concat3(schema.as_str(), ".", name.as_str())));
        },
    };
    let mut i: usize = 0;
    while i < stmt.cmds.len()
        invariant
            i <= stmt.cmds@.len(),
            table_altered(old(db)@, *stmt) == commands_applied(db@, relid, stmt.cmds@, i as int),
        decreases stmt.cmds.len() - i,
    {
        match apply_alter_cmd(db, relid, &stmt.cmds[i]) {
            Ok(_) => {},
            Err(e) => return Err(e),
        }
        i = i + 1;
    }
    Ok(())
}

} // verus!
