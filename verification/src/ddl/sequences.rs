//! `CREATE SEQUENCE` and `ALTER SEQUENCE`.
//!
//! A sequence is a relation. What it counts does not matter for types, so its
//! options are accepted as they are.

use super::drop::{class_at, find_class_at};
use super::stmt::{AlterSeqStmt, CreateSeqStmt};
use super::tables::relation_exists;
use super::util::{ensure_range_var, ensured_range, range_names, range_var_names, Step};
use super::{ddl_outcome, DdlError, DdlErrorView};
use crate::ast::RangeVar;
use crate::catalog::{CatalogView, PgCatalog};
use crate::pg_catalog::{PgClass, PgClassView, RelKind};
use crate::text::concat3;
use vstd::prelude::*;

verus! {

/// What `CREATE SEQUENCE` does.
pub open spec fn sequence_created(c: CatalogView, stmt: CreateSeqStmt) -> Step<()> {
    match stmt.sequence {
        None => (Err(DdlErrorView::Parse("CREATE SEQUENCE without relation"@)), c),
        Some(rv) => match ensured_range(c, rv) {
            (Err(e), c1) => (Err(e), c1),
            (Ok((ns, name)), c1) => if c1.class_named(ns, name) is Some {
                if stmt.if_not_exists {
                    (Ok(()), c1)
                } else {
                    (Err(relation_exists(name)), c1)
                }
            } else {
                match c1.allocated() {
                    (Err(e), c2) => (Err(e), c2),
                    (Ok(oid), c2) => (
                        Ok(()),
                        c2.with_class(
                            PgClassView {
                                oid,
                                relname: name,
                                relnamespace: ns,
                                relkind: RelKind::Sequence,
                                reltype: None,
                            },
                        ),
                    ),
                }
            },
        },
    }
}

/// Whether a relation is a sequence.
pub open spec fn is_sequence(c: CatalogView, oid: u32) -> bool {
    match c.get_class(oid) {
        Some(k) => k.relkind == RelKind::Sequence,
        None => false,
    }
}

/// What `ALTER SEQUENCE` gives: only that the sequence exists is checked.
pub open spec fn sequence_checked(c: CatalogView, stmt: AlterSeqStmt) -> Result<(), DdlErrorView> {
    match stmt.sequence {
        None => Ok(()),
        Some(rv) => if stmt.missing_ok {
            Ok(())
        } else {
            match class_at(c, range_names(c, rv)) {
                None => Err(
                    DdlErrorView::TableNotFound(
                        "relation \""@ + rv.relname@ + "\" does not exist"@,
                    ),
                ),
                Some(oid) => if is_sequence(c, oid) {
                    Ok(())
                } else {
                    Err(DdlErrorView::TableNotFound("\""@ + rv.relname@ + "\" is not a sequence"@))
                },
            }
        },
    }
}

/// Applies a `CREATE SEQUENCE`.
///
/// # Errors
///
/// The name is missing or taken and `IF NOT EXISTS` is not written, or the OIDs have
/// run out.
pub fn create_sequence(db: &mut PgCatalog, stmt: &CreateSeqStmt) -> (r: Result<(), DdlError>)
    ensures
        (ddl_outcome(r), final(db)@) == sequence_created(old(db)@, *stmt),
{
    let rv: &RangeVar = match &stmt.sequence {
        Some(rv) => rv,
        None => return Err(DdlError::Parse("CREATE SEQUENCE without relation".to_owned())),
    };
    let (ns, name): (u32, String) = match ensure_range_var(db, rv) {
        Ok(p) => p,
        Err(e) => return Err(e),
    };
    if db.class_by_qname.get(ns, name.as_str()).is_some() {
        if stmt.if_not_exists {
            return Ok(());
        }
        return Err(
            DdlError::DuplicateObject(concat3("relation \"", name.as_str(), "\" already exists")),
        );
    }
    let oid: u32 = match db.alloc_oid() {
        Ok(oid) => oid,
        Err(e) => return Err(e),
    };
    db.insert_pg_class(
        PgClass {
            oid,
            relname: name,
            relnamespace: ns,
            relkind: RelKind::Sequence,
            reltype: None,
        },
    );
    Ok(())
}

/// Applies an `ALTER SEQUENCE`: the catalog stays as it is.
///
/// # Errors
///
/// The sequence does not exist and `IF EXISTS` is not written.
pub fn alter_sequence(db: &mut PgCatalog, stmt: &AlterSeqStmt) -> (r: Result<(), DdlError>)
    ensures
        ddl_outcome(r) == sequence_checked(old(db)@, *stmt),
        *final(db) == *old(db),
{
    let rv: &RangeVar = match &stmt.sequence {
        Some(rv) => rv,
        None => return Ok(()),
    };
    let (schema, name): (String, String) = range_var_names(rv, db);
    if stmt.missing_ok {
        return Ok(());
    }
    let oid: u32 = match find_class_at(db, schema.as_str(), name.as_str()) {
        Some(oid) => oid,
        None => return Err(
            DdlError::TableNotFound(concat3("relation \"", name.as_str(), "\" does not exist")),
        ),
    };
    let sequence: bool = match db.get_class(oid) {
        Some(k) => match k.relkind {
            RelKind::Sequence => true,
            _ => false,
        },
        None => false,
    };
    if sequence {
        Ok(())
    } else {
        Err(DdlError::TableNotFound(concat3("\"", name.as_str(), "\" is not a sequence")))
    }
}

} // verus!
