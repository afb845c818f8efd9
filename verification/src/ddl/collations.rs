//! `CREATE COLLATION`.
//!
//! A collation is made from locale parameters, which are not kept, or as a copy of
//! another one, whose encoding it then has.

use super::operators::has_value;
use super::stmt::{DefArg, DefElem, DefineStmt};
use super::util::{ensure_qualified_name, ensured_names, Step};
use super::{ddl_outcome, DdlError, DdlErrorView};
use crate::ast::qualified;
use crate::catalog::{CatalogView, PgCatalog};
use crate::expr::split_name;
use crate::pg_catalog::{PgCollation, PgCollationView};
use crate::table::map_get;
use crate::text::{concat3, same_but_case, same_text_but_case, texts};
use vstd::prelude::*;

verus! {

/// The parts of the name of the collation to copy.
pub open spec fn source_parts(arg: DefArg) -> Seq<Seq<char>> {
    match arg {
        DefArg::Names(names) => texts(names@),
        DefArg::Text(s) => seq![s@],
        _ => Seq::empty(),
    }
}

/// The encoding of the collation to copy.
pub open spec fn source_encoding(c: CatalogView, arg: DefArg) -> Result<i32, DdlErrorView> {
    match qualified(source_parts(arg)) {
        None => Err(DdlErrorView::Parse("malformed collation source name"@)),
        Some((schema, name)) => match c.resolve_collation(schema, name) {
            Some(row) => Ok(row.collencoding),
            None => Err(
                DdlErrorView::DependencyError("collation \""@ + name + "\" does not exist"@),
            ),
        },
    }
}

/// The encoding that the options from `i` on give; `encoding` without one. The
/// last counts.
pub open spec fn copied_encoding(
    c: CatalogView,
    options: Seq<DefElem>,
    i: int,
    encoding: i32,
) -> Result<
    i32,
    DdlErrorView,
>
    decreases options.len() - i,
{
    if i < 0 || i >= options.len() {
        Ok(encoding)
    } else if has_value(options[i]) && same_but_case(options[i].defname@, "from"@) {
        match source_encoding(c, options[i].arg) {
            Ok(e) => copied_encoding(c, options, i + 1, e),
            Err(e) => Err(e),
        }
    } else {
        copied_encoding(c, options, i + 1, encoding)
    }
}

/// What `CREATE COLLATION` does.
pub open spec fn collation_created(c: CatalogView, stmt: DefineStmt) -> Step<()> {
    match ensured_names(c, texts(stmt.defnames@)) {
        (Err(e), c1) => (Err(e), c1),
        (Ok((ns, name)), c1) => if map_get(c1.collation_by_qname, (ns, name)) is Some {
            if stmt.if_not_exists {
                (Ok(()), c1)
            } else {
                (
                    Err(
                        DdlErrorView::DuplicateObject(
                            "collation \""@ + name + "\" already exists"@,
                        ),
                    ),
                    c1,
                )
            }
        } else {
            match copied_encoding(c1, stmt.definition@, 0, -1i32) {
                Err(e) => (Err(e), c1),
                Ok(encoding) => match c1.allocated() {
                    (Err(e), c2) => (Err(e), c2),
                    (Ok(oid), c2) => (
                        Ok(()),
                        c2.with_collation(
                            PgCollationView {
                                oid,
                                collname: name,
                                collnamespace: ns,
                                collencoding: encoding,
                            },
                        ),
                    ),
                },
            }
        },
    }
}

fn resolve_source(
    db: &PgCatalog,
    schema: Option<&str>,
    name: &str,
) -> (r: Result<i32, DdlError>)
    ensures
        ddl_outcome(r) == (match db@.resolve_collation(crate::lookup::opt_str(schema), name@) {
            Some(row) => Ok(row.collencoding),
            None => Err(
                DdlErrorView::DependencyError("collation \""@ + name@ + "\" does not exist"@),
            ),
        }),
{
    match db.resolve_collation(schema, name) {
        Some(encoding) => Ok(encoding),
        None => Err(
            DdlError::DependencyError(concat3("collation \"", name, "\" does not exist")),
        ),
    }
}

fn find_source_encoding(db: &PgCatalog, arg: &DefArg) -> (r: Result<i32, DdlError>)
    ensures
        ddl_outcome(r) == source_encoding(db@, *arg),
{
    match arg {
        DefArg::Names(names) => match split_name(names) {
            Some((schema, name)) => resolve_source(db, schema, name),
            None => Err(DdlError::Parse("malformed collation source name".to_owned())),
        },
        DefArg::Text(s) => resolve_source(db, None, s.as_str()),
        _ => Err(DdlError::Parse("malformed collation source name".to_owned())),
    }
}

fn find_copied_encoding(db: &PgCatalog, options: &Vec<DefElem>) -> (r: Result<i32, DdlError>)
    ensures
        ddl_outcome(r) == copied_encoding(db@, options@, 0, -1i32),
{
    let mut encoding: i32 = -1;
    let mut i: usize = 0;
    while i < options.len()
        invariant
            i <= options@.len(),
            copied_encoding(db@, options@, 0, -1i32) == copied_encoding(
                db@,
                options@,
                i as int,
                encoding,
            ),
        decreases options.len() - i,
    {
        let valued: bool = match &options[i].arg {
            DefArg::Missing => false,
            _ => true,
        };
        if valued && same_text_but_case(options[i].defname.as_str(), "from") {
            match find_source_encoding(db, &options[i].arg) {
                Ok(e) => {
                    encoding = e;
                },
                Err(e) => return Err(e),
            }
        }
        i = i + 1;
    }
    Ok(encoding)
}

/// Applies a `CREATE COLLATION`.
///
/// # Errors
///
/// The name is taken and `IF NOT EXISTS` is not written, the collation to copy does
/// not exist or its name is malformed, or the OIDs have run out.
pub fn define_collation(db: &mut PgCatalog, stmt: &DefineStmt) -> (r: Result<(), DdlError>)
    ensures
        (ddl_outcome(r), final(db)@) == collation_created(old(db)@, *stmt),
{
    let (ns, name): (u32, String) = match ensure_qualified_name(db, &stmt.defnames) {
        Ok(p) => p,
        Err(e) => return Err(e),
    };
    if db.collation_by_qname.get(ns, name.as_str()).is_some() {
        if stmt.if_not_exists {
            return Ok(());
        }
        return Err(
            DdlError::DuplicateObject(
                concat3("collation \"", name.as_str(), "\" already exists"),
            ),
        );
    }
    let collencoding: i32 = match find_copied_encoding(db, &stmt.definition) {
        Ok(e) => e,
        Err(e) => return Err(e),
    };
    let oid: u32 = match db.alloc_oid() {
        Ok(oid) => oid,
        Err(e) => return Err(e),
    };
    db.insert_pg_collation(PgCollation { oid, collname: name, collnamespace: ns, collencoding });
    Ok(())
}

} // verus!
