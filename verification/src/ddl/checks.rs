//! The types of the expressions in constraints.

use super::stmt::{ColumnDef, ConstrType, Constraint, CreateStmt, TableElt};
use super::{ddl_outcome, DdlError, DdlErrorView};
use crate::ast::Node;
use crate::catalog::{CatalogView, PgCatalog};
use crate::error::analyze_error_message;
use crate::expr::{
    assignment_goal, env_of, expr_outcome, name_or, no_goal, type_name_or, EnvView, TypeGoal,
};
use crate::infer::infer_expr;
use crate::lookup::{attribute_named, find_attribute};
use crate::nullability::{NullabilityContext, NullabilityView};
use crate::param_collector::{ParamCollector, ParamEntry};
use crate::pg_catalog::{attr_views, PgAttribute, PgAttributeView, BOOL, UNKNOWN};
use crate::scope::{relation_scope, written_scope, Scope};
use crate::text::{concat2, concat3, concat4, concat5, decimal, decimal_text};
use vstd::prelude::*;

verus! {

/// The name of the schema of a relation, or `public`.
pub open spec fn relation_schema(c: CatalogView, relid: u32) -> Seq<char> {
    match c.get_class(relid) {
        Some(k) => match c.namespace_name(k.relnamespace) {
            Some(s) => s,
            None => "public"@,
        },
        None => "public"@,
    }
}

/// Where the expressions in the constraints of a relation stand: its columns are
/// in scope.
pub open spec fn relation_env(c: CatalogView, relid: u32, relname: Seq<char>) -> EnvView {
    EnvView {
        sources: written_scope(relation_schema(c, relid), relname, c.attributes_of(relid)),
        nulls: NullabilityView::plain(),
        cat: c,
    }
}

/// Checks that an expression is a condition. `role` and `subject` are how the
/// errors call the constraint and what it is on.
pub open spec fn condition_checked(
    env: EnvView,
    expr: Node,
    ps: Seq<ParamEntry>,
    role: Seq<char>,
    subject: Seq<char>,
) -> (Result<(), DdlErrorView>, Seq<ParamEntry>) {
    let (r, p) = expr_outcome(expr, env, ps, no_goal());
    (
        match r {
            Err(e) => Err(
                DdlErrorView::UnsupportedDdl(
                    role + " on "@ + subject + ": "@ + analyze_error_message(e),
                ),
            ),
            Ok(t) => if t.type_oid != BOOL && t.type_oid != UNKNOWN {
                Err(
                    DdlErrorView::UnsupportedDdl(
                        "argument of CHECK constraint on "@ + subject
                            + " must be type boolean, not type "@ + name_or(
                            env.cat,
                            t.type_oid,
                            "oid "@,
                        ),
                    ),
                )
            } else {
                Ok(())
            },
        },
        p,
    )
}

/// A column of a relation, as errors name it.
pub open spec fn quoted_column(relname: Seq<char>, column: Seq<char>) -> Seq<char> {
    "\""@ + relname + "\".\""@ + column + "\""@
}

/// A relation, as errors name it.
pub open spec fn quoted(relname: Seq<char>) -> Seq<char> {
    "\""@ + relname + "\""@
}

/// Checks a constraint of a column: a `CHECK` is a condition, and the expression
/// of a generated column can be assigned to it.
pub open spec fn column_constraint_checked(
    env: EnvView,
    attrs: Seq<PgAttributeView>,
    relname: Seq<char>,
    column: Seq<char>,
    con: Constraint,
    ps: Seq<ParamEntry>,
) -> (Result<(), DdlErrorView>, Seq<ParamEntry>) {
    let subject = quoted_column(relname, column);
    match (con.contype, con.raw_expr) {
        (ConstrType::Check, Some(expr)) => condition_checked(
            env,
            *expr,
            ps,
            "CHECK constraint"@,
            subject,
        ),
        (ConstrType::Generated, Some(expr)) => match find_attribute(attrs, column) {
            None => (
                Err(
                    DdlErrorView::Parse(
                        "generated column \""@ + column + "\" of \""@ + relname
                            + "\" not found in pg_attribute"@,
                    ),
                ),
                ps,
            ),
            Some(a) => {
                let (r, p) = expr_outcome(*expr, env, ps, assignment_goal(a.atttypid));
                (
                    match r {
                        Err(e) => Err(
                            DdlErrorView::UnsupportedDdl(
                                "GENERATED expression on "@ + subject + ": "@
                                    + analyze_error_message(e),
                            ),
                        ),
                        Ok(_) => Ok(()),
                    },
                    p,
                )
            },
        },
        _ => (Ok(()), ps),
    }
}

/// Checks the constraints of a column from `i` on.
pub open spec fn column_constraints_checked(
    env: EnvView,
    attrs: Seq<PgAttributeView>,
    relname: Seq<char>,
    column: Seq<char>,
    cons: Seq<Constraint>,
    i: int,
    ps: Seq<ParamEntry>,
) -> (Result<(), DdlErrorView>, Seq<ParamEntry>)
    decreases cons.len() - i,
{
    if i < 0 || i >= cons.len() {
        (Ok(()), ps)
    } else {
        match column_constraint_checked(env, attrs, relname, column, cons[i], ps) {
            (Ok(_), p) => column_constraints_checked(
                env,
                attrs,
                relname,
                column,
                cons,
                i + 1,
                p,
            ),
            (Err(e), p) => (Err(e), p),
        }
    }
}

/// Checks the constraints of the columns among the elements from `i` on.
pub open spec fn columns_checked(
    env: EnvView,
    attrs: Seq<PgAttributeView>,
    relname: Seq<char>,
    elts: Seq<TableElt>,
    i: int,
    ps: Seq<ParamEntry>,
) -> (Result<(), DdlErrorView>, Seq<ParamEntry>)
    decreases elts.len() - i,
{
    if i < 0 || i >= elts.len() {
        (Ok(()), ps)
    } else {
        match elts[i] {
            TableElt::Column(cd) => match column_constraints_checked(
                env,
                attrs,
                relname,
                cd.colname@,
                cd.constraints@,
                0,
                ps,
            ) {
                (Ok(_), p) => columns_checked(env, attrs, relname, elts, i + 1, p),
                (Err(e), p) => (Err(e), p),
            },
            _ => columns_checked(env, attrs, relname, elts, i + 1, ps),
        }
    }
}

/// Checks the `CHECK` constraints of the table among the elements from `i` on.
pub open spec fn table_checks_checked(
    env: EnvView,
    relname: Seq<char>,
    elts: Seq<TableElt>,
    i: int,
    ps: Seq<ParamEntry>,
) -> (Result<(), DdlErrorView>, Seq<ParamEntry>)
    decreases elts.len() - i,
{
    if i < 0 || i >= elts.len() {
        (Ok(()), ps)
    } else {
        match elts[i] {
            TableElt::Constraint(con) => match (con.contype, con.raw_expr) {
                (ConstrType::Check, Some(expr)) => match condition_checked(
                    env,
                    *expr,
                    ps,
                    "table-level CHECK constraint"@,
                    quoted(relname),
                ) {
                    (Ok(_), p) => table_checks_checked(env, relname, elts, i + 1, p),
                    (Err(e), p) => (Err(e), p),
                },
                _ => table_checks_checked(env, relname, elts, i + 1, ps),
            },
            _ => table_checks_checked(env, relname, elts, i + 1, ps),
        }
    }
}

/// Checks the expressions in all constraints of a new table.
pub open spec fn expressions_checked(
    c: CatalogView,
    relid: u32,
    relname: Seq<char>,
    stmt: CreateStmt,
) -> Result<(), DdlErrorView> {
    let env = relation_env(c, relid, relname);
    let attrs = c.attributes_of(relid);
    match columns_checked(env, attrs, relname, stmt.table_elts@, 0, Seq::empty()) {
        (Err(e), _) => Err(e),
        (Ok(_), p1) => match table_checks_checked(env, relname, stmt.constraints@, 0, p1) {
            (Err(e), _) => Err(e),
            (Ok(_), p2) => table_checks_checked(env, relname, stmt.table_elts@, 0, p2).0,
        },
    }
}

/// Checks the expression of a `CHECK` that is added to a table.
pub open spec fn added_check_checked(c: CatalogView, relid: u32, expr: Node) -> Result<
    (),
    DdlErrorView,
> {
    match c.get_class(relid) {
        None => Err(
            DdlErrorView::TableNotFound("relation oid "@ + decimal_text(relid as nat)),
        ),
        Some(k) => condition_checked(
            relation_env(c, relid, k.relname),
            expr,
            Seq::empty(),
            "CHECK"@,
            quoted(k.relname),
        ).0,
    }
}

// ── Carried out ─────────────────────────────────────────────────────────────

fn find_relation_schema(db: &PgCatalog, relid: u32) -> (r: String)
    ensures
        r@ == relation_schema(db@, relid),
{
    match db.get_class(relid) {
        Some(k) => match db.namespace_name(k.relnamespace) {
            Some(s) => s.to_owned(),
            None => "public".to_owned(),
        },
        None => "public".to_owned(),
    }
}

fn check_condition(
    db: &PgCatalog,
    scope: &Scope,
    null_ctx: &NullabilityContext,
    expr: &Node,
    params: &mut ParamCollector,
    role: &str,
    subject: &str,
) -> (r: Result<(), DdlError>)
    ensures
        (ddl_outcome(r), final(params)@) == condition_checked(
            env_of(*scope, *null_ctx, *db),
            *expr,
            old(params)@,
            role@,
            subject@,
        ),
{
    match infer_expr(expr, scope, null_ctx, db, params, TypeGoal::none()) {
        Err(e) => Err(
            DdlError::UnsupportedDdl(
                concat5(role, " on ", subject, ": ", e.message().as_str()),
            ),
        ),
        Ok(t) => if t.type_oid != BOOL && t.type_oid != UNKNOWN {
            Err(
                DdlError::UnsupportedDdl(
                    concat4(
                        "argument of CHECK constraint on ",
                        subject,
                        " must be type boolean, not type ",
                        type_name_or(db, t.type_oid, "oid ").as_str(),
                    ),
                ),
            )
        } else {
            Ok(())
        },
    }
}

fn check_column_constraint(
    db: &PgCatalog,
    scope: &Scope,
    null_ctx: &NullabilityContext,
    attrs: &Vec<PgAttribute>,
    relname: &str,
    column: &str,
    con: &Constraint,
    params: &mut ParamCollector,
) -> (r: Result<(), DdlError>)
    ensures
        (ddl_outcome(r), final(params)@) == column_constraint_checked(
            env_of(*scope, *null_ctx, *db),
            attr_views(attrs@),
            relname@,
            column@,
            *con,
            old(params)@,
        ),
{
    let expr: &Node = match &con.raw_expr {
        Some(b) => b,
        None => return Ok(()),
    };
    let subject: String = concat5("\"", relname, "\".\"", column, "\"");
    match con.contype {
        ConstrType::Check => check_condition(
            db,
            scope,
            null_ctx,
            expr,
            params,
            "CHECK constraint",
            subject.as_str(),
        ),
        ConstrType::Generated => match attribute_named(attrs, column) {
            None => Err(
                DdlError::Parse(
                    concat5(
                        "generated column \"",
                        column,
                        "\" of \"",
                        relname,
                        "\" not found in pg_attribute",
                    ),
                ),
            ),
            Some(a) => match infer_expr(
                expr,
                scope,
                null_ctx,
                db,
                params,
                TypeGoal::assignment(a.atttypid),
            ) {
                Err(e) => Err(
                    DdlError::UnsupportedDdl(
                        concat4(
                            "GENERATED expression on ",
                            subject.as_str(),
                            ": ",
                            e.message().as_str(),
                        ),
                    ),
                ),
                Ok(_) => Ok(()),
            },
        },
        _ => Ok(()),
    }
}

fn check_column_constraints(
    db: &PgCatalog,
    scope: &Scope,
    null_ctx: &NullabilityContext,
    attrs: &Vec<PgAttribute>,
    relname: &str,
    cd: &ColumnDef,
    params: &mut ParamCollector,
) -> (r: Result<(), DdlError>)
    ensures
        (ddl_outcome(r), final(params)@) == column_constraints_checked(
            env_of(*scope, *null_ctx, *db),
            attr_views(attrs@),
            relname@,
            cd.colname@,
            cd.constraints@,
            0,
            old(params)@,
        ),
{
    let ghost env = env_of(*scope, *null_ctx, *db);
    let ghost cons = cd.constraints@;
    let mut i: usize = 0;
    while i < cd.constraints.len()
        invariant
            cons == cd.constraints@,
            i <= cons.len(),
            env == env_of(*scope, *null_ctx, *db),
            column_constraints_checked(
                env,
                attr_views(attrs@),
                relname@,
                cd.colname@,
                cons,
                0,
                old(params)@,
            ) == column_constraints_checked(
                env,
                attr_views(attrs@),
                relname@,
                cd.colname@,
                cons,
                i as int,
                params@,
            ),
        decreases cons.len() - i,
    {
        match check_column_constraint(
            db,
            scope,
            null_ctx,
            attrs,
            relname,
            cd.colname.as_str(),
            &cd.constraints[i],
            params,
        ) {
            Ok(_) => {},
            Err(e) => return Err(e),
        }
        i = i + 1;
    }
    Ok(())
}

fn check_columns(
    db: &PgCatalog,
    scope: &Scope,
    null_ctx: &NullabilityContext,
    attrs: &Vec<PgAttribute>,
    relname: &str,
    elts: &Vec<TableElt>,
    params: &mut ParamCollector,
) -> (r: Result<(), DdlError>)
    ensures
        (ddl_outcome(r), final(params)@) == columns_checked(
            env_of(*scope, *null_ctx, *db),
            attr_views(attrs@),
            relname@,
            elts@,
            0,
            old(params)@,
        ),
{
    let ghost env = env_of(*scope, *null_ctx, *db);
    let mut i: usize = 0;
    while i < elts.len()
        invariant
            i <= elts@.len(),
            env == env_of(*scope, *null_ctx, *db),
            columns_checked(env, attr_views(attrs@), relname@, elts@, 0, old(params)@)
                == columns_checked(
                env,
                attr_views(attrs@),
                relname@,
                elts@,
                i as int,
                params@,
            ),
        decreases elts.len() - i,
    {
        match &elts[i] {
            TableElt::Column(cd) => {
                match check_column_constraints(db, scope, null_ctx, attrs, relname, cd, params) {
                    Ok(_) => {},
                    Err(e) => return Err(e),
                }
            },
            _ => {},
        }
        i = i + 1;
    }
    Ok(())
}

fn check_table_checks(
    db: &PgCatalog,
    scope: &Scope,
    null_ctx: &NullabilityContext,
    relname: &str,
    elts: &Vec<TableElt>,
    params: &mut ParamCollector,
) -> (r: Result<(), DdlError>)
    ensures
        (ddl_outcome(r), final(params)@) == table_checks_checked(
            env_of(*scope, *null_ctx, *db),
            relname@,
            elts@,
            0,
            old(params)@,
        ),
{
    let ghost env = env_of(*scope, *null_ctx, *db);
    let subject: String = concat3("\"", relname, "\"");
    let mut i: usize = 0;
    while i < elts.len()
        invariant
            i <= elts@.len(),
            env == env_of(*scope, *null_ctx, *db),
            subject@ == quoted(relname@),
            table_checks_checked(env, relname@, elts@, 0, old(params)@) == table_checks_checked(
                env,
                relname@,
                elts@,
                i as int,
                params@,
            ),
        decreases elts.len() - i,
    {
        match &elts[i] {
            TableElt::Constraint(con) => {
                if con.contype == ConstrType::Check {
                    match &con.raw_expr {
                        Some(expr) => {
                            match check_condition(
                                db,
                                scope,
                                null_ctx,
                                expr,
                                params,
                                "table-level CHECK constraint",
                                subject.as_str(),
                            ) {
                                Ok(_) => {},
                                Err(e) => return Err(e),
                            }
                        },
                        None => {},
                    }
                }
            },
            _ => {},
        }
        i = i + 1;
    }
    Ok(())
}

/// Checks the types of the expressions in the constraints of a new table, which
/// is in the catalog already: a `CHECK` is boolean, and the expression of a
/// generated column can be assigned to it.
///
/// # Errors
///
/// An expression is not of that type, or cannot be typed.
pub(crate) fn validate_constraint_expressions(
    db: &PgCatalog,
    relid: u32,
    relname: &str,
    stmt: &CreateStmt,
) -> (r: Result<(), DdlError>)
    ensures
        ddl_outcome(r) == expressions_checked(db@, relid, relname@, *stmt),
{
    let attrs: Vec<PgAttribute> = db.attributes_of(relid);
    let schema: String = find_relation_schema(db, relid);
    let scope: Scope = relation_scope(schema.as_str(), relname, &attrs);
    let null_ctx: NullabilityContext = Default::default();
    let mut params: ParamCollector = Default::default();
    match check_columns(db, &scope, &null_ctx, &attrs, relname, &stmt.table_elts, &mut params) {
        Ok(_) => {},
        Err(e) => return Err(e),
    }
    match check_table_checks(db, &scope, &null_ctx, relname, &stmt.constraints, &mut params) {
        Ok(_) => {},
        Err(e) => return Err(e),
    }
    check_table_checks(db, &scope, &null_ctx, relname, &stmt.table_elts, &mut params)
}

/// Checks that the expression of a `CHECK` that is added to a table is boolean.
///
/// # Errors
///
/// It is not, it cannot be typed, or there is no such table.
pub(crate) fn validate_check_expression_for_table(db: &PgCatalog, relid: u32, expr: &Node) -> (r:
    Result<(), DdlError>)
    ensures
        ddl_outcome(r) == added_check_checked(db@, relid, *expr),
{
    let relname: String = match db.get_class(relid) {
        Some(k) => k.relname.clone(),
        None => return Err(
            DdlError::TableNotFound(concat2("relation oid ", decimal(relid as u64).as_str())),
        ),
    };
    let attrs: Vec<PgAttribute> = db.attributes_of(relid);
    let schema: String = find_relation_schema(db, relid);
    let scope: Scope = relation_scope(schema.as_str(), relname.as_str(), &attrs);
    let null_ctx: NullabilityContext = Default::default();
    let mut params: ParamCollector = Default::default();
    let subject: String = concat3("\"", relname.as_str(), "\"");
    check_condition(db, &scope, &null_ctx, expr, &mut params, "CHECK", subject.as_str())
}

} // verus!
