//! Expressions that have to give the same result each time: those of `CHECK`
//! constraints, of generated columns and of indexes. A function that is marked
//! `VOLATILE` may not occur in them.

use super::{DdlError, DdlErrorView};
use crate::ast::{qualified, FuncCall, Node};
use crate::catalog::{CatalogView, PgCatalog};
use crate::expr::split_name;
use crate::pg_catalog::ProVolatile;
use crate::text::{concat3, texts};
use vstd::prelude::*;

verus! {

/// Where an expression stands.
#[derive(Debug, Clone, Copy, PartialEq, Eq, Structural)]
pub enum ExprLocation {
    Check,
    Generated,
    Index,
}

/// The error for a volatile function.
pub open spec fn volatile_error(location: ExprLocation, name: Seq<char>) -> DdlErrorView {
    match location {
        ExprLocation::Check => DdlErrorView::UnsupportedDdl(
            "function \""@ + name + "\" used in check constraint must be marked IMMUTABLE"@,
        ),
        ExprLocation::Generated => DdlErrorView::UnsupportedDdl(
            "generation expression is not immutable: function \""@ + name
                + "\" must be marked IMMUTABLE"@,
        ),
        ExprLocation::Index => DdlErrorView::UnsupportedDdl(
            "function \""@ + name + "\" in index expression must be marked IMMUTABLE"@,
        ),
    }
}

impl ExprLocation {
    fn error(self, fname: &str) -> (r: DdlError)
        ensures
            r@ == volatile_error(self, fname@),
    {
        match self {
            ExprLocation::Check => DdlError::UnsupportedDdl(
                concat3(
                    "function \"",
                    fname,
                    "\" used in check constraint must be marked IMMUTABLE",
                ),
            ),
            ExprLocation::Generated => DdlError::UnsupportedDdl(
                concat3(
                    "generation expression is not immutable: function \"",
                    fname,
                    "\" must be marked IMMUTABLE",
                ),
            ),
            ExprLocation::Index => DdlError::UnsupportedDdl(
                concat3("function \"", fname, "\" in index expression must be marked IMMUTABLE"),
            ),
        }
    }
}

/// The name of the function that is called, where the first function of that
/// name is volatile.
pub open spec fn volatile_callee(c: CatalogView, parts: Seq<Seq<char>>) -> Option<Seq<char>> {
    match qualified(parts) {
        Some((schema, name)) => {
            let found = c.find_functions(schema, name);
            if found.len() > 0 {
                match c.get_proc(found[0]) {
                    Some(f) => if f.provolatile == ProVolatile::Volatile {
                        Some(name)
                    } else {
                        None
                    },
                    None => None,
                }
            } else {
                None
            }
        },
        None => None,
    }
}

/// The first of two findings.
pub open spec fn first_of(a: Option<Seq<char>>, b: Option<Seq<char>>) -> Option<Seq<char>> {
    match a {
        Some(x) => Some(x),
        None => b,
    }
}

/// The first volatile function that an expression calls. Subqueries are not
/// looked into.
pub open spec fn volatile_in(n: Node, c: CatalogView) -> Option<Seq<char>>
    decreases n, 0nat,
{
    match n {
        Node::FuncCall(fc) => first_of(
            volatile_callee(c, texts(fc.funcname@)),
            first_of(volatile_from(fc.args@, 0, c), volatile_opt(fc.agg_filter, c)),
        ),
        Node::AExpr(e) => first_of(volatile_opt(e.lexpr, c), volatile_opt(e.rexpr, c)),
        Node::BoolExpr(args) => volatile_from(args@, 0, c),
        Node::TypeCast(t) => volatile_opt(t.arg, c),
        Node::CollateClause(arg) => volatile_opt(arg, c),
        Node::CoalesceExpr(args) => volatile_from(args@, 0, c),
        Node::MinMaxExpr(m) => volatile_from(m.args@, 0, c),
        Node::NullIfExpr(args) => volatile_from(args@, 0, c),
        Node::CaseExpr(e) => first_of(
            volatile_opt(e.arg, c),
            first_of(volatile_from(e.args@, 0, c), volatile_opt(e.defresult, c)),
        ),
        Node::CaseWhen(w) => first_of(volatile_opt(w.expr, c), volatile_opt(w.result, c)),
        Node::List(items) => volatile_from(items@, 0, c),
        Node::SubLink(s) => volatile_opt(s.testexpr, c),
        Node::AArrayExpr(elements) => volatile_from(elements@, 0, c),
        Node::RowExpr(args) => volatile_from(args@, 0, c),
        _ => None,
    }
}

pub open spec fn volatile_opt(n: Option<Box<Node>>, c: CatalogView) -> Option<Seq<char>>
    decreases n, 0nat,
{
    match n {
        Some(b) => volatile_in(*b, c),
        None => None,
    }
}

pub open spec fn volatile_from(nodes: Seq<Node>, i: int, c: CatalogView) -> Option<Seq<char>>
    decreases nodes, nodes.len() - i,
{
    if i < 0 || i >= nodes.len() {
        None
    } else {
        first_of(volatile_in(nodes[i], c), volatile_from(nodes, i + 1, c))
    }
}

/// What checking an expression gives.
pub open spec fn volatility(n: Node, location: ExprLocation, c: CatalogView) -> Result<
    (),
    DdlErrorView,
> {
    match volatile_in(n, c) {
        Some(name) => Err(volatile_error(location, name)),
        None => Ok(()),
    }
}

/// What checking an expression that may be missing gives.
pub open spec fn opt_volatility(
    n: Option<Box<Node>>,
    location: ExprLocation,
    c: CatalogView,
) -> Result<(), DdlErrorView> {
    match n {
        Some(b) => volatility(*b, location, c),
        None => Ok(()),
    }
}

fn find_volatile_callee<'a>(fc: &'a FuncCall, db: &PgCatalog) -> (r: Option<&'a str>)
    ensures
        crate::lookup::opt_str(r) == volatile_callee(db@, texts(fc.funcname@)),
{
    match split_name(&fc.funcname) {
        Some((schema, name)) => {
            let found: Vec<u32> = db.find_functions(schema, name);
            if found.len() > 0 {
                match db.pg_proc.get(found[0]) {
                    Some(f) => if f.provolatile == ProVolatile::Volatile {
                        Some(name)
                    } else {
                        None
                    },
                    None => None,
                }
            } else {
                None
            }
        },
        None => None,
    }
}

/// What a finding means for the result of a check.
pub open spec fn found_error(found: Option<Seq<char>>, location: ExprLocation) -> Result<
    (),
    DdlErrorView,
> {
    match found {
        Some(name) => Err(volatile_error(location, name)),
        None => Ok(()),
    }
}

fn walk(node: &Node, loc: ExprLocation, db: &PgCatalog) -> (r: Result<(), DdlError>)
    ensures
        super::ddl_outcome(r) == found_error(volatile_in(*node, db@), loc),
    decreases node, 0nat,
{
    match node {
        Node::FuncCall(fc) => {
            match find_volatile_callee(fc, db) {
                Some(name) => return Err(loc.error(name)),
                None => {},
            }
            match walk_list(&fc.args, loc, db) {
                Ok(_) => walk_opt(&fc.agg_filter, loc, db),
                Err(e) => Err(e),
            }
        },
        Node::AExpr(e) => match walk_opt(&e.lexpr, loc, db) {
            Ok(_) => walk_opt(&e.rexpr, loc, db),
            Err(x) => Err(x),
        },
        Node::BoolExpr(args) => walk_list(args, loc, db),
        Node::TypeCast(t) => walk_opt(&t.arg, loc, db),
        Node::CollateClause(arg) => walk_opt(arg, loc, db),
        Node::CoalesceExpr(args) => walk_list(args, loc, db),
        Node::MinMaxExpr(m) => walk_list(&m.args, loc, db),
        Node::NullIfExpr(args) => walk_list(args, loc, db),
        Node::CaseExpr(e) => match walk_opt(&e.arg, loc, db) {
            Ok(_) => match walk_list(&e.args, loc, db) {
                Ok(_) => walk_opt(&e.defresult, loc, db),
                Err(x) => Err(x),
            },
            Err(x) => Err(x),
        },
        Node::CaseWhen(w) => match walk_opt(&w.expr, loc, db) {
            Ok(_) => walk_opt(&w.result, loc, db),
            Err(x) => Err(x),
        },
        Node::List(items) => walk_list(items, loc, db),
        Node::SubLink(s) => walk_opt(&s.testexpr, loc, db),
        Node::AArrayExpr(elements) => walk_list(elements, loc, db),
        Node::RowExpr(args) => walk_list(args, loc, db),
        _ => Ok(()),
    }
}

fn walk_opt(node: &Option<Box<Node>>, loc: ExprLocation, db: &PgCatalog) -> (r: Result<
    (),
    DdlError,
>)
    ensures
        super::ddl_outcome(r) == found_error(volatile_opt(*node, db@), loc),
    decreases node, 0nat,
{
    match node {
        Some(b) => walk(b, loc, db),
        None => Ok(()),
    }
}

fn walk_list(nodes: &Vec<Node>, loc: ExprLocation, db: &PgCatalog) -> (r: Result<(), DdlError>)
    ensures
        super::ddl_outcome(r) == found_error(volatile_from(nodes@, 0, db@), loc),
    decreases nodes, 0nat,
{
    let mut i: usize = 0;
    while i < nodes.len()
        invariant
            i <= nodes@.len(),
            volatile_from(nodes@, 0, db@) == volatile_from(nodes@, i as int, db@),
        decreases nodes.len() - i,
    {
        proof {
            assert(decreases_to!(nodes => nodes@[i as int]));
        }
        match walk(&nodes[i], loc, db) {
            Ok(_) => {},
            Err(e) => return Err(e),
        }
        i = i + 1;
    }
    Ok(())
}

/// Refuses an expression that calls a function marked `VOLATILE`.
///
/// # Errors
///
/// It does; the error is worded for the place of the expression.
pub fn check_no_volatile(node: &Node, location: ExprLocation, db: &PgCatalog) -> (r: Result<
    (),
    DdlError,
>)
    ensures
        super::ddl_outcome(r) == volatility(*node, location, db@),
{
    walk(node, location, db)
}

/// Refuses an expression that calls a volatile function; a missing one passes.
pub(crate) fn check_opt_volatile(
    node: &Option<Box<Node>>,
    location: ExprLocation,
    db: &PgCatalog,
) -> (r: Result<(), DdlError>)
    ensures
        super::ddl_outcome(r) == opt_volatility(*node, location, db@),
{
    match node {
        Some(b) => walk(b, location, db),
        None => Ok(()),
    }
}

} // verus!
