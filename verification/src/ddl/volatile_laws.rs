//! Where volatile functions are refused.

use super::volatile::{
    ExprLocation, volatile_callee, volatile_from, volatile_in, volatile_opt, volatility,
};
use super::DdlErrorView;
use crate::ast::Node;
use crate::catalog::CatalogView;
use crate::pg_catalog::ProVolatile;
use crate::text::texts;
use vstd::prelude::*;

verus! {

/// An expression calls a volatile function, outside its subqueries.
pub open spec fn calls_volatile(n: Node, c: CatalogView) -> bool {
    volatile_in(n, c) is Some
}

/// An expression that may be missing does.
pub open spec fn opt_calls(n: Option<Box<Node>>, c: CatalogView) -> bool {
    n matches Some(b) && calls_volatile(*b, c)
}

/// One of several expressions does.
pub open spec fn some_calls(nodes: Seq<Node>, c: CatalogView) -> bool {
    exists|i: int| 0 <= i < nodes.len() && calls_volatile(#[trigger] nodes[i], c)
}

proof fn lemma_some_calls(nodes: Seq<Node>, i: int, c: CatalogView)
    requires
        0 <= i <= nodes.len(),
    ensures
        volatile_from(nodes, i, c) is Some <==> exists|k: int|
            i <= k < nodes.len() && calls_volatile(#[trigger] nodes[k], c),
    decreases nodes.len() - i,
{
    if i < nodes.len() {
        lemma_some_calls(nodes, i + 1, c);
        if exists|k: int| i + 1 <= k < nodes.len() && calls_volatile(#[trigger] nodes[k], c) {
            let k = choose|k: int|
                i + 1 <= k < nodes.len() && calls_volatile(#[trigger] nodes[k], c);
            assert(calls_volatile(nodes[k], c));
        }
    }
}

/// A name stands for a volatile function where the first function that it leads to is marked
/// so.
pub proof fn law_volatile_names(c: CatalogView, schema: Option<Seq<char>>, name: Seq<char>)
    requires
        name.len() > 0,
    ensures
        ({
            let parts = match schema {
                Some(s) => seq![s, name],
                None => seq![name],
            };
            let found = c.find_functions(schema, name);
            volatile_callee(c, parts) == if found.len() > 0 && (c.get_proc(found[0]) matches Some(f)
                && f.provolatile == ProVolatile::Volatile) {
                Some(name)
            } else {
                None
            }
        }),
{
}

/// A call counts where the function is volatile or where an argument or the filter counts;
/// all other expressions where one of their parts does. Constants, columns and parameters
/// never do.
pub proof fn law_volatile_parts(n: Node, c: CatalogView)
    ensures
        n matches Node::FuncCall(f) ==> (calls_volatile(n, c) <==> volatile_callee(
            c,
            texts(f.funcname@),
        ) is Some || some_calls(f.args@, c) || opt_calls(f.agg_filter, c)),
        n matches Node::AExpr(e) ==> (calls_volatile(n, c) <==> opt_calls(e.lexpr, c) || opt_calls(
            e.rexpr,
            c,
        )),
        n matches Node::BoolExpr(args) ==> (calls_volatile(n, c) <==> some_calls(args@, c)),
        n matches Node::CoalesceExpr(args) ==> (calls_volatile(n, c) <==> some_calls(args@, c)),
        n matches Node::NullIfExpr(args) ==> (calls_volatile(n, c) <==> some_calls(args@, c)),
        n matches Node::List(args) ==> (calls_volatile(n, c) <==> some_calls(args@, c)),
        n matches Node::AArrayExpr(args) ==> (calls_volatile(n, c) <==> some_calls(args@, c)),
        n matches Node::RowExpr(args) ==> (calls_volatile(n, c) <==> some_calls(args@, c)),
        n matches Node::MinMaxExpr(m) ==> (calls_volatile(n, c) <==> some_calls(m.args@, c)),
        n matches Node::TypeCast(t) ==> (calls_volatile(n, c) <==> opt_calls(t.arg, c)),
        n matches Node::CollateClause(arg) ==> (calls_volatile(n, c) <==> opt_calls(arg, c)),
        n matches Node::SubLink(s) ==> (calls_volatile(n, c) <==> opt_calls(s.testexpr, c)),
        n matches Node::CaseExpr(e) ==> (calls_volatile(n, c) <==> opt_calls(e.arg, c)
            || some_calls(e.args@, c) || opt_calls(e.defresult, c)),
        n matches Node::CaseWhen(w) ==> (calls_volatile(n, c) <==> opt_calls(w.expr, c)
            || opt_calls(w.result, c)),
        n is ColumnRef || n is AConst || n is ParamRef ==> !calls_volatile(n, c),
{
    match n {
        Node::FuncCall(f) => {
            lemma_some_calls(f.args@, 0, c);
            assert(volatile_opt(f.agg_filter, c) is Some <==> opt_calls(f.agg_filter, c));
        },
        Node::AExpr(e) => {
            assert(volatile_opt(e.lexpr, c) is Some <==> opt_calls(e.lexpr, c));
            assert(volatile_opt(e.rexpr, c) is Some <==> opt_calls(e.rexpr, c));
        },
        Node::BoolExpr(args) => lemma_some_calls(args@, 0, c),
        Node::CoalesceExpr(args) => lemma_some_calls(args@, 0, c),
        Node::NullIfExpr(args) => lemma_some_calls(args@, 0, c),
        Node::List(args) => lemma_some_calls(args@, 0, c),
        Node::AArrayExpr(args) => lemma_some_calls(args@, 0, c),
        Node::RowExpr(args) => lemma_some_calls(args@, 0, c),
        Node::MinMaxExpr(m) => lemma_some_calls(m.args@, 0, c),
        Node::TypeCast(t) => {
            assert(volatile_opt(t.arg, c) is Some <==> opt_calls(t.arg, c));
        },
        Node::CollateClause(arg) => {
            assert(volatile_opt(arg, c) is Some <==> opt_calls(arg, c));
        },
        Node::SubLink(s) => {
            assert(volatile_opt(s.testexpr, c) is Some <==> opt_calls(s.testexpr, c));
        },
        Node::CaseExpr(e) => {
            lemma_some_calls(e.args@, 0, c);
            assert(volatile_opt(e.arg, c) is Some <==> opt_calls(e.arg, c));
            assert(volatile_opt(e.defresult, c) is Some <==> opt_calls(e.defresult, c));
        },
        Node::CaseWhen(w) => {
            assert(volatile_opt(w.expr, c) is Some <==> opt_calls(w.expr, c));
            assert(volatile_opt(w.result, c) is Some <==> opt_calls(w.result, c));
        },
        _ => {},
    }
}

/// An expression that must not be volatile is refused just where it calls a volatile
/// function, wherever it stands.
pub proof fn law_volatile_expressions_are_refused(n: Node, location: ExprLocation, c: CatalogView)
    ensures
        calls_volatile(n, c) ==> (volatility(n, location, c) matches Err(
            DdlErrorView::UnsupportedDdl(_),
        )),
        !calls_volatile(n, c) ==> volatility(n, location, c) is Ok,
{
}

} // verus!
