//! Where aggregates and window functions occur.

use crate::ast::{AExpr, CaseExpr, FuncCall, Node, SubLink, SubLinkType};
use crate::catalog::CatalogView;
use crate::expr::{
    EnvView, FuncKindPresence, checked, contains_aggregate, expr_outcome, kinds_from, kinds_in,
    kinds_opt, names_aggregate, nested_error, node_outcome, opt_contains_aggregate,
    some_aggregate, some_branch_aggregate, some_contains_aggregate, some_target_aggregate,
    sublink_outcome,
};
use crate::expr_laws::free;
use crate::param_collector::ParamEntry;
use crate::pg_catalog::ProKind;
use crate::text::texts;
use vstd::prelude::*;

verus! {

/// Nothing has been met yet.
pub open spec fn nothing() -> FuncKindPresence {
    FuncKindPresence { has_aggregate: false, has_window: false }
}

/// What either of two holds.
pub open spec fn either(a: FuncKindPresence, b: FuncKindPresence) -> FuncKindPresence {
    FuncKindPresence {
        has_aggregate: a.has_aggregate || b.has_aggregate,
        has_window: a.has_window || b.has_window,
    }
}

proof fn lemma_kinds(n: Node, c: CatalogView, acc: FuncKindPresence)
    ensures
        kinds_in(n, c, acc) == either(acc, kinds_in(n, c, nothing())),
    decreases n, 0nat,
{
    match n {
        Node::FuncCall(fc) => {
            let here = if fc.over is Some {
                FuncKindPresence { has_window: true, ..acc }
            } else if names_aggregate(c, texts(fc.funcname@)) {
                FuncKindPresence { has_aggregate: true, ..acc }
            } else {
                acc
            };
            let bare = if fc.over is Some {
                FuncKindPresence { has_window: true, ..nothing() }
            } else if names_aggregate(c, texts(fc.funcname@)) {
                FuncKindPresence { has_aggregate: true, ..nothing() }
            } else {
                nothing()
            };
            lemma_kinds_from(fc.args@, 0, c, here);
            lemma_kinds_from(fc.args@, 0, c, bare);
            lemma_kinds_opt(fc.agg_filter, c, kinds_from(fc.args@, 0, c, here));
            lemma_kinds_opt(fc.agg_filter, c, kinds_from(fc.args@, 0, c, bare));
            lemma_kinds_from(
                fc.agg_order@,
                0,
                c,
                kinds_opt(fc.agg_filter, c, kinds_from(fc.args@, 0, c, here)),
            );
            lemma_kinds_from(
                fc.agg_order@,
                0,
                c,
                kinds_opt(fc.agg_filter, c, kinds_from(fc.args@, 0, c, bare)),
            );
        },
        Node::AExpr(e) => {
            lemma_kinds_opt(e.lexpr, c, acc);
            lemma_kinds_opt(e.lexpr, c, nothing());
            lemma_kinds_opt(e.rexpr, c, kinds_opt(e.lexpr, c, acc));
            lemma_kinds_opt(e.rexpr, c, kinds_opt(e.lexpr, c, nothing()));
        },
        Node::BoolExpr(args) => lemma_kinds_from(args@, 0, c, acc),
        Node::NullTest(arg) => lemma_kinds_opt(arg, c, acc),
        Node::BooleanTest(arg) => lemma_kinds_opt(arg, c, acc),
        Node::CoalesceExpr(args) => lemma_kinds_from(args@, 0, c, acc),
        Node::CaseExpr(e) => {
            lemma_kinds_from(e.args@, 0, c, acc);
            lemma_kinds_from(e.args@, 0, c, nothing());
            lemma_kinds_opt(e.defresult, c, kinds_from(e.args@, 0, c, acc));
            lemma_kinds_opt(e.defresult, c, kinds_from(e.args@, 0, c, nothing()));
        },
        Node::CaseWhen(w) => {
            lemma_kinds_opt(w.expr, c, acc);
            lemma_kinds_opt(w.expr, c, nothing());
            lemma_kinds_opt(w.result, c, kinds_opt(w.expr, c, acc));
            lemma_kinds_opt(w.result, c, kinds_opt(w.expr, c, nothing()));
        },
        Node::TypeCast(t) => lemma_kinds_opt(t.arg, c, acc),
        Node::List(items) => lemma_kinds_from(items@, 0, c, acc),
        _ => {},
    }
}

proof fn lemma_kinds_opt(n: Option<Box<Node>>, c: CatalogView, acc: FuncKindPresence)
    ensures
        kinds_opt(n, c, acc) == either(acc, kinds_opt(n, c, nothing())),
    decreases n, 0nat,
{
    if let Some(b) = n {
        lemma_kinds(*b, c, acc);
    }
}

proof fn lemma_kinds_from(nodes: Seq<Node>, i: int, c: CatalogView, acc: FuncKindPresence)
    ensures
        kinds_from(nodes, i, c, acc) == either(acc, kinds_from(nodes, i, c, nothing())),
    decreases nodes, nodes.len() - i,
{
    if 0 <= i < nodes.len() {
        lemma_kinds(nodes[i], c, acc);
        lemma_kinds_from(nodes, i + 1, c, kinds_in(nodes[i], c, acc));
        lemma_kinds_from(nodes, i + 1, c, kinds_in(nodes[i], c, nothing()));
    }
}

/// An expression holds a call of an aggregate, outside its subqueries.
pub open spec fn has_aggregate(n: Node, c: CatalogView) -> bool {
    kinds_in(n, c, nothing()).has_aggregate
}

/// An expression holds a call over a window, outside its subqueries.
pub open spec fn has_window(n: Node, c: CatalogView) -> bool {
    kinds_in(n, c, nothing()).has_window
}

/// An expression that may be missing holds such a call.
pub open spec fn opt_has(n: Option<Box<Node>>, c: CatalogView) -> bool {
    n matches Some(b) && has_aggregate(*b, c)
}

/// One of several expressions holds such a call.
pub open spec fn some_has(nodes: Seq<Node>, c: CatalogView) -> bool {
    exists|i: int| 0 <= i < nodes.len() && has_aggregate(#[trigger] nodes[i], c)
}

proof fn lemma_from_has(nodes: Seq<Node>, i: int, c: CatalogView)
    requires
        0 <= i <= nodes.len(),
    ensures
        kinds_from(nodes, i, c, nothing()).has_aggregate <==> exists|k: int|
            i <= k < nodes.len() && has_aggregate(#[trigger] nodes[k], c),
    decreases nodes.len() - i,
{
    if i < nodes.len() {
        lemma_from_has(nodes, i + 1, c);
        lemma_kinds_from(nodes, i + 1, c, kinds_in(nodes[i], c, nothing()));
        if exists|k: int| i + 1 <= k < nodes.len() && has_aggregate(#[trigger] nodes[k], c) {
            let k = choose|k: int|
                i + 1 <= k < nodes.len() && has_aggregate(#[trigger] nodes[k], c);
            assert(has_aggregate(nodes[k], c));
        }
    }
}

/// A name stands for an aggregate where a routine that it may stand for is one.
pub proof fn law_aggregate_names(c: CatalogView, schema: Option<Seq<char>>, name: Seq<char>)
    requires
        name.len() > 0,
    ensures
        names_aggregate(
            c,
            match schema {
                Some(s) => seq![s, name],
                None => seq![name],
            },
        ) <==> exists|oid: u32| #[trigger]
            c.find_functions(schema, name).contains(oid) && (c.get_proc(oid) matches Some(f)
                && f.prokind == ProKind::Aggregate),
{
    let oids = c.find_functions(schema, name);
    if some_aggregate(c, oids) {
        let i = choose|i: int|
            0 <= i < oids.len() && (c.get_proc(#[trigger] oids[i]) matches Some(f) && f.prokind
                == ProKind::Aggregate);
        assert(oids.contains(oids[i]));
    }
    if exists|oid: u32| #[trigger] oids.contains(oid) && (c.get_proc(oid) matches Some(f)
        && f.prokind == ProKind::Aggregate) {
        let oid = choose|oid: u32| #[trigger]
            oids.contains(oid) && (c.get_proc(oid) matches Some(f) && f.prokind
                == ProKind::Aggregate);
        let i = choose|i: int| 0 <= i < oids.len() && oids[i] == oid;
        assert(c.get_proc(oids[i]) is Some);
    }
}

/// A call holds an aggregate where it is one and not over a window, or where one of its
/// arguments, its filter or its order does. Operators, tests, logic, `COALESCE`, `CASE`,
/// casts and lists hold one where one of their parts does.
pub proof fn law_aggregates_of_the_parts(n: Node, c: CatalogView)
    ensures
        n matches Node::FuncCall(f) ==> (has_aggregate(n, c) <==> (f.over is None
            && names_aggregate(c, texts(f.funcname@))) || some_has(f.args@, c) || opt_has(
            f.agg_filter,
            c,
        ) || some_has(f.agg_order@, c)),
        n matches Node::AExpr(e) ==> (has_aggregate(n, c) <==> opt_has(e.lexpr, c) || opt_has(
            e.rexpr,
            c,
        )),
        n matches Node::BoolExpr(args) ==> (has_aggregate(n, c) <==> some_has(args@, c)),
        n matches Node::CoalesceExpr(args) ==> (has_aggregate(n, c) <==> some_has(args@, c)),
        n matches Node::List(args) ==> (has_aggregate(n, c) <==> some_has(args@, c)),
        n matches Node::NullTest(arg) ==> (has_aggregate(n, c) <==> opt_has(arg, c)),
        n matches Node::BooleanTest(arg) ==> (has_aggregate(n, c) <==> opt_has(arg, c)),
        n matches Node::TypeCast(t) ==> (has_aggregate(n, c) <==> opt_has(t.arg, c)),
        n matches Node::CaseExpr(e) ==> (has_aggregate(n, c) <==> some_has(e.args@, c) || opt_has(
            e.defresult,
            c,
        )),
        n matches Node::CaseWhen(w) ==> (has_aggregate(n, c) <==> opt_has(w.expr, c) || opt_has(
            w.result,
            c,
        )),
        n is ColumnRef || n is AConst || n is ParamRef || n is SubLink ==> !has_aggregate(n, c)
            && !has_window(n, c),
        n matches Node::FuncCall(f) ==> (f.over is Some ==> has_window(n, c)),
{
    match n {
        Node::FuncCall(fc) => {
            let here = if fc.over is Some {
                FuncKindPresence { has_window: true, ..nothing() }
            } else if names_aggregate(c, texts(fc.funcname@)) {
                FuncKindPresence { has_aggregate: true, ..nothing() }
            } else {
                nothing()
            };
            lemma_from_has(fc.args@, 0, c);
            lemma_from_has(fc.agg_order@, 0, c);
            let a = kinds_from(fc.args@, 0, c, here);
            let b = kinds_opt(fc.agg_filter, c, a);
            lemma_kinds_from(fc.args@, 0, c, here);
            lemma_kinds_opt(fc.agg_filter, c, a);
            lemma_kinds_from(fc.agg_order@, 0, c, b);
            assert(kinds_opt(fc.agg_filter, c, nothing()).has_aggregate <==> opt_has(
                fc.agg_filter,
                c,
            ));
        },
        Node::AExpr(e) => {
            lemma_kinds_opt(e.rexpr, c, kinds_opt(e.lexpr, c, nothing()));
            assert(kinds_opt(e.lexpr, c, nothing()).has_aggregate <==> opt_has(e.lexpr, c));
            assert(kinds_opt(e.rexpr, c, nothing()).has_aggregate <==> opt_has(e.rexpr, c));
        },
        Node::BoolExpr(args) => lemma_from_has(args@, 0, c),
        Node::CoalesceExpr(args) => lemma_from_has(args@, 0, c),
        Node::List(args) => lemma_from_has(args@, 0, c),
        Node::NullTest(arg) => {
            assert(kinds_opt(arg, c, nothing()).has_aggregate <==> opt_has(arg, c));
        },
        Node::BooleanTest(arg) => {
            assert(kinds_opt(arg, c, nothing()).has_aggregate <==> opt_has(arg, c));
        },
        Node::TypeCast(t) => {
            assert(kinds_opt(t.arg, c, nothing()).has_aggregate <==> opt_has(t.arg, c));
        },
        Node::CaseExpr(e) => {
            lemma_from_has(e.args@, 0, c);
            lemma_kinds_opt(e.defresult, c, kinds_from(e.args@, 0, c, nothing()));
            assert(kinds_opt(e.defresult, c, nothing()).has_aggregate <==> opt_has(
                e.defresult,
                c,
            ));
        },
        Node::CaseWhen(w) => {
            lemma_kinds_opt(w.result, c, kinds_opt(w.expr, c, nothing()));
            assert(kinds_opt(w.expr, c, nothing()).has_aggregate <==> opt_has(w.expr, c));
            assert(kinds_opt(w.result, c, nothing()).has_aggregate <==> opt_has(w.result, c));
        },
        _ => {},
    }
}

proof fn lemma_nested(args: Seq<Node>, i: int, c: CatalogView)
    requires
        0 <= i <= args.len(),
    ensures
        nested_error(args, i, c) is Some <==> exists|k: int|
            i <= k < args.len() && (has_aggregate(#[trigger] args[k], c) || has_window(
                args[k],
                c,
            )),
    decreases args.len() - i,
{
    if i < args.len() {
        lemma_nested(args, i + 1, c);
        if exists|k: int|
            i + 1 <= k < args.len() && (has_aggregate(#[trigger] args[k], c) || has_window(
                args[k],
                c,
            )) {
            let k = choose|k: int|
                i + 1 <= k < args.len() && (has_aggregate(#[trigger] args[k], c) || has_window(
                    args[k],
                    c,
                ));
            assert(has_aggregate(args[k], c) || has_window(args[k], c));
        }
    }
}

/// An aggregate is refused just where one of its arguments holds an aggregate or a call over
/// a window.
pub proof fn law_aggregates_do_not_nest(args: Seq<Node>, c: CatalogView)
    ensures
        nested_error(args, 0, c) is Some <==> exists|k: int|
            0 <= k < args.len() && (has_aggregate(#[trigger] args[k], c) || has_window(
                args[k],
                c,
            )),
{
    lemma_nested(args, 0, c);
}

// ── Subqueries of one row ───────────────────────────────────────────────────

/// The names of the well-known aggregates.
pub open spec fn well_known() -> Seq<Seq<char>> {
    seq![
        "count"@,
        "sum"@,
        "avg"@,
        "min"@,
        "max"@,
        "array_agg"@,
        "string_agg"@,
        "bool_and"@,
        "bool_or"@,
        "every"@,
        "json_agg"@,
        "jsonb_agg"@,
        "json_object_agg"@,
        "jsonb_object_agg"@,
        "bit_and"@,
        "bit_or"@,
    ]
}

/// An expression that may be missing holds a call of a well-known aggregate.
pub open spec fn opt_counts(n: Option<Box<Node>>) -> bool {
    n matches Some(b) && contains_aggregate(*b)
}

/// One of several expressions holds such a call.
pub open spec fn some_counts(nodes: Seq<Node>) -> bool {
    exists|i: int| 0 <= i < nodes.len() && contains_aggregate(#[trigger] nodes[i])
}

proof fn lemma_some_counts(nodes: Seq<Node>, i: int)
    requires
        0 <= i <= nodes.len(),
    ensures
        some_contains_aggregate(nodes, i) <==> exists|k: int|
            i <= k < nodes.len() && contains_aggregate(#[trigger] nodes[k]),
    decreases nodes.len() - i,
{
    if i < nodes.len() {
        lemma_some_counts(nodes, i + 1);
        if exists|k: int| i + 1 <= k < nodes.len() && contains_aggregate(#[trigger] nodes[k]) {
            let k = choose|k: int|
                i + 1 <= k < nodes.len() && contains_aggregate(#[trigger] nodes[k]);
            assert(contains_aggregate(nodes[k]));
        }
    }
}

proof fn lemma_some_branch(nodes: Seq<Node>, i: int)
    requires
        0 <= i <= nodes.len(),
    ensures
        some_branch_aggregate(nodes, i) <==> exists|k: int|
            i <= k < nodes.len() && #[trigger] nodes[k] is CaseWhen && opt_counts(
                nodes[k]->CaseWhen_0.result,
            ),
    decreases nodes.len() - i,
{
    if i < nodes.len() {
        lemma_some_branch(nodes, i + 1);
        if let Node::CaseWhen(w) = nodes[i] {
            assert(opt_contains_aggregate(w.result) == opt_counts(w.result));
        }
        if exists|k: int|
            i + 1 <= k < nodes.len() && #[trigger] nodes[k] is CaseWhen && opt_counts(
                nodes[k]->CaseWhen_0.result,
            ) {
            let k = choose|k: int|
                i + 1 <= k < nodes.len() && #[trigger] nodes[k] is CaseWhen && opt_counts(
                    nodes[k]->CaseWhen_0.result,
                );
            assert(nodes[k] is CaseWhen);
        }
    }
}

proof fn lemma_some_target(nodes: Seq<Node>, i: int)
    requires
        0 <= i <= nodes.len(),
    ensures
        some_target_aggregate(nodes, i) <==> exists|k: int|
            i <= k < nodes.len() && #[trigger] nodes[k] is ResTarget && opt_counts(
                nodes[k]->ResTarget_0,
            ),
    decreases nodes.len() - i,
{
    if i < nodes.len() {
        lemma_some_target(nodes, i + 1);
        if let Node::ResTarget(val) = nodes[i] {
            assert(opt_contains_aggregate(val) == opt_counts(val));
        }
        if exists|k: int|
            i + 1 <= k < nodes.len() && #[trigger] nodes[k] is ResTarget && opt_counts(
                nodes[k]->ResTarget_0,
            ) {
            let k = choose|k: int|
                i + 1 <= k < nodes.len() && #[trigger] nodes[k] is ResTarget && opt_counts(
                    nodes[k]->ResTarget_0,
                );
            assert(nodes[k] is ResTarget);
        }
    }
}

/// A call counts as one of a well-known aggregate by its name, a star or an order of its
/// input; operators, casts, `COALESCE`, `CASE`, logic and tests hold one where a part does.
pub proof fn law_well_known_aggregates_of_the_parts(n: Node)
    ensures
        n matches Node::FuncCall(f) ==> (contains_aggregate(n) <==> f.agg_star || f.agg_order@.len()
            > 0 || (f.funcname@.len() > 0 && exists|k: int|
            0 <= k < 16 && #[trigger] well_known()[k] == f.funcname@[f.funcname@.len() - 1]@)),
        n matches Node::AExpr(e) ==> (contains_aggregate(n) <==> opt_counts(e.lexpr) || opt_counts(
            e.rexpr,
        )),
        n matches Node::TypeCast(t) ==> (contains_aggregate(n) <==> opt_counts(t.arg)),
        n matches Node::NullTest(arg) ==> (contains_aggregate(n) <==> opt_counts(arg)),
        n matches Node::CoalesceExpr(args) ==> (contains_aggregate(n) <==> some_counts(args@)),
        n matches Node::BoolExpr(args) ==> (contains_aggregate(n) <==> some_counts(args@)),
        n matches Node::CaseExpr(e) ==> (contains_aggregate(n) <==> opt_counts(e.defresult)
            || exists|k: int|
            0 <= k < e.args@.len() && #[trigger] e.args@[k] is CaseWhen && opt_counts(
                e.args@[k]->CaseWhen_0.result,
            )),
        n is ColumnRef || n is AConst || n is ParamRef || n is SubLink ==> !contains_aggregate(n),
{
    match n {
        Node::FuncCall(f) => {
            let w = well_known();
            assert(w[0] == "count"@ && w[1] == "sum"@ && w[2] == "avg"@ && w[3] == "min"@ && w[4]
                == "max"@ && w[5] == "array_agg"@ && w[6] == "string_agg"@ && w[7] == "bool_and"@
                && w[8] == "bool_or"@ && w[9] == "every"@ && w[10] == "json_agg"@ && w[11]
                == "jsonb_agg"@ && w[12] == "json_object_agg"@ && w[13] == "jsonb_object_agg"@
                && w[14] == "bit_and"@ && w[15] == "bit_or"@);
        },
        Node::AExpr(e) => {
            assert(opt_contains_aggregate(e.lexpr) == opt_counts(e.lexpr));
            assert(opt_contains_aggregate(e.rexpr) == opt_counts(e.rexpr));
        },
        Node::TypeCast(t) => {
            assert(opt_contains_aggregate(t.arg) == opt_counts(t.arg));
        },
        Node::NullTest(arg) => {
            assert(opt_contains_aggregate(arg) == opt_counts(arg));
        },
        Node::CoalesceExpr(args) => lemma_some_counts(args@, 0),
        Node::BoolExpr(args) => lemma_some_counts(args@, 0),
        Node::CaseExpr(e) => {
            lemma_some_branch(e.args@, 0);
            assert(opt_contains_aggregate(e.defresult) == opt_counts(e.defresult));
        },
        _ => {},
    }
}

/// A subquery as a value is never null just where it has no `GROUP BY`, one of its targets
/// holds a well-known aggregate, so that it has one row, and its column is never null.
pub proof fn law_subquery_of_one_row_is_not_null(
    sub: Box<SubLink>,
    env: EnvView,
    ps: Seq<ParamEntry>,
)
    requires
        sub.kind == SubLinkType::Expr,
        sub.subselect is Some,
        *(sub.subselect->0) is SelectStmt,
        sub.analysis.outcome is Ok,
        sub.analysis.outcome->Ok_0@.len() > 0,
    ensures
        ({
            let sel = (*(sub.subselect->0))->SelectStmt_0;
            let col = sub.analysis.outcome->Ok_0@[0];
            expr_outcome(Node::SubLink(sub), env, ps, free()).0 matches Ok(t) && t.type_oid
                == col.type_oid && (t.nullable <==> col.nullable || sel.group_clause@.len() > 0 || !(
            exists|k: int|
                0 <= k < sel.target_list@.len() && #[trigger] sel.target_list@[k] is ResTarget
                    && opt_counts(sel.target_list@[k]->ResTarget_0)))
        }),
{
    let n = Node::SubLink(sub);
    let o = node_outcome(n, env, ps, free());
    assert(expr_outcome(n, env, ps, free()) == checked(env.cat, o, free()));
    assert(o == sublink_outcome(*sub, env.cat, ps));
    let sel = (*(sub.subselect->0))->SelectStmt_0;
    lemma_some_target(sel.target_list@, 0);
}

} // verus!
