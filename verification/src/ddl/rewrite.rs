//! Current names in a stored query.
//!
//! A stored query keeps the names that it was written with. Before it is read
//! again, each name whose binding points to an object of the catalog gets the
//! name that the object has by then.

use super::bindings::{
    bindings_in, clause_bindings, cte_bindings, from_bindings, item_bindings, list_bindings,
    opt_bindings, opt_item_bindings, opt_select_bindings, select_bindings, Frame,
};
use crate::ast::{ColumnRef, NamePart, Node, RangeVar, SelectStmt, WindowDef};
use crate::catalog::{CatalogView, PgCatalog};
use crate::lookup::{attribute_numbered, find_attnum, opt_str};
use crate::pg_catalog::{AstBinding, PgAttribute};
use vstd::prelude::*;

verus! {

// ── Places that hold a name ─────────────────────────────────────────────────

/// The number of places in a tree that have a binding.
pub open spec fn slots(n: Node) -> nat
    decreases n, 0nat, 0int,
{
    match n {
        Node::SelectStmt(sel) => select_slots(*sel),
        Node::ColumnRef(_) => 1,
        Node::AExpr(e) => opt_slots(e.lexpr) + opt_slots(e.rexpr),
        Node::BoolExpr(args) => list_slots(args@, args@.len() as int),
        Node::FuncCall(fc) => 1 + list_slots(fc.args@, fc.args@.len() as int) + window_slots(
            fc.over,
        ) + opt_slots(fc.agg_filter),
        Node::TypeCast(t) => opt_slots(t.arg) + if t.target is Some {
            1nat
        } else {
            0nat
        },
        Node::CollateClause(arg) => opt_slots(arg),
        Node::CoalesceExpr(args) => list_slots(args@, args@.len() as int),
        Node::MinMaxExpr(m) => list_slots(m.args@, m.args@.len() as int),
        Node::NullIfExpr(args) => list_slots(args@, args@.len() as int),
        Node::CaseExpr(e) => opt_slots(e.arg) + list_slots(e.args@, e.args@.len() as int)
            + opt_slots(e.defresult),
        Node::CaseWhen(w) => opt_slots(w.expr) + opt_slots(w.result),
        Node::SubLink(s) => opt_slots(s.testexpr) + opt_slots(s.subselect),
        Node::NullTest(arg) => opt_slots(arg),
        Node::BooleanTest(arg) => opt_slots(arg),
        Node::List(items) => list_slots(items@, items@.len() as int),
        Node::ArrayExpr(elements) => list_slots(elements@, elements@.len() as int),
        Node::RowExpr(args) => list_slots(args@, args@.len() as int),
        Node::ResTarget(val) => opt_slots(val),
        Node::SortBy(node) => opt_slots(node),
        _ => 0,
    }
}

pub open spec fn opt_slots(n: Option<Box<Node>>) -> nat
    decreases n, 0nat, 0int,
{
    match n {
        Some(b) => slots(*b),
        None => 0,
    }
}

/// The number of such places in the first `n` trees.
pub open spec fn list_slots(nodes: Seq<Node>, n: int) -> nat
    decreases nodes, 0nat, n,
{
    if n <= 0 || n > nodes.len() {
        0
    } else {
        list_slots(nodes, n - 1) + slots(nodes[n - 1])
    }
}

pub open spec fn window_slots(w: Option<Box<WindowDef>>) -> nat
    decreases w, 0nat, 0int,
{
    match w {
        Some(d) => list_slots(d.partition_clause@, d.partition_clause@.len() as int) + list_slots(
            d.order_clause@,
            d.order_clause@.len() as int,
        ),
        None => 0,
    }
}

pub open spec fn opt_select_slots(s: Option<Box<SelectStmt>>) -> nat
    decreases s, 0nat, 0int,
{
    match s {
        Some(b) => select_slots(*b),
        None => 0,
    }
}

pub open spec fn select_slots(sel: SelectStmt) -> nat
    decreases sel, 1nat, 0int,
{
    opt_select_slots(sel.larg) + opt_select_slots(sel.rarg) + cte_slots(
        sel.ctes@,
        sel.ctes@.len() as int,
    ) + from_slots(sel.from_clause@, sel.from_clause@.len() as int) + clause_slots(sel)
}

pub open spec fn clause_slots(sel: SelectStmt) -> nat
    decreases sel, 0nat, 0int,
{
    list_slots(sel.target_list@, sel.target_list@.len() as int) + opt_slots(sel.where_clause)
        + list_slots(sel.group_clause@, sel.group_clause@.len() as int) + opt_slots(
        sel.having_clause,
    ) + list_slots(sel.sort_clause@, sel.sort_clause@.len() as int) + list_slots(
        sel.distinct_clause@,
        sel.distinct_clause@.len() as int,
    )
}

/// The number of such places in the first `n` common table expressions.
pub open spec fn cte_slots(nodes: Seq<Node>, n: int) -> nat
    decreases nodes, 0nat, n,
{
    if n <= 0 || n > nodes.len() {
        0
    } else {
        cte_slots(nodes, n - 1) + match nodes[n - 1] {
            Node::CommonTableExpr(cte) => opt_slots(cte.ctequery),
            _ => 0,
        }
    }
}

/// The number of such places in the first `n` items of a `FROM` clause.
pub open spec fn from_slots(nodes: Seq<Node>, n: int) -> nat
    decreases nodes, 0nat, n,
{
    if n <= 0 || n > nodes.len() {
        0
    } else {
        from_slots(nodes, n - 1) + item_slots(nodes[n - 1])
    }
}

pub open spec fn item_slots(n: Node) -> nat
    decreases n, 0nat, 0int,
{
    match n {
        Node::RangeVar(_) => 1,
        Node::JoinExpr(j) => opt_item_slots(j.larg) + opt_item_slots(j.rarg) + opt_slots(j.quals),
        Node::RangeSubselect(s) => opt_slots(s.subquery),
        Node::RangeFunction(r) => list_slots(r.functions@, r.functions@.len() as int),
        _ => 0,
    }
}

pub open spec fn opt_item_slots(n: Option<Box<Node>>) -> nat
    decreases n, 0nat, 0int,
{
    match n {
        Some(b) => item_slots(*b),
        None => 0,
    }
}

// ── One binding for each place ──────────────────────────────────────────────

/// A walk through a query gives one binding for each place that is rewritten
/// later.
pub proof fn law_one_binding_for_each_place(n: Node, c: CatalogView, st: Seq<Frame>)
    ensures
        bindings_in(n, c, st).len() == slots(n),
    decreases n, 0nat, 0int,
{
    match n {
        Node::SelectStmt(sel) => {
            lemma_select_places(*sel, c, st);
        },
        Node::AExpr(e) => {
            lemma_opt_places(e.lexpr, c, st);
            lemma_opt_places(e.rexpr, c, st);
        },
        Node::BoolExpr(args) => {
            lemma_list_places(args@, 0, c, st);
        },
        Node::FuncCall(fc) => {
            lemma_list_places(fc.args@, 0, c, st);
            match fc.over {
                Some(w) => {
                    lemma_list_places(w.partition_clause@, 0, c, st);
                    lemma_list_places(w.order_clause@, 0, c, st);
                },
                None => {},
            }
            lemma_opt_places(fc.agg_filter, c, st);
        },
        Node::TypeCast(t) => {
            lemma_opt_places(t.arg, c, st);
        },
        Node::CollateClause(arg) => {
            lemma_opt_places(arg, c, st);
        },
        Node::CoalesceExpr(args) => {
            lemma_list_places(args@, 0, c, st);
        },
        Node::MinMaxExpr(m) => {
            lemma_list_places(m.args@, 0, c, st);
        },
        Node::NullIfExpr(args) => {
            lemma_list_places(args@, 0, c, st);
        },
        Node::CaseExpr(e) => {
            lemma_opt_places(e.arg, c, st);
            lemma_list_places(e.args@, 0, c, st);
            lemma_opt_places(e.defresult, c, st);
        },
        Node::CaseWhen(w) => {
            lemma_opt_places(w.expr, c, st);
            lemma_opt_places(w.result, c, st);
        },
        Node::SubLink(s) => {
            lemma_opt_places(s.testexpr, c, st);
            lemma_opt_places(s.subselect, c, st);
        },
        Node::NullTest(arg) => {
            lemma_opt_places(arg, c, st);
        },
        Node::BooleanTest(arg) => {
            lemma_opt_places(arg, c, st);
        },
        Node::List(items) => {
            lemma_list_places(items@, 0, c, st);
        },
        Node::ArrayExpr(elements) => {
            lemma_list_places(elements@, 0, c, st);
        },
        Node::RowExpr(args) => {
            lemma_list_places(args@, 0, c, st);
        },
        Node::ResTarget(val) => {
            lemma_opt_places(val, c, st);
        },
        Node::SortBy(node) => {
            lemma_opt_places(node, c, st);
        },
        _ => {},
    }
}

proof fn lemma_opt_places(n: Option<Box<Node>>, c: CatalogView, st: Seq<Frame>)
    ensures
        opt_bindings(n, c, st).len() == opt_slots(n),
    decreases n, 0nat, 0int,
{
    match n {
        Some(b) => {
            law_one_binding_for_each_place(*b, c, st);
        },
        None => {},
    }
}

proof fn lemma_list_places(nodes: Seq<Node>, i: int, c: CatalogView, st: Seq<Frame>)
    requires
        0 <= i <= nodes.len(),
    ensures
        list_slots(nodes, i) + list_bindings(nodes, i, c, st).len() == list_slots(
            nodes,
            nodes.len() as int,
        ),
    decreases nodes, 0nat, nodes.len() - i,
{
    if i < nodes.len() {
        law_one_binding_for_each_place(nodes[i], c, st);
        lemma_list_places(nodes, i + 1, c, st);
    }
}

proof fn lemma_opt_select_places(s: Option<Box<SelectStmt>>, c: CatalogView, st: Seq<Frame>)
    ensures
        opt_select_bindings(s, c, st).len() == opt_select_slots(s),
    decreases s, 0nat, 0int,
{
    match s {
        Some(b) => {
            lemma_select_places(*b, c, st);
        },
        None => {},
    }
}

proof fn lemma_select_places(sel: SelectStmt, c: CatalogView, st: Seq<Frame>)
    ensures
        select_bindings(sel, c, st).len() == select_slots(sel),
    decreases sel, 1nat, 0int,
{
    lemma_opt_select_places(sel.larg, c, st);
    lemma_opt_select_places(sel.rarg, c, st);
    lemma_cte_places(sel.ctes@, 0, c, st, Seq::empty());
    let f1 = cte_bindings(sel.ctes@, 0, c, st, Seq::empty()).1;
    lemma_from_places(sel.from_clause@, 0, c, st, f1);
    let f2 = from_bindings(sel.from_clause@, 0, c, st, f1).1;
    lemma_clause_places(sel, c, st.push(f2));
}

proof fn lemma_clause_places(sel: SelectStmt, c: CatalogView, st: Seq<Frame>)
    ensures
        clause_bindings(sel, c, st).len() == clause_slots(sel),
    decreases sel, 0nat, 0int,
{
    lemma_list_places(sel.target_list@, 0, c, st);
    lemma_opt_places(sel.where_clause, c, st);
    lemma_list_places(sel.group_clause@, 0, c, st);
    lemma_opt_places(sel.having_clause, c, st);
    lemma_list_places(sel.sort_clause@, 0, c, st);
    lemma_list_places(sel.distinct_clause@, 0, c, st);
}

proof fn lemma_cte_places(nodes: Seq<Node>, i: int, c: CatalogView, st: Seq<Frame>, f: Frame)
    requires
        0 <= i <= nodes.len(),
    ensures
        cte_slots(nodes, i) + cte_bindings(nodes, i, c, st, f).0.len() == cte_slots(
            nodes,
            nodes.len() as int,
        ),
    decreases nodes, 0nat, nodes.len() - i,
{
    if i < nodes.len() {
        match nodes[i] {
            Node::CommonTableExpr(cte) => {
                lemma_opt_places(cte.ctequery, c, st.push(f));
                let source = super::bindings::FromSourceView {
                    alias: cte.ctename@,
                    relid: None,
                    columns: crate::text::texts(cte.aliascolnames@),
                };
                lemma_cte_places(nodes, i + 1, c, st, f.push(source));
            },
            _ => {
                lemma_cte_places(nodes, i + 1, c, st, f);
            },
        }
    }
}

proof fn lemma_from_places(nodes: Seq<Node>, i: int, c: CatalogView, st: Seq<Frame>, f: Frame)
    requires
        0 <= i <= nodes.len(),
    ensures
        from_slots(nodes, i) + from_bindings(nodes, i, c, st, f).0.len() == from_slots(
            nodes,
            nodes.len() as int,
        ),
    decreases nodes, 0nat, nodes.len() - i,
{
    if i < nodes.len() {
        lemma_item_places(nodes[i], c, st, f);
        lemma_from_places(nodes, i + 1, c, st, item_bindings(nodes[i], c, st, f).1);
    }
}

proof fn lemma_item_places(n: Node, c: CatalogView, st: Seq<Frame>, f: Frame)
    ensures
        item_bindings(n, c, st, f).0.len() == item_slots(n),
    decreases n, 0nat, 0int,
{
    match n {
        Node::JoinExpr(j) => {
            lemma_opt_item_places(j.larg, c, st, f);
            let f1 = opt_item_bindings(j.larg, c, st, f).1;
            lemma_opt_item_places(j.rarg, c, st, f1);
            lemma_opt_places(j.quals, c, st.push(opt_item_bindings(j.rarg, c, st, f1).1));
        },
        Node::RangeSubselect(s) => {
            lemma_opt_places(s.subquery, c, st);
        },
        Node::RangeFunction(r) => {
            lemma_list_places(r.functions@, 0, c, st);
        },
        _ => {},
    }
}

proof fn lemma_opt_item_places(n: Option<Box<Node>>, c: CatalogView, st: Seq<Frame>, f: Frame)
    ensures
        opt_item_bindings(n, c, st, f).0.len() == opt_item_slots(n),
    decreases n, 0nat, 0int,
{
    match n {
        Some(b) => {
            lemma_item_places(*b, c, st, f);
        },
        None => {},
    }
}

// ── What rewriting changes ──────────────────────────────────────────────────

/// The binding of the place with this number; none where the bindings run out.
pub open spec fn binding_at(bs: Seq<AstBinding>, k: int) -> AstBinding {
    if 0 <= k < bs.len() {
        bs[k]
    } else {
        AstBinding::Unresolved
    }
}

/// The current schema and name of a relation.
pub open spec fn current_relation(c: CatalogView, relid: u32) -> Option<(Seq<char>, Seq<char>)> {
    match c.get_class(relid) {
        Some(k) => match c.namespace_name(k.relnamespace) {
            Some(ns) => Some((ns, k.relname)),
            None => None,
        },
        None => None,
    }
}

/// A relation in a `FROM` clause before and after: it gets its current name, and
/// its current schema where one was written.
pub open spec fn range_applied(
    before: RangeVar,
    after: RangeVar,
    b: AstBinding,
    c: CatalogView,
) -> bool {
    match b {
        AstBinding::Relation(relid) => match current_relation(c, relid) {
            Some((ns, name)) => {
                &&& after.alias == before.alias
                &&& after.relname@ == name
                &&& after.schemaname@ == if before.schemaname@.len() == 0 {
                    before.schemaname@
                } else {
                    ns
                }
            },
            None => after == before,
        },
        _ => after == before,
    }
}

/// A part of a name before and after it got another text; only a name gets one.
pub open spec fn part_renamed(before: NamePart, after: NamePart, text: Seq<char>) -> bool {
    if before is Name {
        after matches NamePart::Name(s) && s@ == text
    } else {
        after == before
    }
}

/// The parts of a column reference before and after: the column gets its current
/// name; schema and relation do where all three are written.
pub open spec fn column_applied(
    before: Seq<NamePart>,
    after: Seq<NamePart>,
    b: AstBinding,
    c: CatalogView,
) -> bool {
    match b {
        AstBinding::Column(relid, attnum) => match (
            c.get_class(relid),
            find_attnum(c.attributes_of(relid), attnum),
        ) {
            (Some(k), Some(a)) => {
                &&& after.len() == before.len()
                &&& if before.len() == 1 {
                    part_renamed(before[0], after[0], a.attname)
                } else if before.len() == 2 {
                    after[0] == before[0] && part_renamed(before[1], after[1], a.attname)
                } else if before.len() == 3 && before[0] is Name && before[1] is Name && before[2] is Name {
                    &&& match c.namespace_name(k.relnamespace) {
                        Some(ns) => part_renamed(before[0], after[0], ns),
                        None => after[0] == before[0],
                    }
                    &&& part_renamed(before[1], after[1], k.relname)
                    &&& part_renamed(before[2], after[2], a.attname)
                } else {
                    after == before
                }
            },
            _ => after == before,
        },
        _ => after == before,
    }
}

/// A name before and after its schema, where one is written, is brought up to date.
pub open spec fn schema_applied(
    before: Seq<String>,
    after: Seq<String>,
    ns: Option<Seq<char>>,
) -> bool {
    if before.len() == 2 && ns is Some {
        after.len() == 2 && Some(after[0]@) == ns && after[1] == before[1]
    } else {
        after == before
    }
}

/// The current schema of the function that a binding points to.
pub open spec fn function_schema(b: AstBinding, c: CatalogView) -> Option<Seq<char>> {
    match b {
        AstBinding::Function(oid) => match c.get_proc(oid) {
            Some(p) => c.namespace_name(p.pronamespace),
            None => None,
        },
        _ => None,
    }
}

/// The current schema of the type that a binding points to.
pub open spec fn type_schema(b: AstBinding, c: CatalogView) -> Option<Seq<char>> {
    match b {
        AstBinding::Type(oid) => match c.get_type(oid) {
            Some(t) => c.namespace_name(t.typnamespace),
            None => None,
        },
        _ => None,
    }
}

/// A tree before and after rewriting, where `k` is the number of its first place.
pub open spec fn applied(
    before: Node,
    after: Node,
    bs: Seq<AstBinding>,
    k: int,
    c: CatalogView,
) -> bool
    decreases before, 0nat, 0int,
{
    match (before, after) {
        (Node::SelectStmt(x), Node::SelectStmt(y)) => select_applied(*x, *y, bs, k, c),
        (Node::ColumnRef(x), Node::ColumnRef(y)) => column_applied(
            x.fields@,
            y.fields@,
            binding_at(bs, k),
            c,
        ),
        (Node::AExpr(x), Node::AExpr(y)) => {
            &&& y.kind == x.kind
            &&& y.name == x.name
            &&& opt_applied(x.lexpr, y.lexpr, bs, k, c)
            &&& opt_applied(x.rexpr, y.rexpr, bs, k + opt_slots(x.lexpr), c)
        },
        (Node::BoolExpr(x), Node::BoolExpr(y)) => lists_applied(x@, y@, bs, k, c),
        (Node::FuncCall(x), Node::FuncCall(y)) => {
            let k1 = k + 1 + list_slots(x.args@, x.args@.len() as int);
            &&& y.agg_order == x.agg_order
            &&& y.agg_star == x.agg_star
            &&& schema_applied(
                x.funcname@,
                y.funcname@,
                function_schema(binding_at(bs, k), c),
            )
            &&& lists_applied(x.args@, y.args@, bs, k + 1, c)
            &&& window_applied(x.over, y.over, bs, k1, c)
            &&& opt_applied(x.agg_filter, y.agg_filter, bs, k1 + window_slots(x.over), c)
        },
        (Node::TypeCast(x), Node::TypeCast(y)) => {
            &&& opt_applied(x.arg, y.arg, bs, k, c)
            &&& match (x.target, y.target) {
                (Some(s), Some(t)) => {
                    &&& t.type_oid == s.type_oid
                    &&& t.typmod == s.typmod
                    &&& t.is_array == s.is_array
                    &&& t.setof == s.setof
                    &&& schema_applied(
                        s.names@,
                        t.names@,
                        type_schema(binding_at(bs, k + opt_slots(x.arg)), c),
                    )
                },
                (None, None) => true,
                _ => false,
            }
        },
        (Node::CollateClause(x), Node::CollateClause(y)) => opt_applied(x, y, bs, k, c),
        (Node::CoalesceExpr(x), Node::CoalesceExpr(y)) => lists_applied(x@, y@, bs, k, c),
        (Node::MinMaxExpr(x), Node::MinMaxExpr(y)) => y.minmaxtype == x.minmaxtype && lists_applied(
            x.args@,
            y.args@,
            bs,
            k,
            c,
        ),
        (Node::NullIfExpr(x), Node::NullIfExpr(y)) => lists_applied(x@, y@, bs, k, c),
        (Node::CaseExpr(x), Node::CaseExpr(y)) => {
            let k1 = k + opt_slots(x.arg);
            &&& opt_applied(x.arg, y.arg, bs, k, c)
            &&& lists_applied(x.args@, y.args@, bs, k1, c)
            &&& opt_applied(
                x.defresult,
                y.defresult,
                bs,
                k1 + list_slots(x.args@, x.args@.len() as int),
                c,
            )
        },
        (Node::CaseWhen(x), Node::CaseWhen(y)) => {
            &&& opt_applied(x.expr, y.expr, bs, k, c)
            &&& opt_applied(x.result, y.result, bs, k + opt_slots(x.expr), c)
        },
        (Node::SubLink(x), Node::SubLink(y)) => {
            &&& y.kind == x.kind
            &&& y.analysis == x.analysis
            &&& opt_applied(x.testexpr, y.testexpr, bs, k, c)
            &&& opt_applied(x.subselect, y.subselect, bs, k + opt_slots(x.testexpr), c)
        },
        (Node::NullTest(x), Node::NullTest(y)) => opt_applied(x, y, bs, k, c),
        (Node::BooleanTest(x), Node::BooleanTest(y)) => opt_applied(x, y, bs, k, c),
        (Node::List(x), Node::List(y)) => lists_applied(x@, y@, bs, k, c),
        (Node::ArrayExpr(x), Node::ArrayExpr(y)) => lists_applied(x@, y@, bs, k, c),
        (Node::RowExpr(x), Node::RowExpr(y)) => lists_applied(x@, y@, bs, k, c),
        (Node::ResTarget(x), Node::ResTarget(y)) => opt_applied(x, y, bs, k, c),
        (Node::SortBy(x), Node::SortBy(y)) => opt_applied(x, y, bs, k, c),
        _ => before == after,
    }
}

pub open spec fn opt_applied(
    before: Option<Box<Node>>,
    after: Option<Box<Node>>,
    bs: Seq<AstBinding>,
    k: int,
    c: CatalogView,
) -> bool
    decreases before, 0nat, 0int,
{
    match (before, after) {
        (Some(x), Some(y)) => applied(*x, *y, bs, k, c),
        (None, None) => true,
        _ => false,
    }
}

/// Lists of trees before and after.
pub open spec fn lists_applied(
    before: Seq<Node>,
    after: Seq<Node>,
    bs: Seq<AstBinding>,
    k: int,
    c: CatalogView,
) -> bool
    decreases before, 1nat, 0int,
{
    before.len() == after.len() && list_applied(before, after, before.len() as int, bs, k, c)
}

/// The first `n` trees of two lists before and after.
pub open spec fn list_applied(
    before: Seq<Node>,
    after: Seq<Node>,
    n: int,
    bs: Seq<AstBinding>,
    k: int,
    c: CatalogView,
) -> bool
    decreases before, 0nat, n,
{
    if n <= 0 || n > before.len() {
        true
    } else {
        list_applied(before, after, n - 1, bs, k, c) && applied(
            before[n - 1],
            after[n - 1],
            bs,
            k + list_slots(before, n - 1),
            c,
        )
    }
}

pub open spec fn window_applied(
    before: Option<Box<WindowDef>>,
    after: Option<Box<WindowDef>>,
    bs: Seq<AstBinding>,
    k: int,
    c: CatalogView,
) -> bool
    decreases before, 0nat, 0int,
{
    match (before, after) {
        (Some(x), Some(y)) => {
            &&& y.start_offset == x.start_offset
            &&& y.end_offset == x.end_offset
            &&& lists_applied(x.partition_clause@, y.partition_clause@, bs, k, c)
            &&& lists_applied(
                x.order_clause@,
                y.order_clause@,
                bs,
                k + list_slots(x.partition_clause@, x.partition_clause@.len() as int),
                c,
            )
        },
        (None, None) => true,
        _ => false,
    }
}

pub open spec fn opt_select_applied(
    before: Option<Box<SelectStmt>>,
    after: Option<Box<SelectStmt>>,
    bs: Seq<AstBinding>,
    k: int,
    c: CatalogView,
) -> bool
    decreases before, 0nat, 0int,
{
    match (before, after) {
        (Some(x), Some(y)) => select_applied(*x, *y, bs, k, c),
        (None, None) => true,
        _ => false,
    }
}

/// A query before and after.
pub open spec fn select_applied(
    x: SelectStmt,
    y: SelectStmt,
    bs: Seq<AstBinding>,
    k: int,
    c: CatalogView,
) -> bool
    decreases x, 1nat, 0int,
{
    let k1 = k + opt_select_slots(x.larg);
    let k2 = k1 + opt_select_slots(x.rarg);
    let k3 = k2 + cte_slots(x.ctes@, x.ctes@.len() as int);
    let k4 = k3 + from_slots(x.from_clause@, x.from_clause@.len() as int);
    &&& opt_select_applied(x.larg, y.larg, bs, k, c)
    &&& opt_select_applied(x.rarg, y.rarg, bs, k1, c)
    &&& y.ctes@.len() == x.ctes@.len()
    &&& ctes_applied(x.ctes@, y.ctes@, x.ctes@.len() as int, bs, k2, c)
    &&& y.from_clause@.len() == x.from_clause@.len()
    &&& from_applied(x.from_clause@, y.from_clause@, x.from_clause@.len() as int, bs, k3, c)
    &&& clauses_applied(x, y, bs, k4, c)
}

/// The clauses of a query that see its sources, before and after.
pub open spec fn clauses_applied(
    x: SelectStmt,
    y: SelectStmt,
    bs: Seq<AstBinding>,
    k: int,
    c: CatalogView,
) -> bool
    decreases x, 0nat, 0int,
{
    let k1 = k + list_slots(x.target_list@, x.target_list@.len() as int);
    let k2 = k1 + opt_slots(x.where_clause);
    let k3 = k2 + list_slots(x.group_clause@, x.group_clause@.len() as int);
    let k4 = k3 + opt_slots(x.having_clause);
    let k5 = k4 + list_slots(x.sort_clause@, x.sort_clause@.len() as int);
    &&& lists_applied(x.target_list@, y.target_list@, bs, k, c)
    &&& opt_applied(x.where_clause, y.where_clause, bs, k1, c)
    &&& lists_applied(x.group_clause@, y.group_clause@, bs, k2, c)
    &&& opt_applied(x.having_clause, y.having_clause, bs, k3, c)
    &&& lists_applied(x.sort_clause@, y.sort_clause@, bs, k4, c)
    &&& lists_applied(x.distinct_clause@, y.distinct_clause@, bs, k5, c)
}

/// The first `n` common table expressions before and after.
pub open spec fn ctes_applied(
    before: Seq<Node>,
    after: Seq<Node>,
    n: int,
    bs: Seq<AstBinding>,
    k: int,
    c: CatalogView,
) -> bool
    decreases before, 0nat, n,
{
    if n <= 0 || n > before.len() {
        true
    } else {
        ctes_applied(before, after, n - 1, bs, k, c) && match (before[n - 1], after[n - 1]) {
            (Node::CommonTableExpr(x), Node::CommonTableExpr(y)) => {
                &&& y.ctename == x.ctename
                &&& y.aliascolnames == x.aliascolnames
                &&& opt_applied(x.ctequery, y.ctequery, bs, k + cte_slots(before, n - 1), c)
            },
            _ => after[n - 1] == before[n - 1],
        }
    }
}

/// The first `n` items of a `FROM` clause before and after.
pub open spec fn from_applied(
    before: Seq<Node>,
    after: Seq<Node>,
    n: int,
    bs: Seq<AstBinding>,
    k: int,
    c: CatalogView,
) -> bool
    decreases before, 0nat, n,
{
    if n <= 0 || n > before.len() {
        true
    } else {
        from_applied(before, after, n - 1, bs, k, c) && item_applied(
            before[n - 1],
            after[n - 1],
            bs,
            k + from_slots(before, n - 1),
            c,
        )
    }
}

/// An item of a `FROM` clause before and after.
pub open spec fn item_applied(
    before: Node,
    after: Node,
    bs: Seq<AstBinding>,
    k: int,
    c: CatalogView,
) -> bool
    decreases before, 0nat, 0int,
{
    match (before, after) {
        (Node::RangeVar(x), Node::RangeVar(y)) => range_applied(x, y, binding_at(bs, k), c),
        (Node::JoinExpr(x), Node::JoinExpr(y)) => {
            let k1 = k + opt_item_slots(x.larg);
            &&& opt_item_applied(x.larg, y.larg, bs, k, c)
            &&& opt_item_applied(x.rarg, y.rarg, bs, k1, c)
            &&& opt_applied(x.quals, y.quals, bs, k1 + opt_item_slots(x.rarg), c)
        },
        (Node::RangeSubselect(x), Node::RangeSubselect(y)) => y.alias == x.alias && opt_applied(
            x.subquery,
            y.subquery,
            bs,
            k,
            c,
        ),
        (Node::RangeFunction(x), Node::RangeFunction(y)) => y.alias == x.alias && lists_applied(
            x.functions@,
            y.functions@,
            bs,
            k,
            c,
        ),
        _ => before == after,
    }
}

pub open spec fn opt_item_applied(
    before: Option<Box<Node>>,
    after: Option<Box<Node>>,
    bs: Seq<AstBinding>,
    k: int,
    c: CatalogView,
) -> bool
    decreases before, 0nat, 0int,
{
    match (before, after) {
        (Some(x), Some(y)) => item_applied(*x, *y, bs, k, c),
        (None, None) => true,
        _ => false,
    }
}

// ── What is rewritten does not depend on what comes later ───────────────────

proof fn lemma_list_applied_frame(
    before: Seq<Node>,
    a: Seq<Node>,
    b: Seq<Node>,
    n: int,
    bs: Seq<AstBinding>,
    k: int,
    c: CatalogView,
)
    requires
        n <= before.len(),
        list_applied(before, a, n, bs, k, c),
        forall|i: int| 0 <= i < n ==> a[i] == b[i],
    ensures
        list_applied(before, b, n, bs, k, c),
    decreases n,
{
    if n > 0 {
        lemma_list_applied_frame(before, a, b, n - 1, bs, k, c);
    }
}

proof fn lemma_ctes_applied_frame(
    before: Seq<Node>,
    a: Seq<Node>,
    b: Seq<Node>,
    n: int,
    bs: Seq<AstBinding>,
    k: int,
    c: CatalogView,
)
    requires
        n <= before.len(),
        ctes_applied(before, a, n, bs, k, c),
        forall|i: int| 0 <= i < n ==> a[i] == b[i],
    ensures
        ctes_applied(before, b, n, bs, k, c),
    decreases n,
{
    if n > 0 {
        lemma_ctes_applied_frame(before, a, b, n - 1, bs, k, c);
    }
}

proof fn lemma_from_applied_frame(
    before: Seq<Node>,
    a: Seq<Node>,
    b: Seq<Node>,
    n: int,
    bs: Seq<AstBinding>,
    k: int,
    c: CatalogView,
)
    requires
        n <= before.len(),
        from_applied(before, a, n, bs, k, c),
        forall|i: int| 0 <= i < n ==> a[i] == b[i],
    ensures
        from_applied(before, b, n, bs, k, c),
    decreases n,
{
    if n > 0 {
        lemma_from_applied_frame(before, a, b, n - 1, bs, k, c);
    }
}

proof fn lemma_list_slots_grow(nodes: Seq<Node>, n: int, m: int)
    requires
        0 <= n <= m <= nodes.len(),
    ensures
        list_slots(nodes, n) <= list_slots(nodes, m),
    decreases m,
{
    if n < m {
        lemma_list_slots_grow(nodes, n, m - 1);
    }
}

proof fn lemma_cte_slots_grow(nodes: Seq<Node>, n: int, m: int)
    requires
        0 <= n <= m <= nodes.len(),
    ensures
        cte_slots(nodes, n) <= cte_slots(nodes, m),
    decreases m,
{
    if n < m {
        lemma_cte_slots_grow(nodes, n, m - 1);
    }
}

proof fn lemma_from_slots_grow(nodes: Seq<Node>, n: int, m: int)
    requires
        0 <= n <= m <= nodes.len(),
    ensures
        from_slots(nodes, n) <= from_slots(nodes, m),
    decreases m,
{
    if n < m {
        lemma_from_slots_grow(nodes, n, m - 1);
    }
}

// ── Carried out ─────────────────────────────────────────────────────────────

/// The bindings, and how many of them have been used.
struct ViewApplier<'a> {
    bindings: &'a Vec<AstBinding>,
    cursor: usize,
    snapshot: &'a PgCatalog,
}

impl<'a> ViewApplier<'a> {
    /// Whether a walk has taken `n` bindings, and nothing else has changed.
    spec fn moved(self, before: ViewApplier<'a>, n: nat) -> bool {
        &&& self.bindings == before.bindings
        &&& self.snapshot == before.snapshot
        &&& self.cursor == before.cursor + n
    }

    fn pop(&mut self) -> (r: AstBinding)
        requires
            old(self).cursor < usize::MAX,
        ensures
            r == binding_at(old(self).bindings@, old(self).cursor as int),
            final(self).moved(*old(self), 1),
    {
        let r: AstBinding = if self.cursor < self.bindings.len() {
            self.bindings[self.cursor]
        } else {
            AstBinding::Unresolved
        };
        self.cursor = self.cursor + 1;
        r
    }

    fn apply_range_var(&self, rv: &mut RangeVar, b: AstBinding)
        ensures
            range_applied(*old(rv), *final(rv), b, self.snapshot@),
    {
        match b {
            AstBinding::Relation(relid) => match self.snapshot.get_class(relid) {
                Some(k) => match self.snapshot.namespace_name(k.relnamespace) {
                    Some(ns) => {
                        if !rv.schemaname.as_str().is_empty() {
                            rv.schemaname = ns.to_owned();
                        }
                        rv.relname = k.relname.clone();
                    },
                    None => {},
                },
                None => {},
            },
            _ => {},
        }
    }

    fn rename_part(p: &mut NamePart, text: &str)
        ensures
            part_renamed(*old(p), *final(p), text@),
    {
        match p {
            NamePart::Name(s) => {
                *s = text.to_owned();
            },
            _ => {},
        }
    }

    fn apply_column_ref(&self, cr: &mut ColumnRef, b: AstBinding)
        ensures
            column_applied(old(cr).fields@, final(cr).fields@, b, self.snapshot@),
    {
        let (relid, attnum): (u32, i16) = match b {
            AstBinding::Column(relid, attnum) => (relid, attnum),
            _ => return ,
        };
        let attrs: Vec<PgAttribute> = self.snapshot.attributes_of(relid);
        match (self.snapshot.get_class(relid), attribute_numbered(&attrs, attnum)) {
            (Some(k), Some(a)) => {
                if cr.fields.len() == 1 {
                    Self::rename_part(&mut cr.fields[0], a.attname.as_str());
                } else if cr.fields.len() == 2 {
                    Self::rename_part(&mut cr.fields[1], a.attname.as_str());
                } else if cr.fields.len() == 3 && is_name(&cr.fields[0]) && is_name(&cr.fields[1])
                    && is_name(&cr.fields[2]) {
                    match self.snapshot.namespace_name(k.relnamespace) {
                        Some(ns) => Self::rename_part(&mut cr.fields[0], ns),
                        None => {},
                    }
                    Self::rename_part(&mut cr.fields[1], k.relname.as_str());
                    Self::rename_part(&mut cr.fields[2], a.attname.as_str());
                }
            },
            _ => {},
        }
    }

    fn apply_func_name(&self, funcname: &mut Vec<String>, b: AstBinding)
        ensures
            schema_applied(
                old(funcname)@,
                final(funcname)@,
                function_schema(b, self.snapshot@),
            ),
    {
        match b {
            AstBinding::Function(oid) => match self.snapshot.pg_proc.get(oid) {
                Some(p) => apply_schema(funcname, self.snapshot.namespace_name(p.pronamespace)),
                None => {},
            },
            _ => {},
        }
    }

    fn apply_type_name(&self, names: &mut Vec<String>, b: AstBinding)
        ensures
            schema_applied(old(names)@, final(names)@, type_schema(b, self.snapshot@)),
    {
        match b {
            AstBinding::Type(oid) => match self.snapshot.get_type(oid) {
                Some(t) => apply_schema(names, self.snapshot.namespace_name(t.typnamespace)),
                None => {},
            },
            _ => {},
        }
    }

    fn walk_node(&mut self, node: &mut Node)
        requires
            old(self).cursor + slots(*old(node)) < usize::MAX,
        ensures
            applied(
                *old(node),
                *final(node),
                old(self).bindings@,
                old(self).cursor as int,
                old(self).snapshot@,
            ),
            final(self).moved(*old(self), slots(*old(node))),
        decreases *old(node), 0nat,
    {
        match node {
            Node::SelectStmt(sel) => self.walk_select(sel),
            Node::ColumnRef(cr) => {
                let b: AstBinding = self.pop();
                self.apply_column_ref(cr, b);
            },
            Node::AExpr(e) => {
                self.walk_opt(&mut e.lexpr);
                self.walk_opt(&mut e.rexpr);
            },
            Node::BoolExpr(args) => self.walk_list(args),
            Node::FuncCall(fc) => {
                let b: AstBinding = self.pop();
                self.apply_func_name(&mut fc.funcname, b);
                self.walk_list(&mut fc.args);
                self.walk_window(&mut fc.over);
                self.walk_opt(&mut fc.agg_filter);
            },
            Node::TypeCast(t) => {
                self.walk_opt(&mut t.arg);
                match &mut t.target {
                    Some(tn) => {
                        let b: AstBinding = self.pop();
                        self.apply_type_name(&mut tn.names, b);
                    },
                    None => {},
                }
            },
            Node::CollateClause(arg) => self.walk_opt(arg),
            Node::CoalesceExpr(args) => self.walk_list(args),
            Node::MinMaxExpr(m) => self.walk_list(&mut m.args),
            Node::NullIfExpr(args) => self.walk_list(args),
            Node::CaseExpr(e) => {
                self.walk_opt(&mut e.arg);
                self.walk_list(&mut e.args);
                self.walk_opt(&mut e.defresult);
            },
            Node::CaseWhen(w) => {
                self.walk_opt(&mut w.expr);
                self.walk_opt(&mut w.result);
            },
            Node::SubLink(s) => {
                self.walk_opt(&mut s.testexpr);
                self.walk_opt(&mut s.subselect);
            },
            Node::NullTest(arg) => self.walk_opt(arg),
            Node::BooleanTest(arg) => self.walk_opt(arg),
            Node::List(items) => self.walk_list(items),
            Node::ArrayExpr(elements) => self.walk_list(elements),
            Node::RowExpr(args) => self.walk_list(args),
            Node::ResTarget(val) => self.walk_opt(val),
            Node::SortBy(n) => self.walk_opt(n),
            _ => {},
        }
    }

    fn walk_opt(&mut self, node: &mut Option<Box<Node>>)
        requires
            old(self).cursor + opt_slots(*old(node)) < usize::MAX,
        ensures
            opt_applied(
                *old(node),
                *final(node),
                old(self).bindings@,
                old(self).cursor as int,
                old(self).snapshot@,
            ),
            final(self).moved(*old(self), opt_slots(*old(node))),
        decreases *old(node), 0nat,
    {
        match node {
            Some(b) => self.walk_node(b),
            None => {},
        }
    }

    fn walk_list(&mut self, nodes: &mut Vec<Node>)
        requires
            old(self).cursor + list_slots(old(nodes)@, old(nodes)@.len() as int) < usize::MAX,
        ensures
            lists_applied(
                old(nodes)@,
                final(nodes)@,
                old(self).bindings@,
                old(self).cursor as int,
                old(self).snapshot@,
            ),
            final(self).moved(*old(self), list_slots(old(nodes)@, old(nodes)@.len() as int)),
        decreases *old(nodes), 0nat,
    {
        let ghost before = nodes@;
        let ghost k = self.cursor as int;
        let ghost bs = self.bindings@;
        let ghost c = self.snapshot@;
        let mut i: usize = 0;
        while i < nodes.len()
            invariant
                before == old(nodes)@,
                k == old(self).cursor,
                bs == old(self).bindings@,
                c == old(self).snapshot@,
                i <= nodes@.len() == before.len(),
                k + list_slots(before, before.len() as int) < usize::MAX,
                forall|j: int| i <= j < before.len() ==> nodes@[j] == before[j],
                list_applied(before, nodes@, i as int, bs, k, c),
                self.moved(*old(self), list_slots(before, i as int)),
            decreases nodes.len() - i,
        {
            proof {
                assert(decreases_to!(*old(nodes) => old(nodes)@[i as int]));
                lemma_list_slots_grow(before, i + 1, before.len() as int);
            }
            let ghost mid = nodes@;
            self.walk_node(&mut nodes[i]);
            proof {
                lemma_list_applied_frame(before, mid, nodes@, i as int, bs, k, c);
            }
            i = i + 1;
        }
    }

    fn walk_window(&mut self, w: &mut Option<Box<WindowDef>>)
        requires
            old(self).cursor + window_slots(*old(w)) < usize::MAX,
        ensures
            window_applied(
                *old(w),
                *final(w),
                old(self).bindings@,
                old(self).cursor as int,
                old(self).snapshot@,
            ),
            final(self).moved(*old(self), window_slots(*old(w))),
        decreases *old(w), 0nat,
    {
        match w {
            Some(d) => {
                self.walk_list(&mut d.partition_clause);
                self.walk_list(&mut d.order_clause);
            },
            None => {},
        }
    }

    fn walk_opt_select(&mut self, sel: &mut Option<Box<SelectStmt>>)
        requires
            old(self).cursor + opt_select_slots(*old(sel)) < usize::MAX,
        ensures
            opt_select_applied(
                *old(sel),
                *final(sel),
                old(self).bindings@,
                old(self).cursor as int,
                old(self).snapshot@,
            ),
            final(self).moved(*old(self), opt_select_slots(*old(sel))),
        decreases *old(sel), 0nat,
    {
        match sel {
            Some(b) => self.walk_select(b),
            None => {},
        }
    }

    fn walk_select(&mut self, sel: &mut SelectStmt)
        requires
            old(self).cursor + select_slots(*old(sel)) < usize::MAX,
        ensures
            select_applied(
                *old(sel),
                *final(sel),
                old(self).bindings@,
                old(self).cursor as int,
                old(self).snapshot@,
            ),
            final(self).moved(*old(self), select_slots(*old(sel))),
        decreases *old(sel), 1nat,
    {
        self.walk_opt_select(&mut sel.larg);
        self.walk_opt_select(&mut sel.rarg);
        self.walk_ctes(&mut sel.ctes);
        self.walk_from(&mut sel.from_clause);
        self.walk_list(&mut sel.target_list);
        self.walk_opt(&mut sel.where_clause);
        self.walk_list(&mut sel.group_clause);
        self.walk_opt(&mut sel.having_clause);
        self.walk_list(&mut sel.sort_clause);
        self.walk_list(&mut sel.distinct_clause);
    }

    fn walk_ctes(&mut self, nodes: &mut Vec<Node>)
        requires
            old(self).cursor + cte_slots(old(nodes)@, old(nodes)@.len() as int) < usize::MAX,
        ensures
            final(nodes)@.len() == old(nodes)@.len(),
            ctes_applied(
                old(nodes)@,
                final(nodes)@,
                old(nodes)@.len() as int,
                old(self).bindings@,
                old(self).cursor as int,
                old(self).snapshot@,
            ),
            final(self).moved(*old(self), cte_slots(old(nodes)@, old(nodes)@.len() as int)),
        decreases *old(nodes), 0nat,
    {
        let ghost before = nodes@;
        let ghost k = self.cursor as int;
        let ghost bs = self.bindings@;
        let ghost c = self.snapshot@;
        let mut i: usize = 0;
        while i < nodes.len()
            invariant
                before == old(nodes)@,
                k == old(self).cursor,
                bs == old(self).bindings@,
                c == old(self).snapshot@,
                i <= nodes@.len() == before.len(),
                k + cte_slots(before, before.len() as int) < usize::MAX,
                forall|j: int| i <= j < before.len() ==> nodes@[j] == before[j],
                ctes_applied(before, nodes@, i as int, bs, k, c),
                self.moved(*old(self), cte_slots(before, i as int)),
            decreases nodes.len() - i,
        {
            proof {
                assert(decreases_to!(*old(nodes) => old(nodes)@[i as int]));
                lemma_cte_slots_grow(before, i + 1, before.len() as int);
            }
            let ghost mid = nodes@;
            match &mut nodes[i] {
                Node::CommonTableExpr(cte) => self.walk_opt(&mut cte.ctequery),
                _ => {},
            }
            proof {
                lemma_ctes_applied_frame(before, mid, nodes@, i as int, bs, k, c);
            }
            i = i + 1;
        }
    }

    fn walk_from(&mut self, nodes: &mut Vec<Node>)
        requires
            old(self).cursor + from_slots(old(nodes)@, old(nodes)@.len() as int) < usize::MAX,
        ensures
            final(nodes)@.len() == old(nodes)@.len(),
            from_applied(
                old(nodes)@,
                final(nodes)@,
                old(nodes)@.len() as int,
                old(self).bindings@,
                old(self).cursor as int,
                old(self).snapshot@,
            ),
            final(self).moved(*old(self), from_slots(old(nodes)@, old(nodes)@.len() as int)),
        decreases *old(nodes), 0nat,
    {
        let ghost before = nodes@;
        let ghost k = self.cursor as int;
        let ghost bs = self.bindings@;
        let ghost c = self.snapshot@;
        let mut i: usize = 0;
        while i < nodes.len()
            invariant
                before == old(nodes)@,
                k == old(self).cursor,
                bs == old(self).bindings@,
                c == old(self).snapshot@,
                i <= nodes@.len() == before.len(),
                k + from_slots(before, before.len() as int) < usize::MAX,
                forall|j: int| i <= j < before.len() ==> nodes@[j] == before[j],
                from_applied(before, nodes@, i as int, bs, k, c),
                self.moved(*old(self), from_slots(before, i as int)),
            decreases nodes.len() - i,
        {
            proof {
                assert(decreases_to!(*old(nodes) => old(nodes)@[i as int]));
                lemma_from_slots_grow(before, i + 1, before.len() as int);
            }
            let ghost mid = nodes@;
            self.process_from_item(&mut nodes[i]);
            proof {
                lemma_from_applied_frame(before, mid, nodes@, i as int, bs, k, c);
            }
            i = i + 1;
        }
    }

    fn process_from_item(&mut self, node: &mut Node)
        requires
            old(self).cursor + item_slots(*old(node)) < usize::MAX,
        ensures
            item_applied(
                *old(node),
                *final(node),
                old(self).bindings@,
                old(self).cursor as int,
                old(self).snapshot@,
            ),
            final(self).moved(*old(self), item_slots(*old(node))),
        decreases *old(node), 0nat,
    {
        match node {
            Node::RangeVar(rv) => {
                let b: AstBinding = self.pop();
                self.apply_range_var(rv, b);
            },
            Node::JoinExpr(j) => {
                self.process_opt_item(&mut j.larg);
                self.process_opt_item(&mut j.rarg);
                self.walk_opt(&mut j.quals);
            },
            Node::RangeSubselect(s) => self.walk_opt(&mut s.subquery),
            Node::RangeFunction(r) => self.walk_list(&mut r.functions),
            _ => {},
        }
    }

    fn process_opt_item(&mut self, node: &mut Option<Box<Node>>)
        requires
            old(self).cursor + opt_item_slots(*old(node)) < usize::MAX,
        ensures
            opt_item_applied(
                *old(node),
                *final(node),
                old(self).bindings@,
                old(self).cursor as int,
                old(self).snapshot@,
            ),
            final(self).moved(*old(self), opt_item_slots(*old(node))),
        decreases *old(node), 0nat,
    {
        match node {
            Some(b) => self.process_from_item(b),
            None => {},
        }
    }
}

fn is_name(p: &NamePart) -> (r: bool)
    ensures
        r == (p is Name),
{
    match p {
        NamePart::Name(_) => true,
        _ => false,
    }
}

fn apply_schema(names: &mut Vec<String>, ns: Option<&str>)
    ensures
        schema_applied(old(names)@, final(names)@, opt_str(ns)),
{
    match ns {
        Some(s) => {
            if names.len() == 2 {
                names[0] = s.to_owned();
            }
        },
        None => {},
    }
}

/// Gives each name in a stored query the name that its object has by now.
pub fn apply_view_bindings(ast: &mut Node, bindings: &Vec<AstBinding>, snapshot: &PgCatalog)
    requires
        slots(*old(ast)) < usize::MAX,
    ensures
        applied(*old(ast), *final(ast), bindings@, 0, snapshot@),
{
    let mut applier: ViewApplier<'_> = ViewApplier { bindings, cursor: 0, snapshot };
    applier.walk_node(ast);
}

} // verus!
