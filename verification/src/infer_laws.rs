//! What inference never loses, and what it says of null.

use crate::ast::{
    AExpr, AExprKind, AIndices, AIndirection, CaseExpr, FuncCall, Node, ParamEvent, SubLink,
    TypeCast, WindowDef, qualified,
};
use crate::catalog::CatalogView;
use crate::error::AnalyzeErrorView;
use crate::expr::{
    EnvView, TypeGoal, TypeSlot, a_expr_outcome, all_nullable, any_outcome, array_outcome, as_text,
    assignment_goal, backfilled_from, bare_env, branch_type, branches_backfilled, branches_from,
    call_nullable, call_outcome, case_outcome, cast_outcome, checked, coalesce_outcome,
    collate_outcome, compared_rows, distinct_outcome, expr_outcome, field_outcome,
    free_operands_outcome, goal_from, implicit_goal, indirection_outcome, leading_fields,
    leading_steps, lemma_compared_rows, list_outcome, loose_types_from, members_outcome,
    modifiers_visited, no_goal, node_of, node_outcome, nullif_outcome, operands_outcome,
    operator_outcome, opt_outcome, params_after, record_from, reread, row_goal, rows_backfilled,
    rows_outcome, slot_types, slots_from, steps_from, sublink_outcome, subscript_outcome, texted,
    type_or_unknown, typed_from, value_window, visited_from, visited_opt, window_visited,
    written_type,
};
use crate::expr_type::{ExprTypeView, RecordFieldView};
use crate::functions::{nullable_though_strict, resolve, ResolvedFunctionView};
use crate::nullability::NullabilityView;
use crate::param_collector::{
    ParamEntry, ascending, entry_of, entry_put, law_put_changes_one_entry, lemma_entry_number,
    param_inferred, param_recorded, param_seen, param_type,
};
use crate::pg_catalog::{BOOL, INT4, UNKNOWN};
use crate::text::{decimal_text, joined, texts};
use vstd::prelude::*;

verus! {

/// What is known of a parameter later holds all that was known before: it still
/// occurs, its type stays, and so does what the author of the query wrote.
pub open spec fn keeps(before: ParamEntry, after: ParamEntry) -> bool {
    &&& before.seen ==> after.seen
    &&& before.type_oid is Some ==> after.type_oid == before.type_oid
    &&& before.explicit ==> after.explicit && after.nullable == before.nullable
    &&& before.nullable is Some ==> after.nullable is Some
}

/// Nothing that was known of any parameter has been lost.
#[verifier::opaque]
pub open spec fn learned(before: Seq<ParamEntry>, after: Seq<ParamEntry>) -> bool {
    ascending(before) ==> ascending(after) && forall|n: i32|
        keeps(entry_of(before, n), #[trigger] entry_of(after, n))
}

broadcast proof fn lemma_learned_nothing(ps: Seq<ParamEntry>)
    ensures
        #[trigger] learned(ps, ps),
{
    reveal(learned);
}

broadcast proof fn lemma_learned_more(
    a: Seq<ParamEntry>,
    b: Seq<ParamEntry>,
    c: Seq<ParamEntry>,
)
    requires
        #[trigger] learned(a, b),
        #[trigger] learned(b, c),
    ensures
        learned(a, c),
{
    reveal(learned);
    if ascending(a) {
        assert forall|n: i32| keeps(entry_of(a, n), #[trigger] entry_of(c, n)) by {
            assert(keeps(entry_of(a, n), entry_of(b, n)));
            assert(keeps(entry_of(b, n), entry_of(c, n)));
        }
    }
}

broadcast group group_learned {
    lemma_learned_nothing,
    lemma_learned_more,
}

proof fn lemma_put(ps: Seq<ParamEntry>, e: ParamEntry)
    requires
        ascending(ps) ==> keeps(entry_of(ps, e.num), e),
    ensures
        learned(ps, entry_put(ps, e)),
{
    reveal(learned);
    if ascending(ps) {
        law_put_changes_one_entry(ps, e, e.num);
        assert forall|n: i32| keeps(entry_of(ps, n), #[trigger] entry_of(entry_put(ps, e), n)) by {
            law_put_changes_one_entry(ps, e, n);
        }
    }
}

proof fn lemma_seen(ps: Seq<ParamEntry>, num: i32)
    ensures
        learned(ps, param_seen(ps, num)),
{
    lemma_entry_number(ps, num);
    lemma_put(ps, ParamEntry { seen: true, ..entry_of(ps, num) });
}

proof fn lemma_recorded(ps: Seq<ParamEntry>, num: i32, type_oid: u32)
    ensures
        learned(ps, param_recorded(ps, num, type_oid)),
{
    lemma_entry_number(ps, num);
    let e = entry_of(ps, num);
    lemma_put(
        ps,
        ParamEntry {
            seen: true,
            type_oid: if e.type_oid is None && type_oid != UNKNOWN {
                Some(type_oid)
            } else {
                e.type_oid
            },
            ..e
        },
    );
}

proof fn lemma_inferred(ps: Seq<ParamEntry>, num: i32, nullable: bool)
    ensures
        learned(ps, param_inferred(ps, num, nullable)),
{
    broadcast use group_learned;

    lemma_entry_number(ps, num);
    let e = entry_of(ps, num);
    if !e.explicit {
        lemma_put(ps, ParamEntry { nullable: Some(nullable), ..e });
    }
}

proof fn lemma_params_after(ps: Seq<ParamEntry>, events: Seq<ParamEvent>)
    ensures
        learned(ps, params_after(ps, events)),
    decreases events.len(),
{
    broadcast use group_learned;

    if events.len() > 0 {
        let before = params_after(ps, events.drop_last());
        lemma_params_after(ps, events.drop_last());
        match events.last() {
            ParamEvent::Seen { number } => lemma_seen(before, number),
            ParamEvent::Typed { number, type_oid } => lemma_recorded(before, number, type_oid),
            ParamEvent::Nullable { number, nullable } => lemma_inferred(before, number, nullable),
        }
    }
}

proof fn lemma_sublink(sub: SubLink, c: CatalogView, ps: Seq<ParamEntry>)
    ensures
        learned(ps, sublink_outcome(sub, c, ps).1),
{
    broadcast use group_learned;

    lemma_params_after(ps, sub.analysis.params@);
}

proof fn lemma_expr(n: Node, env: EnvView, ps: Seq<ParamEntry>, goal: TypeGoal)
    ensures
        learned(ps, expr_outcome(n, env, ps, goal).1),
    decreases n, 2nat, 0int,
{
    broadcast use group_learned;

    match n {
        Node::Empty => {},
        Node::CollateClause(arg) => lemma_collate(arg, env, ps, goal),
        Node::RowExpr(args) => match row_goal(env.cat, args@.len(), goal) {
            Some((oid, types)) => lemma_typed(args@, 0, types, env, ps),
            None => lemma_record(args@, 0, Seq::empty(), env, ps),
        },
        _ => lemma_node(n, env, ps, goal),
    }
}

proof fn lemma_typed(
    nodes: Seq<Node>,
    i: int,
    types: Seq<u32>,
    env: EnvView,
    ps: Seq<ParamEntry>,
)
    ensures
        learned(ps, typed_from(nodes, i, types, env, ps).1),
    decreases nodes, 0nat, nodes.len() - i,
{
    broadcast use group_learned;

    if 0 <= i < nodes.len() {
        let (r, p) = expr_outcome(nodes[i], env, ps, assignment_goal(types[i]));
        lemma_expr(nodes[i], env, ps, assignment_goal(types[i]));
        if r is Ok {
            lemma_typed(nodes, i + 1, types, env, p);
        }
    }
}

proof fn lemma_record(
    nodes: Seq<Node>,
    i: int,
    acc: Seq<RecordFieldView>,
    env: EnvView,
    ps: Seq<ParamEntry>,
)
    ensures
        learned(ps, record_from(nodes, i, acc, env, ps).1),
    decreases nodes, 0nat, nodes.len() - i,
{
    broadcast use group_learned;

    if 0 <= i < nodes.len() {
        let (r, p) = expr_outcome(nodes[i], env, ps, no_goal());
        lemma_expr(nodes[i], env, ps, no_goal());
        if let Ok(ty) = r {
            let field = RecordFieldView { name: "f"@ + decimal_text((i + 1) as nat), ty };
            lemma_record(nodes, i + 1, acc.push(field), env, p);
        }
    }
}

proof fn lemma_collate(
    arg: Option<Box<Node>>,
    env: EnvView,
    ps: Seq<ParamEntry>,
    goal: TypeGoal,
)
    ensures
        learned(ps, collate_outcome(arg, env, ps, goal).1),
    decreases arg, 2nat, 0int,
{
    broadcast use group_learned;

    if let Some(b) = arg {
        lemma_expr(*b, env, ps, goal);
    }
}

proof fn lemma_node(n: Node, env: EnvView, ps: Seq<ParamEntry>, goal: TypeGoal)
    ensures
        learned(ps, node_outcome(n, env, ps, goal).1),
    decreases n, 1nat, 0int,
{
    broadcast use group_learned;

    match n {
        Node::TypeCast(cast) => lemma_cast(*cast, env, ps),
        Node::FuncCall(func) => lemma_call(*func, env, ps),
        Node::AExpr(e) => lemma_a_expr(*e, env, ps),
        Node::BoolExpr(args) => {
            lemma_slots(args@, 0, Seq::empty(), env, ps, assignment_goal(BOOL));
        },
        Node::CoalesceExpr(args) => lemma_coalesce(args@, env, ps),
        Node::CaseExpr(e) => lemma_case(*e, env, ps),
        Node::SubLink(sub) => lemma_sublink(*sub, env.cat, ps),
        Node::ParamRef(num) => {
            lemma_seen(ps, num);
            lemma_recorded(param_seen(ps, num), num, goal.type_oid);
        },
        Node::MinMaxExpr(mm) => lemma_slots(mm.args@, 0, Seq::empty(), env, ps, no_goal()),
        Node::AIndirection(ind) => lemma_indirection(*ind, env, ps),
        Node::AArrayExpr(elements) => lemma_array(elements@, env, ps),
        _ => {},
    }
}

proof fn lemma_slots(
    nodes: Seq<Node>,
    i: int,
    acc: Seq<TypeSlot>,
    env: EnvView,
    ps: Seq<ParamEntry>,
    goal: TypeGoal,
)
    ensures
        learned(ps, slots_from(nodes, i, acc, env, ps, goal).1),
    decreases nodes, 0nat, nodes.len() - i,
{
    broadcast use group_learned;

    if 0 <= i < nodes.len() {
        let (r, p) = expr_outcome(nodes[i], env, ps, goal);
        lemma_expr(nodes[i], env, ps, goal);
        if let Ok(t) = r {
            let slot = TypeSlot { type_oid: t.type_oid, nullable: t.nullable };
            lemma_slots(nodes, i + 1, acc.push(slot), env, p, goal);
        }
    }
}

proof fn lemma_visited(
    nodes: Seq<Node>,
    i: int,
    env: EnvView,
    ps: Seq<ParamEntry>,
    goal: TypeGoal,
)
    ensures
        learned(ps, visited_from(nodes, i, env, ps, goal)),
    decreases nodes, 0nat, nodes.len() - i,
{
    broadcast use group_learned;

    if 0 <= i < nodes.len() {
        lemma_expr(nodes[i], env, ps, goal);
        lemma_visited(nodes, i + 1, env, expr_outcome(nodes[i], env, ps, goal).1, goal);
    }
}

proof fn lemma_visited_opt(
    n: Option<Box<Node>>,
    env: EnvView,
    ps: Seq<ParamEntry>,
    goal: TypeGoal,
)
    ensures
        learned(ps, visited_opt(n, env, ps, goal)),
        learned(ps, opt_outcome(n, env, ps, goal).1),
    decreases n, 0nat, 0int,
{
    broadcast use group_learned;

    if let Some(b) = n {
        lemma_expr(*b, env, ps, goal);
    }
}

proof fn lemma_backfilled(
    nodes: Seq<Node>,
    i: int,
    types: Seq<u32>,
    goals: Seq<u32>,
    env: EnvView,
    ps: Seq<ParamEntry>,
)
    ensures
        learned(ps, backfilled_from(nodes, i, types, goals, env, ps)),
    decreases nodes, 0nat, nodes.len() - i,
{
    broadcast use group_learned;

    if 0 <= i < nodes.len() {
        if i < types.len() && types[i] == UNKNOWN && i < goals.len() && goals[i] != UNKNOWN {
            let p = expr_outcome(nodes[i], env, ps, implicit_goal(goals[i])).1;
            lemma_expr(nodes[i], env, ps, implicit_goal(goals[i]));
            lemma_backfilled(nodes, i + 1, types, goals, env, p);
        } else {
            lemma_backfilled(nodes, i + 1, types, goals, env, ps);
        }
    }
}

proof fn lemma_loose_types(
    nodes: Seq<Node>,
    i: int,
    acc: Seq<u32>,
    env: EnvView,
    ps: Seq<ParamEntry>,
)
    ensures
        learned(ps, loose_types_from(nodes, i, acc, env, ps).1),
    decreases nodes, 0nat, nodes.len() - i,
{
    broadcast use group_learned;

    if 0 <= i < nodes.len() {
        let (r, p) = expr_outcome(nodes[i], env, ps, no_goal());
        let t = match r {
            Ok(t) => t.type_oid,
            Err(_) => UNKNOWN,
        };
        lemma_expr(nodes[i], env, ps, no_goal());
        lemma_loose_types(nodes, i + 1, acc.push(t), env, p);
    }
}

proof fn lemma_leading(arg: Node, env: EnvView, ps: Seq<ParamEntry>)
    ensures
        learned(ps, leading_fields(arg, env, ps).1),
    decreases arg, 0nat, 0int,
{
    broadcast use group_learned;

    if let Node::FuncCall(fc) = arg {
        lemma_loose_types(fc.args@, 0, Seq::empty(), bare_env(env.cat), ps);
    }
}

proof fn lemma_steps(
    steps: Seq<Node>,
    i: int,
    current: ExprTypeView,
    env: EnvView,
    ps: Seq<ParamEntry>,
)
    ensures
        learned(ps, steps_from(steps, i, current, env, ps).1),
    decreases steps, 0nat, steps.len() - i,
{
    broadcast use group_learned;

    if 0 <= i < steps.len() {
        match steps[i] {
            Node::Text(s) => {
                if let Ok(t) = field_outcome(env.cat, current, s@) {
                    lemma_steps(steps, i + 1, t, env, ps);
                }
            },
            Node::AIndices(ai) => {
                let (r, p) = subscript_outcome(*ai, current, env, ps);
                lemma_subscript(*ai, current, env, ps);
                if let Ok(t) = r {
                    lemma_steps(steps, i + 1, t, env, p);
                }
            },
            _ => {},
        }
    }
}

proof fn lemma_subscript(ai: AIndices, current: ExprTypeView, env: EnvView, ps: Seq<ParamEntry>)
    ensures
        learned(ps, subscript_outcome(ai, current, env, ps).1),
    decreases ai, 0nat, 0int,
{
    broadcast use group_learned;

    let p1 = opt_outcome(ai.lidx, env, ps, assignment_goal(INT4)).1;
    lemma_visited_opt(ai.lidx, env, ps, assignment_goal(INT4));
    lemma_visited_opt(ai.uidx, env, p1, assignment_goal(INT4));
}

proof fn lemma_indirection(ind: AIndirection, env: EnvView, ps: Seq<ParamEntry>)
    ensures
        learned(ps, indirection_outcome(ind, env, ps).1),
    decreases ind, 0nat, 0int,
{
    broadcast use group_learned;

    if let Some(arg) = ind.arg {
        let (lead, p1) = leading_fields(*arg, env, ps);
        lemma_leading(*arg, env, ps);
        let start = match lead {
            Some(fields) => leading_steps(fields, ind.indirection@, 0, None),
            None => Ok((0, None)),
        };
        match start {
            Err(_) => {},
            Ok((k, Some(t))) => lemma_steps(ind.indirection@, k, t, env, p1),
            Ok((k, None)) => {
                let (r, p2) = expr_outcome(*arg, env, p1, no_goal());
                lemma_expr(*arg, env, p1, no_goal());
                if let Ok(t) = r {
                    lemma_steps(ind.indirection@, k, t, env, p2);
                }
            },
        }
    }
}

proof fn lemma_array(elements: Seq<Node>, env: EnvView, ps: Seq<ParamEntry>)
    ensures
        learned(ps, array_outcome(elements, env, ps).1),
    decreases elements, 1nat, 0int,
{
    broadcast use group_learned;

    lemma_slots(elements, 0, Seq::empty(), env, ps, no_goal());
}

proof fn lemma_cast(cast: TypeCast, env: EnvView, ps: Seq<ParamEntry>)
    ensures
        learned(ps, cast_outcome(cast, env, ps).1),
    decreases cast, 0nat, 0int,
{
    broadcast use group_learned;

    if let Some(arg) = cast.arg {
        let p = expr_outcome(*arg, env, ps, no_goal()).1;
        lemma_expr(*arg, env, ps, no_goal());
        if let (Node::ParamRef(num), Ok(target)) = (*arg, written_type(env.cat, cast.target)) {
            lemma_recorded(p, num, target);
        }
    }
}

proof fn lemma_modifiers(func: FuncCall, env: EnvView, ps: Seq<ParamEntry>)
    ensures
        learned(ps, modifiers_visited(func, env, ps)),
    decreases func, 0nat, 0int,
{
    broadcast use group_learned;

    let a = visited_opt(func.agg_filter, env, ps, implicit_goal(BOOL));
    let b = visited_from(func.agg_order@, 0, env, a, no_goal());
    lemma_visited_opt(func.agg_filter, env, ps, implicit_goal(BOOL));
    lemma_visited(func.agg_order@, 0, env, a, no_goal());
    if let Some(w) = func.over {
        lemma_window(*w, env, b);
    }
}

proof fn lemma_window(w: WindowDef, env: EnvView, ps: Seq<ParamEntry>)
    ensures
        learned(ps, window_visited(w, env, ps)),
    decreases w, 0nat, 0int,
{
    broadcast use group_learned;

    let a = visited_from(w.partition_clause@, 0, env, ps, no_goal());
    let b = visited_from(w.order_clause@, 0, env, a, no_goal());
    let d = visited_opt(w.start_offset, env, b, no_goal());
    lemma_visited(w.partition_clause@, 0, env, ps, no_goal());
    lemma_visited(w.order_clause@, 0, env, a, no_goal());
    lemma_visited_opt(w.start_offset, env, b, no_goal());
    lemma_visited_opt(w.end_offset, env, d, no_goal());
}

proof fn lemma_call(func: FuncCall, env: EnvView, ps: Seq<ParamEntry>)
    ensures
        learned(ps, call_outcome(func, env, ps).1),
    decreases func, 1nat, 0int,
{
    broadcast use group_learned;

    let (r, p1) = slots_from(func.args@, 0, Seq::empty(), env, ps, no_goal());
    lemma_slots(func.args@, 0, Seq::empty(), env, ps, no_goal());
    if let (Some((schema, name)), Ok(slots)) = (qualified(texts(func.funcname@)), r) {
        if let Ok(f) = resolve(env.cat, schema, name, slot_types(slots)) {
            let types = slot_types(slots);
            let p2 = backfilled_from(func.args@, 0, types, f.arg_types, env, p1);
            lemma_backfilled(func.args@, 0, types, f.arg_types, env, p1);
            lemma_modifiers(func, env, p2);
        }
    }
}

proof fn lemma_operands(e: AExpr, env: EnvView, ps: Seq<ParamEntry>)
    ensures
        learned(ps, operands_outcome(e, env, ps).1),
        learned(ps, free_operands_outcome(e, env, ps).1),
    decreases e, 0nat, 0int,
{
    broadcast use group_learned;

    let (l, p1) = opt_outcome(e.lexpr, env, ps, no_goal());
    lemma_visited_opt(e.lexpr, env, ps, no_goal());
    if let Ok(left) = l {
        lemma_visited_opt(e.rexpr, env, p1, goal_from(type_or_unknown(left)));
        lemma_visited_opt(e.rexpr, env, p1, no_goal());
    }
}

proof fn lemma_nullif(e: AExpr, env: EnvView, ps: Seq<ParamEntry>)
    ensures
        learned(ps, nullif_outcome(e, env, ps).1),
    decreases e, 1nat, 0int,
{
    broadcast use group_learned;

    let (r, p2) = operands_outcome(e, env, ps);
    lemma_operands(e, env, ps);
    if let Ok((left, right)) = r {
        lemma_visited_opt(e.lexpr, env, p2, implicit_goal(type_or_unknown(right)));
    }
}

proof fn lemma_distinct(e: AExpr, env: EnvView, ps: Seq<ParamEntry>)
    ensures
        learned(ps, distinct_outcome(e, env, ps).1),
    decreases e, 1nat, 0int,
{
    lemma_operands(e, env, ps);
}

proof fn lemma_list(e: AExpr, env: EnvView, ps: Seq<ParamEntry>)
    ensures
        learned(ps, list_outcome(e, env, ps).1),
    decreases e, 1nat, 0int,
{
    broadcast use group_learned;

    let (l, p1) = opt_outcome(e.lexpr, env, ps, no_goal());
    lemma_visited_opt(e.lexpr, env, ps, no_goal());
    if let Ok(left) = l {
        lemma_members(e.rexpr, env, p1, goal_from(type_or_unknown(left)));
    }
}

proof fn lemma_members(
    n: Option<Box<Node>>,
    env: EnvView,
    ps: Seq<ParamEntry>,
    goal: TypeGoal,
)
    ensures
        learned(ps, members_outcome(n, env, ps, goal).1),
    decreases n, 0nat, 0int,
{
    broadcast use group_learned;

    if let Some(b) = n {
        if let Node::List(items) = *b {
            lemma_slots(items@, 0, Seq::empty(), env, ps, goal);
        }
    }
}

proof fn lemma_any(e: AExpr, env: EnvView, ps: Seq<ParamEntry>)
    ensures
        learned(ps, any_outcome(e, env, ps).1),
    decreases e, 1nat, 0int,
{
    broadcast use group_learned;

    let (r, p2) = free_operands_outcome(e, env, ps);
    lemma_operands(e, env, ps);
    if let Ok((left, right)) = r {
        let left_oid = type_or_unknown(left);
        let right_oid = type_or_unknown(right);
        if left_oid != UNKNOWN && right_oid == UNKNOWN {
            if let Some(a) = env.cat.array_type_of(left_oid) {
                lemma_visited_opt(e.rexpr, env, p2, implicit_goal(a));
            }
        }
        if right_oid != UNKNOWN && left_oid == UNKNOWN {
            if let Some(t) = env.cat.element_of(right_oid) {
                lemma_visited_opt(e.lexpr, env, p2, implicit_goal(t));
            }
        }
    }
}

proof fn lemma_rows_backfilled(
    e: AExpr,
    op: Seq<char>,
    i: int,
    ls: Seq<TypeSlot>,
    rs: Seq<TypeSlot>,
    env: EnvView,
    ps: Seq<ParamEntry>,
)
    ensures
        learned(ps, rows_backfilled(e, op, i, ls, rs, env, ps)),
    decreases e, 1nat, ls.len() - i,
{
    broadcast use group_learned;

    lemma_compared_rows(e, op);
    if let Some((l, r)) = compared_rows(e, op) {
        if 0 <= i < ls.len() && i < rs.len() && i < l.len() && i < r.len() {
            if ls[i].type_oid != UNKNOWN && rs[i].type_oid == UNKNOWN {
                let p = expr_outcome(r[i], env, ps, implicit_goal(ls[i].type_oid)).1;
                lemma_expr(r[i], env, ps, implicit_goal(ls[i].type_oid));
                lemma_rows_backfilled(e, op, i + 1, ls, rs, env, p);
            } else if rs[i].type_oid != UNKNOWN && ls[i].type_oid == UNKNOWN {
                let p = expr_outcome(l[i], env, ps, implicit_goal(rs[i].type_oid)).1;
                lemma_expr(l[i], env, ps, implicit_goal(rs[i].type_oid));
                lemma_rows_backfilled(e, op, i + 1, ls, rs, env, p);
            } else {
                lemma_rows_backfilled(e, op, i + 1, ls, rs, env, ps);
            }
        }
    }
}

proof fn lemma_rows(e: AExpr, op: Seq<char>, env: EnvView, ps: Seq<ParamEntry>)
    ensures
        learned(ps, rows_outcome(e, op, env, ps).1),
    decreases e, 2nat, 0int,
{
    broadcast use group_learned;

    lemma_compared_rows(e, op);
    if let Some((l, r)) = compared_rows(e, op) {
        let (lr, p1) = slots_from(l, 0, Seq::empty(), env, ps, no_goal());
        lemma_slots(l, 0, Seq::empty(), env, ps, no_goal());
        if let Ok(ls) = lr {
            let (rr, p2) = slots_from(r, 0, Seq::empty(), env, p1, no_goal());
            lemma_slots(r, 0, Seq::empty(), env, p1, no_goal());
            if let Ok(rs) = rr {
                lemma_rows_backfilled(e, op, 0, ls, rs, env, p2);
            }
        }
    }
}

proof fn lemma_operator(e: AExpr, op: Seq<char>, env: EnvView, ps: Seq<ParamEntry>)
    ensures
        learned(ps, operator_outcome(e, op, env, ps).1),
    decreases e, 1nat, 0int,
{
    broadcast use group_learned;

    let (o, p2) = free_operands_outcome(e, env, ps);
    lemma_operands(e, env, ps);
    if let Ok((left, right)) = o {
        let left_oid = type_or_unknown(left);
        let right_oid = type_or_unknown(right);
        let p3 = if left is Some && left_oid != UNKNOWN && right_oid == UNKNOWN {
            visited_opt(e.rexpr, env, p2, implicit_goal(left_oid))
        } else {
            p2
        };
        lemma_visited_opt(e.rexpr, env, p2, implicit_goal(left_oid));
        let p4 = if right_oid != UNKNOWN && left is Some && left_oid == UNKNOWN {
            visited_opt(e.lexpr, env, p3, implicit_goal(right_oid))
        } else {
            p3
        };
        lemma_visited_opt(e.lexpr, env, p3, implicit_goal(right_oid));
        let l = match left {
            Some(t) => Some(reread(e.lexpr, t.type_oid, p4)),
            None => None,
        };
        let r = reread(e.rexpr, right_oid, p4);
        if let Some(found) = env.cat.find_operator(op, l, r) {
            let p5 = match (l, found.oprleft) {
                (Some(t), Some(expected)) => if t == UNKNOWN {
                    visited_opt(e.lexpr, env, p4, implicit_goal(expected))
                } else {
                    p4
                },
                _ => p4,
            };
            if let Some(expected) = found.oprleft {
                lemma_visited_opt(e.lexpr, env, p4, implicit_goal(expected));
            }
            lemma_visited_opt(e.rexpr, env, p5, implicit_goal(found.oprright));
        }
    }
}

proof fn lemma_a_expr(e: AExpr, env: EnvView, ps: Seq<ParamEntry>)
    ensures
        learned(ps, a_expr_outcome(e, env, ps).1),
    decreases e, 3nat, 0int,
{
    let op = joined(texts(e.name@), "."@);
    lemma_nullif(e, env, ps);
    lemma_distinct(e, env, ps);
    lemma_list(e, env, ps);
    lemma_any(e, env, ps);
    lemma_rows(e, op, env, ps);
    lemma_operator(e, op, env, ps);
}

proof fn lemma_coalesce(nodes: Seq<Node>, env: EnvView, ps: Seq<ParamEntry>)
    ensures
        learned(ps, coalesce_outcome(nodes, env, ps).1),
    decreases nodes, 1nat, 0int,
{
    broadcast use group_learned;

    let (r, p) = slots_from(nodes, 0, Seq::empty(), env, ps, no_goal());
    lemma_slots(nodes, 0, Seq::empty(), env, ps, no_goal());
    if let Ok(slots) = r {
        let types = texted(nodes, slots);
        let o = branch_type(env.cat, types, "COALESCE arguments have no common type"@);
        if let Ok(t) = o {
            let goals = Seq::new(nodes.len(), |i: int| t);
            lemma_backfilled(nodes, 0, types, goals, env, p);
        }
    }
}

proof fn lemma_branches(
    nodes: Seq<Node>,
    i: int,
    types: Seq<u32>,
    nullable: bool,
    env: EnvView,
    ps: Seq<ParamEntry>,
)
    ensures
        learned(ps, branches_from(nodes, i, types, nullable, env, ps).1),
    decreases nodes, 0nat, nodes.len() - i,
{
    broadcast use group_learned;

    if 0 <= i < nodes.len() {
        match nodes[i] {
            Node::CaseWhen(w) => {
                let p1 = visited_opt(w.expr, env, ps, assignment_goal(BOOL));
                let (r, p2) = opt_outcome(w.result, env, p1, no_goal());
                lemma_visited_opt(w.expr, env, ps, assignment_goal(BOOL));
                lemma_visited_opt(w.result, env, p1, no_goal());
                match r {
                    Err(_) => {},
                    Ok(Some(t)) => {
                        let more = types.push(as_text(node_of(w.result), t.type_oid));
                        lemma_branches(nodes, i + 1, more, nullable || t.nullable, env, p2);
                    },
                    Ok(None) => lemma_branches(nodes, i + 1, types, nullable, env, p2),
                }
            },
            _ => lemma_branches(nodes, i + 1, types, nullable, env, ps),
        }
    }
}

proof fn lemma_branches_backfilled(
    nodes: Seq<Node>,
    i: int,
    k: int,
    types: Seq<u32>,
    goal: u32,
    env: EnvView,
    ps: Seq<ParamEntry>,
)
    ensures
        learned(ps, branches_backfilled(nodes, i, k, types, goal, env, ps).1),
    decreases nodes, 0nat, nodes.len() - i,
{
    broadcast use group_learned;

    if 0 <= i < nodes.len() {
        match nodes[i] {
            Node::CaseWhen(w) => if w.result is Some {
                if 0 <= k < types.len() && types[k] == UNKNOWN {
                    let p = visited_opt(w.result, env, ps, implicit_goal(goal));
                    lemma_visited_opt(w.result, env, ps, implicit_goal(goal));
                    lemma_branches_backfilled(nodes, i + 1, k + 1, types, goal, env, p);
                } else {
                    lemma_branches_backfilled(nodes, i + 1, k + 1, types, goal, env, ps);
                }
            } else {
                lemma_branches_backfilled(nodes, i + 1, k, types, goal, env, ps);
            },
            _ => lemma_branches_backfilled(nodes, i + 1, k, types, goal, env, ps),
        }
    }
}

proof fn lemma_case(e: CaseExpr, env: EnvView, ps: Seq<ParamEntry>)
    ensures
        learned(ps, case_outcome(e, env, ps).1),
    decreases e, 1nat, 0int,
{
    broadcast use group_learned;

    let (r, p1) = branches_from(e.args@, 0, Seq::empty(), false, env, ps);
    lemma_branches(e.args@, 0, Seq::empty(), false, env, ps);
    if let Ok((results, _)) = r {
        let (d, p2) = opt_outcome(e.defresult, env, p1, no_goal());
        lemma_visited_opt(e.defresult, env, p1, no_goal());
        if let Ok(other) = d {
            let types = match other {
                Some(t) => results.push(as_text(node_of(e.defresult), t.type_oid)),
                None => results,
            };
            let o = branch_type(env.cat, types, "CASE branches have no common type"@);
            if let Ok(t) = o {
                let p3 = branches_backfilled(e.args@, 0, 0, types, t, env, p2).1;
                lemma_branches_backfilled(e.args@, 0, 0, types, t, env, p2);
                lemma_visited_opt(e.defresult, env, p3, implicit_goal(t));
            }
        }
    }
}

// ── Laws ────────────────────────────────────────────────────────────────────

/// Inferring the type of an expression only adds to what is known of the
/// parameters: none is forgotten, a type that a use has fixed stays, and so does
/// what the author of the query wrote. It holds whether or not inference succeeds.
pub proof fn law_inference_forgets_nothing(
    n: Node,
    env: EnvView,
    ps: Seq<ParamEntry>,
    goal: TypeGoal,
    num: i32,
)
    requires
        ascending(ps),
    ensures
        ascending(expr_outcome(n, env, ps, goal).1),
        keeps(entry_of(ps, num), entry_of(expr_outcome(n, env, ps, goal).1, num)),
        param_type(ps, num) != UNKNOWN ==> param_type(expr_outcome(n, env, ps, goal).1, num)
            == param_type(ps, num),
{
    lemma_expr(n, env, ps, goal);
    reveal(learned);
}

/// A parameter takes the type that its place asks for, unless a use has fixed one
/// before, and is then known to occur.
pub proof fn law_parameter_takes_the_type_of_its_place(
    num: i32,
    env: EnvView,
    ps: Seq<ParamEntry>,
    goal: TypeGoal,
)
    requires
        ascending(ps),
        goal.type_oid != UNKNOWN,
    ensures
        entry_of(expr_outcome(Node::ParamRef(num), env, ps, goal).1, num).seen,
        param_type(expr_outcome(Node::ParamRef(num), env, ps, goal).1, num) == match entry_of(
            ps,
            num,
        ).type_oid {
            Some(t) => t,
            None => goal.type_oid,
        },
{
    let n = Node::ParamRef(num);
    assert(expr_outcome(n, env, ps, goal) == checked(
        env.cat,
        node_outcome(n, env, ps, goal),
        goal,
    ));
    lemma_entry_number(ps, num);
    let seen = param_seen(ps, num);
    law_put_changes_one_entry(ps, ParamEntry { seen: true, ..entry_of(ps, num) }, num);
    let e = entry_of(seen, num);
    law_put_changes_one_entry(
        seen,
        ParamEntry {
            seen: true,
            type_oid: if e.type_oid is None {
                Some(goal.type_oid)
            } else {
                e.type_oid
            },
            ..e
        },
        num,
    );
}

/// `IS [NOT] NULL`, `IS [NOT] TRUE` and `IS [NOT] DISTINCT FROM` are never null.
pub proof fn law_tests_are_never_null(n: Node, env: EnvView, ps: Seq<ParamEntry>, goal: TypeGoal)
    requires
        n is NullTest || n is BooleanTest || (n matches Node::AExpr(e) && (e.kind
            == AExprKind::Distinct || e.kind == AExprKind::NotDistinct)),
    ensures
        expr_outcome(n, env, ps, goal).0 matches Ok(t) ==> t.type_oid == BOOL && !t.nullable,
{
    let o = node_outcome(n, env, ps, goal);
    assert(expr_outcome(n, env, ps, goal) == checked(env.cat, o, goal));
    if let Node::AExpr(e) = n {
        assert(o == a_expr_outcome(*e, env, ps));
        assert(a_expr_outcome(*e, env, ps) == distinct_outcome(*e, env, ps));
    }
}

/// `NULLIF` may always be null.
pub proof fn law_nullif_may_be_null(e: AExpr, env: EnvView, ps: Seq<ParamEntry>)
    requires
        e.kind == AExprKind::NullIf,
    ensures
        a_expr_outcome(e, env, ps).0 matches Ok(t) ==> t.nullable,
{
}

/// A `CASE` without `ELSE` may be null.
pub proof fn law_case_without_else_may_be_null(e: CaseExpr, env: EnvView, ps: Seq<ParamEntry>)
    requires
        e.defresult is None,
    ensures
        case_outcome(e, env, ps).0 matches Ok(t) ==> t.nullable,
{
}

/// `COALESCE` and `GREATEST` or `LEAST` may be null only where every argument may.
pub proof fn law_one_sure_argument_suffices(
    n: Node,
    nodes: Seq<Node>,
    env: EnvView,
    ps: Seq<ParamEntry>,
    goal: TypeGoal,
    slots: Seq<TypeSlot>,
    i: int,
)
    requires
        match n {
            Node::CoalesceExpr(args) => args@ == nodes,
            Node::MinMaxExpr(mm) => mm.args@ == nodes,
            _ => false,
        },
        slots_from(nodes, 0, Seq::empty(), env, ps, no_goal()).0 == Ok::<
            Seq<TypeSlot>,
            AnalyzeErrorView,
        >(slots),
        0 <= i < slots.len(),
        !slots[i].nullable,
    ensures
        expr_outcome(n, env, ps, goal).0 matches Ok(t) ==> !t.nullable,
{
    let o = node_outcome(n, env, ps, goal);
    assert(expr_outcome(n, env, ps, goal) == checked(env.cat, o, goal));
    if let Node::CoalesceExpr(_) = n {
        assert(o == coalesce_outcome(nodes, env, ps));
    }
    assert(!all_nullable(slots));
}

/// `count` is never null, with or without groups, a filter or a window.
pub proof fn law_count_is_never_null(
    func: FuncCall,
    f: ResolvedFunctionView,
    slots: Seq<TypeSlot>,
    nulls: NullabilityView,
)
    requires
        f.is_aggregate,
    ensures
        !call_nullable(func, "count"@, f, slots, nulls),
{
    reveal_strlit("count");
    reveal_strlit("lag");
    reveal_strlit("lead");
    reveal_strlit("first_value");
    reveal_strlit("last_value");
    reveal_strlit("nth_value");
    assert("count"@.len() == 5 && "lag"@.len() == 3 && "lead"@.len() == 4);
    assert("first_value"@.len() == 11 && "last_value"@.len() == 10 && "nth_value"@.len() == 9);
}

/// A strict function of `pg_catalog` that is neither an aggregate, nor a window
/// function of values, nor one of the exceptions may be null just where one of
/// its arguments may.
pub proof fn law_strict_functions_follow_their_arguments(
    func: FuncCall,
    name: Seq<char>,
    f: ResolvedFunctionView,
    slots: Seq<TypeSlot>,
    nulls: NullabilityView,
)
    requires
        f.is_strict,
        !f.is_aggregate,
        f.schema == "pg_catalog"@,
        func.over is None || !value_window(name),
        !nullable_though_strict(name),
    ensures
        call_nullable(func, name, f, slots, nulls) <==> exists|i: int|
            0 <= i < slots.len() && (#[trigger] slots[i]).nullable,
{
}

} // verus!
