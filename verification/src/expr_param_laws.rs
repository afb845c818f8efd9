//! What expressions teach of the parameters in them, and what names and parts stand for.

use crate::ast::{
    AExpr, AExprKind, AIndices, AIndirection, CaseExpr, ColumnRef, FuncCall, NamePart, Node,
    TypeCast, part_names, qualified,
};
use crate::error::AnalyzeErrorView;
use crate::expr::{
    EnvView, TypeGoal, a_expr_outcome, assignment_goal, backfilled_from, branches_backfilled,
    call_outcome, cast_outcome, checked, coalesce_outcome, collate_outcome, compared_rows,
    distinct_outcome, expr_outcome, field_outcome, implicit_goal, indirection_outcome, last_star,
    leading_fields, modifiers_visited, nested_error, no_goal, node_of, node_outcome,
    operator_outcome, opt_outcome, steps_from, subscript_outcome, visited_from, visited_opt,
    written_type,
};
use crate::expr_laws::{
    alike, asked_by, branches_in_turn, branch_in_turn, free, in_turn, inferred, kinds, left_is,
    lemma_a_expr, lemma_case, lemma_free_operands, lemma_operands, lemma_slots, oids, results,
    right_is,
};
use crate::expr_type::{ExprTypeView, scalar_type};
use crate::functions::{resolve, ResolvedFunctionView};
use crate::infer_laws::law_parameter_takes_the_type_of_its_place;
use crate::lookup::find_attribute;
use crate::param_collector::{ParamEntry, ascending, entry_of, param_type};
use crate::scope::resolved_column;
use crate::text::{joined, texts};
use vstd::prelude::*;

verus! {

/// Those of the expressions whose type is unknown are inferred again, one after the other,
/// now that a type is expected of each.
pub open spec fn taught_in_turn(
    nodes: Seq<Node>,
    kinds: Seq<u32>,
    goals: Seq<u32>,
    env: EnvView,
    states: Seq<Seq<ParamEntry>>,
) -> bool {
    &&& states.len() == nodes.len() + 1
    &&& kinds.len() == nodes.len()
    &&& forall|i: int|
        0 <= i < nodes.len() ==> #[trigger] states[i + 1] == if kinds[i] == 705 && i < goals.len()
            && goals[i] != 705 {
            expr_outcome(nodes[i], env, states[i], alike(goals[i])).1
        } else {
            states[i]
        }
}

proof fn lemma_taught(
    nodes: Seq<Node>,
    i: int,
    kinds: Seq<u32>,
    goals: Seq<u32>,
    env: EnvView,
    states: Seq<Seq<ParamEntry>>,
)
    requires
        taught_in_turn(nodes, kinds, goals, env, states),
        0 <= i <= nodes.len(),
    ensures
        backfilled_from(nodes, i, kinds, goals, env, states[i]) == states[nodes.len() as int],
    decreases nodes.len() - i,
{
    if i < nodes.len() {
        lemma_taught(nodes, i + 1, kinds, goals, env, states);
        assert(states[i + 1] == states[i + 1]);
        if i < goals.len() {
            assert(implicit_goal(goals[i]) == alike(goals[i]));
        }
    }
}

/// The arguments of `COALESCE` whose type is unknown are taught the type that all of them
/// agree on.
pub proof fn law_coalesce_teaches_its_arguments(
    args: Vec<Node>,
    env: EnvView,
    states: Seq<Seq<ParamEntry>>,
    types: Seq<ExprTypeView>,
    t: u32,
    later: Seq<Seq<ParamEntry>>,
)
    requires
        in_turn(args@, env, free(), states, types),
        expr_outcome(Node::CoalesceExpr(args), env, states[0], free()).0 matches Ok(found)
            && found.type_oid == t,
        taught_in_turn(
            args@,
            kinds(args@, types),
            Seq::new(args@.len(), |i: int| t),
            env,
            later,
        ),
        later[0] == states[args@.len() as int],
    ensures
        expr_outcome(Node::CoalesceExpr(args), env, states[0], free()).1
            == later[args@.len() as int],
{
    let n = Node::CoalesceExpr(args);
    lemma_slots(args@, env, free(), states, types);
    let o = node_outcome(n, env, states[0], free());
    assert(expr_outcome(n, env, states[0], free()) == checked(env.cat, o, free()));
    assert(o == coalesce_outcome(args@, env, states[0]));
    lemma_taught(args@, 0, kinds(args@, types), Seq::new(args@.len(), |i: int| t), env, later);
}

/// The arguments of a call whose type is unknown are taught the types that the routine
/// expects.
pub proof fn law_call_teaches_its_arguments(
    func: Box<FuncCall>,
    env: EnvView,
    states: Seq<Seq<ParamEntry>>,
    types: Seq<ExprTypeView>,
    schema: Option<Seq<char>>,
    name: Seq<char>,
    f: ResolvedFunctionView,
    later: Seq<Seq<ParamEntry>>,
)
    requires
        in_turn(func.args@, env, free(), states, types),
        qualified(texts(func.funcname@)) == Some((schema, name)),
        resolve(env.cat, schema, name, oids(types)) == Ok::<_, AnalyzeErrorView>(f),
        f.is_aggregate ==> nested_error(func.args@, 0, env.cat) is None,
        func.agg_filter is None,
        func.agg_order@.len() == 0,
        func.over is None,
        taught_in_turn(func.args@, oids(types), f.arg_types, env, later),
        later[0] == states[func.args@.len() as int],
    ensures
        expr_outcome(Node::FuncCall(func), env, states[0], free()).1
            == later[func.args@.len() as int],
{
    let n = Node::FuncCall(func);
    let o = node_outcome(n, env, states[0], free());
    assert(expr_outcome(n, env, states[0], free()) == checked(env.cat, o, free()));
    lemma_slots(func.args@, env, free(), states, types);
    assert(no_goal() == free());
    assert(o == call_outcome(*func, env, states[0]));
    let p = later[func.args@.len() as int];
    lemma_taught(func.args@, 0, oids(types), f.arg_types, env, later);
    assert(visited_opt(func.agg_filter, env, p, implicit_goal(crate::pg_catalog::BOOL)) == p);
    assert(visited_from(func.agg_order@, 0, env, p, no_goal()) == p);
    assert(modifiers_visited(*func, env, p) == p);
}

/// The condition of a `FILTER` is expected to be boolean.
pub proof fn law_filter_is_a_condition(
    func: Box<FuncCall>,
    env: EnvView,
    states: Seq<Seq<ParamEntry>>,
    types: Seq<ExprTypeView>,
    schema: Option<Seq<char>>,
    name: Seq<char>,
    f: ResolvedFunctionView,
    later: Seq<Seq<ParamEntry>>,
)
    requires
        in_turn(func.args@, env, free(), states, types),
        qualified(texts(func.funcname@)) == Some((schema, name)),
        resolve(env.cat, schema, name, oids(types)) == Ok::<_, AnalyzeErrorView>(f),
        f.is_aggregate ==> nested_error(func.args@, 0, env.cat) is None,
        func.agg_filter is Some,
        func.agg_order@.len() == 0,
        func.over is None,
        taught_in_turn(func.args@, oids(types), f.arg_types, env, later),
        later[0] == states[func.args@.len() as int],
    ensures
        expr_outcome(Node::FuncCall(func), env, states[0], free()).1 == expr_outcome(
            *(func.agg_filter->0),
            env,
            later[func.args@.len() as int],
            alike(16),
        ).1,
{
    let n = Node::FuncCall(func);
    let o = node_outcome(n, env, states[0], free());
    assert(expr_outcome(n, env, states[0], free()) == checked(env.cat, o, free()));
    lemma_slots(func.args@, env, free(), states, types);
    assert(no_goal() == free());
    assert(o == call_outcome(*func, env, states[0]));
    let p = later[func.args@.len() as int];
    lemma_taught(func.args@, 0, oids(types), f.arg_types, env, later);
    assert(implicit_goal(crate::pg_catalog::BOOL) == alike(16));
    let q = expr_outcome(*(func.agg_filter->0), env, p, alike(16)).1;
    assert(visited_opt(func.agg_filter, env, p, alike(16)) == q);
    assert(visited_from(func.agg_order@, 0, env, q, no_goal()) == q);
    assert(modifiers_visited(*func, env, p) == q);
}

spec fn taught_branches(
    branches: Seq<Node>,
    kinds: Seq<u32>,
    t: u32,
    env: EnvView,
    states: Seq<Seq<ParamEntry>>,
) -> bool {
    taught_in_turn(results(branches), kinds, Seq::new(branches.len(), |i: int| t), env, states)
}

proof fn lemma_taught_branches(
    branches: Seq<Node>,
    i: int,
    types: Seq<u32>,
    t: u32,
    env: EnvView,
    states: Seq<Seq<ParamEntry>>,
)
    requires
        0 <= i <= branches.len(),
        types.len() >= branches.len(),
        t != 705,
        taught_branches(branches, types.take(branches.len() as int), t, env, states),
        forall|k: int|
            0 <= k < branches.len() ==> #[trigger] branches[k] is CaseWhen
                && branches[k]->CaseWhen_0.result is Some,
    ensures
        branches_backfilled(branches, i, i, types, t, env, states[i]) == (
            branches.len() as int,
            states[branches.len() as int],
        ),
    decreases branches.len() - i,
{
    if i < branches.len() {
        lemma_taught_branches(branches, i + 1, types, t, env, states);
        assert(branches[i] is CaseWhen);
        let w = branches[i]->CaseWhen_0;
        assert(branches[i] == Node::CaseWhen(w));
        assert(states[i + 1] == states[i + 1]);
        assert(implicit_goal(t) == alike(t));
        assert(visited_opt(w.result, env, states[i], alike(t)) == expr_outcome(
            *(w.result->0),
            env,
            states[i],
            alike(t),
        ).1);
        assert(results(branches)[i] == *(w.result->0));
        assert(types.take(branches.len() as int)[i] == types[i]);
    }
}

/// The results of a `CASE` whose type is unknown, that of its `ELSE` last, are taught the
/// type that all of them agree on.
pub proof fn law_case_teaches_its_results(
    e: Box<CaseExpr>,
    env: EnvView,
    states: Seq<Seq<ParamEntry>>,
    types: Seq<ExprTypeView>,
    other: ExprTypeView,
    after: Seq<ParamEntry>,
    t: u32,
    later: Seq<Seq<ParamEntry>>,
)
    requires
        branches_in_turn(e.args@, env, states, types),
        e.defresult is Some,
        inferred(*(e.defresult->0), env, states[e.args@.len() as int], free(), other, after),
        expr_outcome(Node::CaseExpr(e), env, states[0], free()).0 matches Ok(found)
            && found.type_oid == t,
        t != 705,
        taught_in_turn(
            results(e.args@).push(*(e.defresult->0)),
            kinds(results(e.args@).push(*(e.defresult->0)), types.push(other)),
            Seq::new(e.args@.len() + 1, |i: int| t),
            env,
            later,
        ),
        later[0] == after,
    ensures
        expr_outcome(Node::CaseExpr(e), env, states[0], free()).1 == later[(e.args@.len() + 1) as int],
{
    lemma_case(e, env, states, types);
    let n = e.args@.len() as int;
    let nodes = results(e.args@).push(*(e.defresult->0));
    let all = kinds(nodes, types.push(other));
    assert(all =~= kinds(results(e.args@), types).push(
        crate::expr::as_text(node_of(e.defresult), other.type_oid),
    ));
    let goals = Seq::new(e.args@.len() + 1, |i: int| t);
    let head = later.take(n + 1);
    assert(taught_branches(e.args@, all.take(n), t, env, head)) by {
        assert forall|i: int| 0 <= i < n implies #[trigger] head[i + 1] == if all.take(n)[i] == 705
            && i < Seq::new(e.args@.len(), |i: int| t).len() && Seq::new(
            e.args@.len(),
            |i: int| t,
        )[i] != 705 {
            expr_outcome(
                results(e.args@)[i],
                env,
                head[i],
                alike(Seq::new(e.args@.len(), |i: int| t)[i]),
            ).1
        } else {
            head[i]
        } by {
            assert(later[i + 1] == head[i + 1]);
            assert(nodes[i] == results(e.args@)[i]);
            assert(goals[i] == t);
        }
    }
    assert forall|k: int| 0 <= k < e.args@.len() implies #[trigger] e.args@[k] is CaseWhen
        && e.args@[k]->CaseWhen_0.result is Some by {
        assert(branch_in_turn(e.args@[k], env, states[k], types[k], states[k + 1]));
    }
    lemma_taught_branches(e.args@, 0, all, t, env, head);
    assert(later[n + 1] == later[n + 1]);
    assert(nodes[n] == *(e.defresult->0));
    assert(goals[n] == t);
    assert(implicit_goal(t) == alike(t));
    assert(visited_opt(e.defresult, env, head[n], alike(t)) == expr_outcome(
        *(e.defresult->0),
        env,
        later[n],
        alike(t),
    ).1);
    assert(opt_outcome(e.defresult, env, states[n], free()) == (
        Ok::<Option<ExprTypeView>, AnalyzeErrorView>(Some(other)),
        after,
    ));
    assert(no_goal() == free());
}

// ── Operands ────────────────────────────────────────────────────────────────

/// A parameter of unknown type to the right of an operand of a known type takes that type,
/// and the operator is the one between two operands of it.
pub proof fn law_right_parameter_takes_the_type_of_the_left(
    e: Box<AExpr>,
    env: EnvView,
    ps: Seq<ParamEntry>,
    l: ExprTypeView,
    p1: Seq<ParamEntry>,
    r: ExprTypeView,
    p2: Seq<ParamEntry>,
    num: i32,
    op: Seq<char>,
)
    requires
        e.kind == AExprKind::Op,
        op == joined(texts(e.name@), "."@),
        left_is(*e, env, ps, l, p1),
        right_is(*e, env, p1, free(), r, p2),
        !(*(e.lexpr->0) is ParamRef),
        *(e.rexpr->0) == Node::ParamRef(num),
        l.type_oid != 705,
        r.type_oid == 705,
        ascending(p2),
        entry_of(p2, num).type_oid is None,
    ensures
        param_type(expr_outcome(Node::AExpr(e), env, ps, free()).1, num) == l.type_oid,
        env.cat.find_operator(op, Some(l.type_oid), l.type_oid) matches Some(found) ==> (
        found.oprresult matches Some(t) ==> (expr_outcome(
            Node::AExpr(e),
            env,
            ps,
            free(),
        ).0 matches Ok(x) && x.type_oid == t && (l.nullable || r.nullable ==> x.nullable))),
{
    lemma_a_expr(e, env, ps);
    lemma_free_operands(*e, env, ps, l, p1, r, p2);
    assert(compared_rows(*e, op) is None);
    assert(a_expr_outcome(*e, env, ps) == operator_outcome(*e, op, env, ps));
    assert(implicit_goal(l.type_oid) == alike(l.type_oid));
    let p3 = expr_outcome(*(e.rexpr->0), env, p2, alike(l.type_oid)).1;
    assert(visited_opt(e.rexpr, env, p2, implicit_goal(l.type_oid)) == p3);
    law_parameter_takes_the_type_of_its_place(num, env, p2, alike(l.type_oid));
    assert(param_type(p3, num) == l.type_oid);
}

/// A parameter of unknown type to the left of an operand of a known type takes that type,
/// and the operator is the one between two operands of it.
pub proof fn law_left_parameter_takes_the_type_of_the_right(
    e: Box<AExpr>,
    env: EnvView,
    ps: Seq<ParamEntry>,
    l: ExprTypeView,
    p1: Seq<ParamEntry>,
    r: ExprTypeView,
    p2: Seq<ParamEntry>,
    num: i32,
    op: Seq<char>,
)
    requires
        e.kind == AExprKind::Op,
        op == joined(texts(e.name@), "."@),
        left_is(*e, env, ps, l, p1),
        right_is(*e, env, p1, free(), r, p2),
        *(e.lexpr->0) == Node::ParamRef(num),
        !(*(e.rexpr->0) is ParamRef),
        l.type_oid == 705,
        r.type_oid != 705,
        ascending(p2),
        entry_of(p2, num).type_oid is None,
    ensures
        param_type(expr_outcome(Node::AExpr(e), env, ps, free()).1, num) == r.type_oid,
        env.cat.find_operator(op, Some(r.type_oid), r.type_oid) matches Some(found) ==> (
        found.oprresult matches Some(t) ==> (expr_outcome(
            Node::AExpr(e),
            env,
            ps,
            free(),
        ).0 matches Ok(x) && x.type_oid == t && (l.nullable || r.nullable ==> x.nullable))),
{
    lemma_a_expr(e, env, ps);
    lemma_free_operands(*e, env, ps, l, p1, r, p2);
    assert(compared_rows(*e, op) is None);
    assert(a_expr_outcome(*e, env, ps) == operator_outcome(*e, op, env, ps));
    assert(implicit_goal(r.type_oid) == alike(r.type_oid));
    let p3 = expr_outcome(*(e.lexpr->0), env, p2, alike(r.type_oid)).1;
    assert(visited_opt(e.lexpr, env, p2, implicit_goal(r.type_oid)) == p3);
    law_parameter_takes_the_type_of_its_place(num, env, p2, alike(r.type_oid));
    assert(param_type(p3, num) == r.type_oid);
}

/// `IS [NOT] DISTINCT FROM` is boolean, never null, and holds its right operand against a
/// known type of the left one.
pub proof fn law_distinct_test_is_never_null(
    e: Box<AExpr>,
    env: EnvView,
    ps: Seq<ParamEntry>,
    l: ExprTypeView,
    p1: Seq<ParamEntry>,
    r: ExprTypeView,
    p2: Seq<ParamEntry>,
)
    requires
        e.kind == AExprKind::Distinct || e.kind == AExprKind::NotDistinct,
        left_is(*e, env, ps, l, p1),
        right_is(*e, env, p1, asked_by(l), r, p2),
    ensures
        inferred(Node::AExpr(e), env, ps, free(), scalar_type(16, false), p2),
{
    lemma_a_expr(e, env, ps);
    lemma_operands(*e, env, ps, l, p1, r, p2);
    assert(a_expr_outcome(*e, env, ps) == distinct_outcome(*e, env, ps));
}

/// A parameter of unknown type that is cast takes the type of the cast.
pub proof fn law_cast_parameter_takes_the_type(
    cast: Box<TypeCast>,
    env: EnvView,
    ps: Seq<ParamEntry>,
    num: i32,
    target: u32,
)
    requires
        cast.arg is Some,
        *(cast.arg->0) == Node::ParamRef(num),
        written_type(env.cat, cast.target) == Ok::<u32, AnalyzeErrorView>(target),
        target != 705,
        ascending(ps),
        entry_of(ps, num).type_oid is None,
    ensures
        param_type(expr_outcome(Node::TypeCast(cast), env, ps, free()).1, num) == target,
{
    let n = Node::TypeCast(cast);
    let o = node_outcome(n, env, ps, free());
    assert(expr_outcome(n, env, ps, free()) == checked(env.cat, o, free()));
    assert(no_goal() == free());
    assert(o == cast_outcome(*cast, env, ps));
    let arg = Node::ParamRef(num);
    assert(expr_outcome(arg, env, ps, free()) == checked(
        env.cat,
        node_outcome(arg, env, ps, free()),
        free(),
    ));
    let seen = crate::param_collector::param_seen(ps, num);
    crate::param_collector::lemma_entry_number(ps, num);
    crate::param_collector::law_put_changes_one_entry(
        ps,
        ParamEntry { seen: true, ..entry_of(ps, num) },
        num,
    );
    let e = entry_of(seen, num);
    crate::param_collector::law_put_changes_one_entry(
        seen,
        ParamEntry { seen: true, type_oid: Some(target), ..e },
        num,
    );
}

// ── Names and parts ─────────────────────────────────────────────────────────

/// A column has the type that its source gives it. It may be null where its source is on
/// the nullable side of a join, a grouping set leaves it out, or its table lets it be null.
pub proof fn law_column_is_null_by_its_place(
    cr: ColumnRef,
    env: EnvView,
    ps: Seq<ParamEntry>,
    table: Option<Seq<char>>,
    name: Seq<char>,
)
    requires
        forall|i: int| 0 <= i < cr.fields@.len() ==> #[trigger] cr.fields@[i] is Name,
        table is None ==> cr.fields@.len() == 1 && cr.fields@[0]->Name_0@ == name,
        table matches Some(t) ==> cr.fields@.len() == 2 && cr.fields@[0]->Name_0@ == t
            && cr.fields@[1]->Name_0@ == name,
    ensures
        resolved_column(env.sources, table, name) matches Ok(col) ==> expr_outcome(
            Node::ColumnRef(cr),
            env,
            ps,
            free(),
        ) == (
            Ok::<_, AnalyzeErrorView>(
                ExprTypeView {
                    type_oid: col.type_oid,
                    nullable: env.nulls.nullable_aliases.contains(col.table_alias)
                        || env.nulls.grouping_omitted.contains((col.table_alias, col.name))
                        || !col.base_not_null,
                    record_fields: col.record_fields,
                },
            ),
            ps,
        ),
        table is Some ==> (resolved_column(env.sources, table, name) matches Err(e)
            ==> expr_outcome(Node::ColumnRef(cr), env, ps, free()).0 == Err::<ExprTypeView, _>(e)),
{
    let n = Node::ColumnRef(cr);
    assert(expr_outcome(n, env, ps, free()) == checked(
        env.cat,
        node_outcome(n, env, ps, free()),
        free(),
    ));
    let fields = cr.fields@;
    lemma_no_star(fields);
    if table is None {
        assert(fields.drop_last() =~= Seq::empty());
        assert(fields[0] is Name);
        assert(part_names(fields.drop_last()) =~= Seq::empty());
        assert(part_names(fields) =~= seq![name]);
    } else {
        let head = fields.drop_last();
        assert(head.drop_last() =~= Seq::empty());
        assert(fields[0] is Name && fields[1] is Name);
        assert(part_names(head.drop_last()) =~= Seq::empty());
        assert(head.last() == fields[0]);
        assert(part_names(head) =~= seq![table->0]);
        assert(part_names(fields) =~= seq![table->0, name]);
    }
}

proof fn lemma_no_star(fields: Seq<NamePart>)
    requires
        forall|i: int| 0 <= i < fields.len() ==> #[trigger] fields[i] is Name,
    ensures
        last_star(fields) == -1,
    decreases fields.len(),
{
    if fields.len() > 0 {
        assert(fields[fields.len() - 1] is Name);
        let head = fields.drop_last();
        assert forall|i: int| 0 <= i < head.len() implies #[trigger] head[i] is Name by {
            assert(fields[i] is Name);
        }
        lemma_no_star(head);
    }
}

/// A field of a composite value has the type of its attribute, and may be null where the
/// value or the attribute may.
pub proof fn law_field_is_null_with_its_value(
    ind: Box<AIndirection>,
    env: EnvView,
    ps: Seq<ParamEntry>,
    t: ExprTypeView,
    after: Seq<ParamEntry>,
    name: String,
    k: int,
)
    requires
        ind.arg is Some,
        leading_fields(*(ind.arg->0), env, ps) == (
            None::<Seq<crate::expr_type::RecordFieldView>>,
            ps,
        ),
        inferred(*(ind.arg->0), env, ps, free(), t, after),
        ind.indirection@.len() == 1,
        ind.indirection@[0] == Node::Text(name),
        t.record_fields is None,
        env.cat.get_type(env.cat.unwrap_domain(t.type_oid)) is Some,
        env.cat.composite_fields(env.cat.unwrap_domain(t.type_oid)) is Some,
        ({
            let attrs = env.cat.composite_fields(env.cat.unwrap_domain(t.type_oid))->0;
            0 <= k < attrs.len() && attrs[k].attname == name@ && forall|j: int|
                0 <= j < k ==> (#[trigger] attrs[j]).attname != name@
        }),
    ensures
        ({
            let a = env.cat.composite_fields(env.cat.unwrap_domain(t.type_oid))->0[k];
            inferred(
                Node::AIndirection(ind),
                env,
                ps,
                free(),
                scalar_type(a.atttypid, t.nullable || !a.attnotnull),
                after,
            )
        }),
{
    let n = Node::AIndirection(ind);
    let o = node_outcome(n, env, ps, free());
    assert(expr_outcome(n, env, ps, free()) == checked(env.cat, o, free()));
    assert(no_goal() == free());
    assert(o == indirection_outcome(*ind, env, ps));
    let attrs = env.cat.composite_fields(env.cat.unwrap_domain(t.type_oid))->0;
    lemma_first_attribute(attrs, name@, k);
    assert(o == steps_from(ind.indirection@, 0, t, env, after));
    let a = attrs[k];
    let found = scalar_type(a.atttypid, t.nullable || !a.attnotnull);
    assert(field_outcome(env.cat, t, name@) == Ok::<_, AnalyzeErrorView>(found));
    assert(steps_from(ind.indirection@, 1, found, env, after) == (
        Ok::<_, AnalyzeErrorView>(found),
        after,
    ));
}

proof fn lemma_first_attribute(
    attrs: Seq<crate::pg_catalog::PgAttributeView>,
    name: Seq<char>,
    k: int,
)
    requires
        0 <= k < attrs.len(),
        attrs[k].attname == name,
        forall|j: int| 0 <= j < k ==> (#[trigger] attrs[j]).attname != name,
    ensures
        find_attribute(attrs, name) == Some(attrs[k]),
    decreases k,
{
    if k > 0 {
        assert(attrs[0].attname != name);
        let rest = attrs.drop_first();
        assert forall|j: int| 0 <= j < k - 1 implies (#[trigger] rest[j]).attname != name by {
            assert(attrs[j + 1].attname != name);
        }
        lemma_first_attribute(rest, name, k - 1);
    }
}

/// An element of an array has the element type and may always be null.
pub proof fn law_element_may_be_null(
    ind: Box<AIndirection>,
    env: EnvView,
    ps: Seq<ParamEntry>,
    t: ExprTypeView,
    after: Seq<ParamEntry>,
    ai: Box<AIndices>,
    at: ExprTypeView,
    end: Seq<ParamEntry>,
    elem: u32,
)
    requires
        ind.arg is Some,
        leading_fields(*(ind.arg->0), env, ps) == (
            None::<Seq<crate::expr_type::RecordFieldView>>,
            ps,
        ),
        inferred(*(ind.arg->0), env, ps, free(), t, after),
        ind.indirection@.len() == 1,
        ind.indirection@[0] == Node::AIndices(ai),
        !ai.is_slice,
        ai.lidx is None,
        ai.uidx is Some,
        inferred(
            *(ai.uidx->0),
            env,
            after,
            TypeGoal { type_oid: 23, coercion: crate::coerce::CoercionContext::Assignment },
            at,
            end,
        ),
        env.cat.element_of(t.type_oid) == Some(elem),
    ensures
        inferred(Node::AIndirection(ind), env, ps, free(), scalar_type(elem, true), end),
{
    let n = Node::AIndirection(ind);
    let o = node_outcome(n, env, ps, free());
    assert(expr_outcome(n, env, ps, free()) == checked(env.cat, o, free()));
    assert(no_goal() == free());
    assert(o == indirection_outcome(*ind, env, ps));
    assert(o == steps_from(ind.indirection@, 0, t, env, after));
    let goal = TypeGoal { type_oid: 23, coercion: crate::coerce::CoercionContext::Assignment };
    assert(assignment_goal(crate::pg_catalog::INT4) == goal);
    assert(opt_outcome(ai.lidx, env, after, goal) == (
        Ok::<Option<ExprTypeView>, AnalyzeErrorView>(None),
        after,
    ));
    assert(opt_outcome(ai.uidx, env, after, goal) == (
        Ok::<Option<ExprTypeView>, AnalyzeErrorView>(Some(at)),
        end,
    ));
    let found = scalar_type(elem, true);
    assert(subscript_outcome(*ai, t, env, after) == (Ok::<_, AnalyzeErrorView>(found), end));
    assert(steps_from(ind.indirection@, 1, found, env, end) == (
        Ok::<_, AnalyzeErrorView>(found),
        end,
    ));
}

/// A string with a collation is that string; no other type can have one.
pub proof fn law_collation_keeps_the_string(
    arg: Box<Node>,
    env: EnvView,
    ps: Seq<ParamEntry>,
    goal: TypeGoal,
    t: ExprTypeView,
    after: Seq<ParamEntry>,
)
    requires
        inferred(*arg, env, ps, goal, t, after),
    ensures
        if t.type_oid == 705 || (env.cat.get_type(
            env.cat.unwrap_domain(t.type_oid),
        ) matches Some(row) && row.typcategory == crate::pg_catalog::TypCategory::String) {
            inferred(Node::CollateClause(Some(arg)), env, ps, goal, t, after)
        } else {
            expr_outcome(Node::CollateClause(Some(arg)), env, ps, goal).0 matches Err(
                AnalyzeErrorView::Invalid(_),
            )
        },
{
    let n = Node::CollateClause(Some(arg));
    assert(expr_outcome(n, env, ps, goal) == collate_outcome(Some(arg), env, ps, goal));
}

} // verus!
