//! What an expression is, by what its parts are.

use crate::ast::{
    AExpr, AExprKind, CaseExpr, ConstValue, FuncCall, MinMaxExpr, Node, SubLink, SubLinkType,
    TypeCast, qualified,
};
use crate::catalog::CatalogView;
use crate::coerce::{coercible, common_type, concrete, CoercionContext};
use crate::error::AnalyzeErrorView;
use crate::expr::{
    EnvView, TypeGoal, TypeSlot, a_expr_outcome, all_nullable, any_outcome, array_outcome, as_text,
    assignment_goal, branch_type, branches_from, call_outcome, case_outcome, cast_outcome, checked,
    coalesce_outcome, compared_rows, expr_outcome, free_operands_outcome, goal_from, implicit_goal,
    list_outcome, members_outcome, nested_error, no_goal, node_of, node_outcome, nullif_outcome,
    operands_outcome, operator_outcome, opt_outcome, rows_outcome, slot_types, slots_from,
    some_nullable, sublink_outcome, texted, visited_opt, written_type,
};
use crate::expr_type::{ExprTypeView, scalar_type};
use crate::functions::{resolve, ResolvedFunctionView};
use crate::param_collector::ParamEntry;
use crate::pg_catalog::{TypCategory, BOOL};
use crate::text::{joined, texts};
use vstd::prelude::*;

verus! {

/// Nothing is expected of an expression.
pub open spec fn free() -> TypeGoal {
    TypeGoal { type_oid: 705, coercion: CoercionContext::Implicit }
}

/// A condition is expected.
pub open spec fn condition() -> TypeGoal {
    TypeGoal { type_oid: 16, coercion: CoercionContext::Assignment }
}

/// A type is expected that another expression has.
pub open spec fn alike(type_oid: u32) -> TypeGoal {
    TypeGoal { type_oid, coercion: CoercionContext::Implicit }
}

/// An expression that is inferred to be of a type, and what is then known of parameters.
pub open spec fn inferred(
    n: Node,
    env: EnvView,
    before: Seq<ParamEntry>,
    goal: TypeGoal,
    t: ExprTypeView,
    after: Seq<ParamEntry>,
) -> bool {
    expr_outcome(n, env, before, goal) == (Ok::<ExprTypeView, AnalyzeErrorView>(t), after)
}

/// Expressions that are inferred one after the other to be of these types, each with what
/// is known of parameters behind the one before.
pub open spec fn in_turn(
    nodes: Seq<Node>,
    env: EnvView,
    goal: TypeGoal,
    states: Seq<Seq<ParamEntry>>,
    types: Seq<ExprTypeView>,
) -> bool {
    &&& types.len() == nodes.len()
    &&& states.len() == nodes.len() + 1
    &&& forall|i: int|
        0 <= i < nodes.len() ==> inferred(
            nodes[i],
            env,
            states[i],
            goal,
            #[trigger] types[i],
            states[i + 1],
        )
}

/// One of the types may be null.
pub open spec fn one_may_be_null(types: Seq<ExprTypeView>) -> bool {
    exists|i: int| 0 <= i < types.len() && (#[trigger] types[i]).nullable
}

/// All of the types may be null.
pub open spec fn all_may_be_null(types: Seq<ExprTypeView>) -> bool {
    forall|i: int| 0 <= i < types.len() ==> (#[trigger] types[i]).nullable
}

/// The types as such; a string literal of unknown type counts as `text`.
pub open spec fn kinds(nodes: Seq<Node>, types: Seq<ExprTypeView>) -> Seq<u32> {
    Seq::new(
        types.len(),
        |i: int|
            if types[i].type_oid == 705 && nodes[i] == Node::AConst(ConstValue::Text) {
                25u32
            } else {
                types[i].type_oid
            },
    )
}

/// The bare types.
pub open spec fn oids(types: Seq<ExprTypeView>) -> Seq<u32> {
    Seq::new(types.len(), |i: int| types[i].type_oid)
}

/// The type that branches of these types agree on: their common type, or the preferred
/// string type where none is known.
pub open spec fn agree_on(c: CatalogView, kinds: Seq<u32>, t: u32) -> bool {
    if exists|i: int| 0 <= i < kinds.len() && #[trigger] kinds[i] != 705 {
        common_type(c, kinds) == Some(t)
    } else {
        match c.preferred_type_in_category(TypCategory::String) {
            Some(s) => t == s,
            None => t == 705,
        }
    }
}

pub open spec fn slots_of(types: Seq<ExprTypeView>) -> Seq<TypeSlot> {
    Seq::new(
        types.len(),
        |i: int| TypeSlot { type_oid: types[i].type_oid, nullable: types[i].nullable },
    )
}

proof fn lemma_slots_in_turn(
    nodes: Seq<Node>,
    i: int,
    env: EnvView,
    goal: TypeGoal,
    states: Seq<Seq<ParamEntry>>,
    types: Seq<ExprTypeView>,
)
    requires
        in_turn(nodes, env, goal, states, types),
        0 <= i <= nodes.len(),
    ensures
        slots_from(nodes, i, slots_of(types).take(i), env, states[i], goal) == (
            Ok::<Seq<TypeSlot>, AnalyzeErrorView>(slots_of(types)),
            states[nodes.len() as int],
        ),
    decreases nodes.len() - i,
{
    let all = slots_of(types);
    if i == nodes.len() {
        assert(all.take(i) =~= all);
    } else {
        assert(inferred(nodes[i], env, states[i], goal, types[i], states[i + 1]));
        lemma_slots_in_turn(nodes, i + 1, env, goal, states, types);
        assert(all.take(i + 1) =~= all.take(i).push(
            TypeSlot { type_oid: types[i].type_oid, nullable: types[i].nullable },
        ));
    }
}

pub proof fn lemma_slots(
    nodes: Seq<Node>,
    env: EnvView,
    goal: TypeGoal,
    states: Seq<Seq<ParamEntry>>,
    types: Seq<ExprTypeView>,
)
    requires
        in_turn(nodes, env, goal, states, types),
    ensures
        slots_from(nodes, 0, Seq::empty(), env, states[0], goal) == (
            Ok::<Seq<TypeSlot>, AnalyzeErrorView>(slots_of(types)),
            states[nodes.len() as int],
        ),
        some_nullable(slots_of(types)) <==> one_may_be_null(types),
        all_nullable(slots_of(types)) <==> all_may_be_null(types),
        slot_types(slots_of(types)) == oids(types),
        texted(nodes, slots_of(types)) == kinds(nodes, types),
{
    lemma_slots_in_turn(nodes, 0, env, goal, states, types);
    let all = slots_of(types);
    assert(all.take(0) =~= Seq::empty());
    if some_nullable(all) {
        let i = choose|i: int| 0 <= i < all.len() && (#[trigger] all[i]).nullable;
        assert(types[i].nullable);
    }
    if one_may_be_null(types) {
        let i = choose|i: int| 0 <= i < types.len() && (#[trigger] types[i]).nullable;
        assert(all[i].nullable);
    }
    if all_nullable(all) {
        assert forall|i: int| 0 <= i < types.len() implies (#[trigger] types[i]).nullable by {
            assert(all[i].nullable);
        }
    }
    if all_may_be_null(types) {
        assert forall|i: int| 0 <= i < all.len() implies (#[trigger] all[i]).nullable by {
            assert(types[i].nullable);
        }
    }
    assert(slot_types(all) =~= oids(types));
    assert(texted(nodes, all) =~= kinds(nodes, types));
}

proof fn lemma_known_are_kept(types: Seq<u32>)
    ensures
        concrete(concrete(types)) == concrete(types),
        concrete(types).len() > 0 <==> exists|i: int|
            0 <= i < types.len() && #[trigger] types[i] != 705,
    decreases types.len(),
{
    reveal(Seq::filter);
    if types.len() > 0 {
        let head = types.drop_last();
        lemma_known_are_kept(head);
        if exists|i: int| 0 <= i < head.len() && #[trigger] head[i] != 705 {
            let i = choose|i: int| 0 <= i < head.len() && #[trigger] head[i] != 705;
            assert(types[i] != 705);
        }
        if types.last() != 705 {
            assert(concrete(types) == concrete(head).push(types.last()));
            assert(concrete(types).drop_last() =~= concrete(head));
            assert(types[types.len() - 1] != 705);
        } else {
            assert(concrete(types) == concrete(head));
            if exists|i: int| 0 <= i < types.len() && #[trigger] types[i] != 705 {
                let i = choose|i: int| 0 <= i < types.len() && #[trigger] types[i] != 705;
                assert(head[i] != 705);
            }
        }
    }
}

pub proof fn lemma_branch_type(c: CatalogView, kinds: Seq<u32>, context: Seq<char>)
    ensures
        branch_type(c, kinds, context) matches Ok(t) ==> agree_on(c, kinds, t),
        common_type(c, kinds) is Some ==> branch_type(c, kinds, context) is Ok,
{
    lemma_known_are_kept(kinds);
}

// ── What is expected ────────────────────────────────────────────────────────

/// What is expected of an expression that is no parameter, row, `DEFAULT` or collation
/// changes neither what it is nor what is learned: it is refused where its type is known
/// and cannot be coerced, and else accepted.
pub proof fn law_expectation_only_refuses(
    n: Node,
    env: EnvView,
    ps: Seq<ParamEntry>,
    goal: TypeGoal,
)
    requires
        !(n is ParamRef),
        !(n is RowExpr),
        !(n is SetToDefault),
        !(n is CollateClause),
    ensures
        expr_outcome(n, env, ps, goal).1 == expr_outcome(n, env, ps, free()).1,
        expr_outcome(n, env, ps, free()).0 matches Err(e) ==> expr_outcome(n, env, ps, goal).0
            == Err::<ExprTypeView, _>(e),
        expr_outcome(n, env, ps, free()).0 matches Ok(t) ==> (if goal.type_oid == 705 || t.type_oid
            == 705 || coercible(env.cat, t.type_oid, goal.type_oid, goal.coercion) {
            expr_outcome(n, env, ps, goal).0 == Ok::<_, AnalyzeErrorView>(t)
        } else {
            expr_outcome(n, env, ps, goal).0 matches Err(AnalyzeErrorView::TypeMismatch { .. })
        }),
{
    if !(n is Empty) {
        let o = node_outcome(n, env, ps, goal);
        let f = node_outcome(n, env, ps, free());
        assert(expr_outcome(n, env, ps, goal) == checked(env.cat, o, goal));
        assert(expr_outcome(n, env, ps, free()) == checked(env.cat, f, free()));
        assert(o == f);
    }
}

// ── Literals and columns ────────────────────────────────────────────────────

/// A literal has the type of its form: `int4`, `numeric`, `bool`, `bytea` for bits, and an
/// unknown type for a string and for `NULL`, which alone may be null.
pub proof fn law_literals(v: ConstValue, env: EnvView, ps: Seq<ParamEntry>)
    ensures
        expr_outcome(Node::AConst(v), env, ps, free()) == (
            Ok::<_, AnalyzeErrorView>(
                ExprTypeView {
                    type_oid: match v {
                        ConstValue::Integer => 23,
                        ConstValue::Float => 1700,
                        ConstValue::Boolean => 16,
                        ConstValue::Bits => 17,
                        _ => 705,
                    },
                    nullable: v is Null,
                    record_fields: None,
                },
            ),
            ps,
        ),
{
    let n = Node::AConst(v);
    assert(expr_outcome(n, env, ps, free()) == checked(
        env.cat,
        node_outcome(n, env, ps, free()),
        free(),
    ));
}

// ── Lists of arguments ──────────────────────────────────────────────────────

/// `AND`, `OR` and `NOT` over conditions are boolean, and may be null just where one of
/// the conditions may.
pub proof fn law_logic_is_null_with_an_argument(
    args: Vec<Node>,
    env: EnvView,
    states: Seq<Seq<ParamEntry>>,
    types: Seq<ExprTypeView>,
)
    requires
        in_turn(args@, env, condition(), states, types),
    ensures
        inferred(
            Node::BoolExpr(args),
            env,
            states[0],
            free(),
            scalar_type(16, one_may_be_null(types)),
            states[args@.len() as int],
        ),
{
    let n = Node::BoolExpr(args);
    lemma_slots(args@, env, condition(), states, types);
    assert(expr_outcome(n, env, states[0], free()) == checked(
        env.cat,
        node_outcome(n, env, states[0], free()),
        free(),
    ));
}

/// `COALESCE` may be null just where all its arguments may, and has the type that they
/// agree on. It is refused only where they agree on none.
pub proof fn law_coalesce_is_null_with_all_arguments(
    args: Vec<Node>,
    env: EnvView,
    states: Seq<Seq<ParamEntry>>,
    types: Seq<ExprTypeView>,
)
    requires
        in_turn(args@, env, free(), states, types),
    ensures
        expr_outcome(Node::CoalesceExpr(args), env, states[0], free()).0 matches Ok(t) ==> (
        t.nullable <==> all_may_be_null(types)) && agree_on(
            env.cat,
            kinds(args@, types),
            t.type_oid,
        ) && t.record_fields is None,
        common_type(env.cat, kinds(args@, types)) is Some ==> expr_outcome(
            Node::CoalesceExpr(args),
            env,
            states[0],
            free(),
        ).0 is Ok,
{
    let n = Node::CoalesceExpr(args);
    lemma_slots(args@, env, free(), states, types);
    let o = node_outcome(n, env, states[0], free());
    assert(expr_outcome(n, env, states[0], free()) == checked(env.cat, o, free()));
    assert(o == coalesce_outcome(args@, env, states[0]));
    lemma_branch_type(env.cat, kinds(args@, types), "COALESCE arguments have no common type"@);
}

/// `GREATEST` and `LEAST` may be null just where all their arguments may, and have the
/// common type of those unless the parser fixed one.
pub proof fn law_greatest_is_null_with_all_arguments(
    mm: Box<MinMaxExpr>,
    env: EnvView,
    states: Seq<Seq<ParamEntry>>,
    types: Seq<ExprTypeView>,
)
    requires
        in_turn(mm.args@, env, free(), states, types),
    ensures
        expr_outcome(Node::MinMaxExpr(mm), env, states[0], free()) matches (Ok(t), after) && after
            == states[mm.args@.len() as int] && (t.nullable <==> all_may_be_null(types)) && (if mm.minmaxtype
            != 0 && mm.minmaxtype != 705 {
            t.type_oid == mm.minmaxtype
        } else {
            match common_type(env.cat, oids(types)) {
                Some(c) => t.type_oid == c,
                None => t.type_oid == 705,
            }
        }),
{
    let n = Node::MinMaxExpr(mm);
    lemma_slots(mm.args@, env, free(), states, types);
    let o = node_outcome(n, env, states[0], free());
    assert(expr_outcome(n, env, states[0], free()) == checked(env.cat, o, free()));
}

/// `ARRAY[...]` is never null and has the array type over the common type of its elements.
pub proof fn law_array_is_over_the_common_type(
    elements: Vec<Node>,
    env: EnvView,
    states: Seq<Seq<ParamEntry>>,
    types: Seq<ExprTypeView>,
)
    requires
        in_turn(elements@, env, free(), states, types),
        elements@.len() > 0,
    ensures
        match common_type(env.cat, oids(types)) {
            Some(c) => inferred(
                Node::AArrayExpr(elements),
                env,
                states[0],
                free(),
                scalar_type(
                    match env.cat.array_type_of(c) {
                        Some(a) => a,
                        None => 705,
                    },
                    false,
                ),
                states[elements@.len() as int],
            ),
            None => expr_outcome(Node::AArrayExpr(elements), env, states[0], free()).0 matches Err(
                AnalyzeErrorView::TypeMismatch { .. },
            ),
        },
{
    let n = Node::AArrayExpr(elements);
    lemma_slots(elements@, env, free(), states, types);
    let o = node_outcome(n, env, states[0], free());
    assert(expr_outcome(n, env, states[0], free()) == checked(env.cat, o, free()));
    assert(o == array_outcome(elements@, env, states[0]));
}

// ── CASE ────────────────────────────────────────────────────────────────────

/// The branches of a `CASE`, each with a condition and a result, are inferred one after
/// the other to have results of these types.
pub open spec fn branches_in_turn(
    branches: Seq<Node>,
    env: EnvView,
    states: Seq<Seq<ParamEntry>>,
    types: Seq<ExprTypeView>,
) -> bool {
    &&& types.len() == branches.len()
    &&& states.len() == branches.len() + 1
    &&& forall|i: int| 0 <= i < branches.len() ==> branch_in_turn(
        #[trigger] branches[i],
        env,
        states[i],
        types[i],
        states[i + 1],
    )
}

/// A branch of a `CASE` whose result, inferred behind its condition, is of a type.
pub open spec fn branch_in_turn(
    branch: Node,
    env: EnvView,
    before: Seq<ParamEntry>,
    t: ExprTypeView,
    after: Seq<ParamEntry>,
) -> bool {
    branch matches Node::CaseWhen(w) && w.expr matches Some(when) && w.result matches Some(result)
        && inferred(
        *result,
        env,
        expr_outcome(*when, env, before, condition()).1,
        free(),
        t,
        after,
    )
}

/// The results of the branches of a `CASE`.
pub open spec fn results(branches: Seq<Node>) -> Seq<Node> {
    Seq::new(branches.len(), |i: int| *(branches[i]->CaseWhen_0.result->0))
}

proof fn lemma_branches_in_turn(
    branches: Seq<Node>,
    i: int,
    env: EnvView,
    states: Seq<Seq<ParamEntry>>,
    types: Seq<ExprTypeView>,
    nullable: bool,
)
    requires
        branches_in_turn(branches, env, states, types),
        0 <= i <= branches.len(),
        nullable <==> one_may_be_null(types.take(i)),
    ensures
        branches_from(
            branches,
            i,
            kinds(results(branches), types).take(i),
            nullable,
            env,
            states[i],
        ) == (
            Ok::<(Seq<u32>, bool), AnalyzeErrorView>(
                (kinds(results(branches), types), one_may_be_null(types)),
            ),
            states[branches.len() as int],
        ),
    decreases branches.len() - i,
{
    let all = kinds(results(branches), types);
    if i == branches.len() {
        assert(all.take(i) =~= all);
        assert(types.take(i) =~= types);
    } else {
        assert(branch_in_turn(branches[i], env, states[i], types[i], states[i + 1]));
        let more = nullable || types[i].nullable;
        let head = types.take(i);
        let next = types.take(i + 1);
        if one_may_be_null(head) {
            let k = choose|k: int| 0 <= k < head.len() && (#[trigger] head[k]).nullable;
            assert(next[k].nullable);
        }
        if types[i].nullable {
            assert(next[i].nullable);
        }
        if one_may_be_null(next) {
            let k = choose|k: int| 0 <= k < next.len() && (#[trigger] next[k]).nullable;
            if k < i {
                assert(head[k].nullable);
            }
        }
        lemma_branches_in_turn(branches, i + 1, env, states, types, more);
        let w = branches[i]->CaseWhen_0;
        assert(branches[i] == Node::CaseWhen(w));
        let p1 = visited_opt(w.expr, env, states[i], assignment_goal(BOOL));
        assert(assignment_goal(BOOL) == condition());
        assert(no_goal() == free());
        assert(p1 == expr_outcome(*(w.expr->0), env, states[i], condition()).1);
        assert(opt_outcome(w.result, env, p1, no_goal()) == (
            Ok::<Option<ExprTypeView>, AnalyzeErrorView>(Some(types[i])),
            states[i + 1],
        ));
        assert(all.take(i + 1) =~= all.take(i).push(as_text(node_of(w.result), types[i].type_oid)));
    }
}

pub proof fn lemma_case(
    e: Box<CaseExpr>,
    env: EnvView,
    states: Seq<Seq<ParamEntry>>,
    types: Seq<ExprTypeView>,
)
    requires
        branches_in_turn(e.args@, env, states, types),
    ensures
        expr_outcome(Node::CaseExpr(e), env, states[0], free()) == checked(
            env.cat,
            case_outcome(*e, env, states[0]),
            free(),
        ),
        branches_from(e.args@, 0, Seq::empty(), false, env, states[0]) == (
            Ok::<(Seq<u32>, bool), AnalyzeErrorView>(
                (kinds(results(e.args@), types), one_may_be_null(types)),
            ),
            states[e.args@.len() as int],
        ),
{
    let n = Node::CaseExpr(e);
    let o = node_outcome(n, env, states[0], free());
    assert(expr_outcome(n, env, states[0], free()) == checked(env.cat, o, free()));
    assert(o == case_outcome(*e, env, states[0]));
    assert(!one_may_be_null(types.take(0)));
    lemma_branches_in_turn(e.args@, 0, env, states, types, false);
    assert(kinds(results(e.args@), types).take(0) =~= Seq::empty());
}

/// A `CASE` with an `ELSE` may be null just where the result of one of its branches or
/// that of its `ELSE` may, and has the type that all of them agree on.
pub proof fn law_case_is_null_with_a_result(
    e: Box<CaseExpr>,
    env: EnvView,
    states: Seq<Seq<ParamEntry>>,
    types: Seq<ExprTypeView>,
    other: ExprTypeView,
    after: Seq<ParamEntry>,
)
    requires
        branches_in_turn(e.args@, env, states, types),
        e.defresult is Some,
        inferred(*(e.defresult->0), env, states[e.args@.len() as int], free(), other, after),
    ensures
        expr_outcome(Node::CaseExpr(e), env, states[0], free()).0 matches Ok(t) ==> (t.nullable
            <==> one_may_be_null(types) || other.nullable) && agree_on(
            env.cat,
            kinds(results(e.args@).push(*(e.defresult->0)), types.push(other)),
            t.type_oid,
        ),
        common_type(
            env.cat,
            kinds(results(e.args@).push(*(e.defresult->0)), types.push(other)),
        ) is Some ==> expr_outcome(Node::CaseExpr(e), env, states[0], free()).0 is Ok,
{
    lemma_case(e, env, states, types);
    let all = kinds(results(e.args@).push(*(e.defresult->0)), types.push(other));
    assert(all =~= kinds(results(e.args@), types).push(
        as_text(node_of(e.defresult), other.type_oid),
    ));
    lemma_branch_type(env.cat, all, "CASE branches have no common type"@);
}

/// A `CASE` without an `ELSE` may be null, and has the type that the results of its
/// branches agree on.
pub proof fn law_case_falls_through_to_null(
    e: Box<CaseExpr>,
    env: EnvView,
    states: Seq<Seq<ParamEntry>>,
    types: Seq<ExprTypeView>,
)
    requires
        branches_in_turn(e.args@, env, states, types),
        e.defresult is None,
    ensures
        expr_outcome(Node::CaseExpr(e), env, states[0], free()).0 matches Ok(t) ==> t.nullable
            && agree_on(env.cat, kinds(results(e.args@), types), t.type_oid),
        common_type(env.cat, kinds(results(e.args@), types)) is Some ==> expr_outcome(
            Node::CaseExpr(e),
            env,
            states[0],
            free(),
        ).0 is Ok,
{
    lemma_case(e, env, states, types);
    let all = kinds(results(e.args@), types);
    lemma_branch_type(env.cat, all, "CASE branches have no common type"@);
}

// ── Operators ───────────────────────────────────────────────────────────────

/// The left operand of an operator expression is inferred to be of a type.
pub open spec fn left_is(
    e: AExpr,
    env: EnvView,
    before: Seq<ParamEntry>,
    t: ExprTypeView,
    after: Seq<ParamEntry>,
) -> bool {
    e.lexpr is Some && inferred(*(e.lexpr->0), env, before, free(), t, after)
}

/// The right operand of an operator expression is inferred to be of a type.
pub open spec fn right_is(
    e: AExpr,
    env: EnvView,
    before: Seq<ParamEntry>,
    goal: TypeGoal,
    t: ExprTypeView,
    after: Seq<ParamEntry>,
) -> bool {
    e.rexpr is Some && inferred(*(e.rexpr->0), env, before, goal, t, after)
}

/// What an expression of a known type asks of another one, and nothing where its type is
/// unknown.
pub open spec fn asked_by(t: ExprTypeView) -> TypeGoal {
    if t.type_oid == 705 {
        free()
    } else {
        alike(t.type_oid)
    }
}

pub proof fn lemma_a_expr(e: Box<AExpr>, env: EnvView, ps: Seq<ParamEntry>)
    ensures
        expr_outcome(Node::AExpr(e), env, ps, free()) == checked(
            env.cat,
            a_expr_outcome(*e, env, ps),
            free(),
        ),
{
    let n = Node::AExpr(e);
    let o = node_outcome(n, env, ps, free());
    assert(expr_outcome(n, env, ps, free()) == checked(env.cat, o, free()));
    assert(o == a_expr_outcome(*e, env, ps));
}

pub proof fn lemma_free_operands(
    e: AExpr,
    env: EnvView,
    ps: Seq<ParamEntry>,
    l: ExprTypeView,
    p1: Seq<ParamEntry>,
    r: ExprTypeView,
    p2: Seq<ParamEntry>,
)
    requires
        left_is(e, env, ps, l, p1),
        right_is(e, env, p1, free(), r, p2),
    ensures
        free_operands_outcome(e, env, ps) == (
            Ok::<_, AnalyzeErrorView>((Some(l), Some(r))),
            p2,
        ),
{
    assert(no_goal() == free());
    assert(opt_outcome(e.lexpr, env, ps, free()) == (
        Ok::<Option<ExprTypeView>, AnalyzeErrorView>(Some(l)),
        p1,
    ));
    assert(opt_outcome(e.rexpr, env, p1, free()) == (
        Ok::<Option<ExprTypeView>, AnalyzeErrorView>(Some(r)),
        p2,
    ));
}

pub proof fn lemma_operands(
    e: AExpr,
    env: EnvView,
    ps: Seq<ParamEntry>,
    l: ExprTypeView,
    p1: Seq<ParamEntry>,
    r: ExprTypeView,
    p2: Seq<ParamEntry>,
)
    requires
        left_is(e, env, ps, l, p1),
        right_is(e, env, p1, asked_by(l), r, p2),
    ensures
        operands_outcome(e, env, ps) == (Ok::<_, AnalyzeErrorView>((Some(l), Some(r))), p2),
{
    assert(no_goal() == free());
    assert(opt_outcome(e.lexpr, env, ps, free()) == (
        Ok::<Option<ExprTypeView>, AnalyzeErrorView>(Some(l)),
        p1,
    ));
    assert(goal_from(l.type_oid) == asked_by(l));
    assert(opt_outcome(e.rexpr, env, p1, asked_by(l)) == (
        Ok::<Option<ExprTypeView>, AnalyzeErrorView>(Some(r)),
        p2,
    ));
}

/// An operator between operands of known types has the result type of the operator that
/// the catalog has for them, and is refused where there is none. It may be null where an
/// operand may, and for the operators that look into a JSON value.
pub proof fn law_operator_has_its_result_type(
    e: Box<AExpr>,
    env: EnvView,
    ps: Seq<ParamEntry>,
    l: ExprTypeView,
    p1: Seq<ParamEntry>,
    r: ExprTypeView,
    p2: Seq<ParamEntry>,
    op: Seq<char>,
)
    requires
        e.kind == AExprKind::Op,
        op == joined(texts(e.name@), "."@),
        left_is(*e, env, ps, l, p1),
        right_is(*e, env, p1, free(), r, p2),
        !(*(e.lexpr->0) is RowExpr),
        !(*(e.lexpr->0) is ParamRef),
        !(*(e.rexpr->0) is ParamRef),
        l.type_oid != 705,
        r.type_oid != 705,
    ensures
        match env.cat.find_operator(op, Some(l.type_oid), r.type_oid) {
            Some(found) => inferred(
                Node::AExpr(e),
                env,
                ps,
                free(),
                scalar_type(
                    match found.oprresult {
                        Some(t) => t,
                        None => 705,
                    },
                    l.nullable || r.nullable || op == "->"@ || op == "->>"@ || op == "#>"@ || op
                        == "#>>"@,
                ),
                p2,
            ),
            None => expr_outcome(Node::AExpr(e), env, ps, free()).0 matches Err(
                AnalyzeErrorView::UndefinedOperator(_),
            ),
        },
{
    lemma_a_expr(e, env, ps);
    lemma_free_operands(*e, env, ps, l, p1, r, p2);
    assert(compared_rows(*e, op) is None);
    assert(a_expr_outcome(*e, env, ps) == operator_outcome(*e, op, env, ps));
}

/// `IN` and `BETWEEN` are boolean and may be null just where the left operand or a member
/// of the list may. The members are held against a known type of the left operand.
pub proof fn law_list_test_is_null_with_a_member(
    e: Box<AExpr>,
    env: EnvView,
    l: ExprTypeView,
    ps: Seq<ParamEntry>,
    items: Vec<Node>,
    states: Seq<Seq<ParamEntry>>,
    types: Seq<ExprTypeView>,
)
    requires
        e.kind == AExprKind::In || e.kind == AExprKind::Between || e.kind == AExprKind::NotBetween
            || e.kind == AExprKind::BetweenSym || e.kind == AExprKind::NotBetweenSym,
        left_is(*e, env, ps, l, states[0]),
        e.rexpr is Some,
        *(e.rexpr->0) == Node::List(items),
        in_turn(items@, env, asked_by(l), states, types),
    ensures
        inferred(
            Node::AExpr(e),
            env,
            ps,
            free(),
            scalar_type(16, l.nullable || one_may_be_null(types)),
            states[items@.len() as int],
        ),
{
    lemma_a_expr(e, env, ps);
    lemma_slots(items@, env, asked_by(l), states, types);
    assert(no_goal() == free());
    assert(goal_from(l.type_oid) == asked_by(l));
    assert(a_expr_outcome(*e, env, ps) == list_outcome(*e, env, ps));
    assert(opt_outcome(e.lexpr, env, ps, free()) == (
        Ok::<Option<ExprTypeView>, AnalyzeErrorView>(Some(l)),
        states[0],
    ));
    assert(members_outcome(e.rexpr, env, states[0], asked_by(l)) == slots_from(
        items@,
        0,
        Seq::empty(),
        env,
        states[0],
        asked_by(l),
    ));
}

/// `op ANY(...)` and `op ALL(...)` are boolean and may be null just where one of the two
/// sides may.
pub proof fn law_any_test_is_null_with_a_side(
    e: Box<AExpr>,
    env: EnvView,
    ps: Seq<ParamEntry>,
    l: ExprTypeView,
    p1: Seq<ParamEntry>,
    r: ExprTypeView,
    p2: Seq<ParamEntry>,
)
    requires
        e.kind == AExprKind::OpAny || e.kind == AExprKind::OpAll,
        left_is(*e, env, ps, l, p1),
        right_is(*e, env, p1, free(), r, p2),
    ensures
        expr_outcome(Node::AExpr(e), env, ps, free()).0 == Ok::<_, AnalyzeErrorView>(
            scalar_type(16, l.nullable || r.nullable),
        ),
        l.type_oid != 705 && r.type_oid == 705 ==> (env.cat.array_type_of(l.type_oid) matches Some(
            a,
        ) ==> expr_outcome(Node::AExpr(e), env, ps, free()).1 == expr_outcome(
            *(e.rexpr->0),
            env,
            p2,
            alike(a),
        ).1),
        l.type_oid == 705 && r.type_oid != 705 ==> (env.cat.element_of(r.type_oid) matches Some(
            t,
        ) ==> expr_outcome(Node::AExpr(e), env, ps, free()).1 == expr_outcome(
            *(e.lexpr->0),
            env,
            p2,
            alike(t),
        ).1),
        l.type_oid != 705 && r.type_oid != 705 ==> expr_outcome(
            Node::AExpr(e),
            env,
            ps,
            free(),
        ).1 == p2,
{
    lemma_a_expr(e, env, ps);
    lemma_free_operands(*e, env, ps, l, p1, r, p2);
    assert(a_expr_outcome(*e, env, ps) == any_outcome(*e, env, ps));
    assert forall|g: u32| implicit_goal(g) == #[trigger] alike(g) by {}
    if l.type_oid != 705 && r.type_oid == 705 {
        if let Some(a) = env.cat.array_type_of(l.type_oid) {
            assert(visited_opt(e.rexpr, env, p2, implicit_goal(a)) == expr_outcome(
                *(e.rexpr->0),
                env,
                p2,
                alike(a),
            ).1);
        }
    }
    if l.type_oid == 705 && r.type_oid != 705 {
        if let Some(t) = env.cat.element_of(r.type_oid) {
            assert(visited_opt(e.lexpr, env, p2, implicit_goal(t)) == expr_outcome(
                *(e.lexpr->0),
                env,
                p2,
                alike(t),
            ).1);
        }
    }
}

/// A comparison of two rows field by field is boolean and may be null just where one of
/// the fields may.
pub proof fn law_row_comparison_is_null_with_a_field(
    e: Box<AExpr>,
    env: EnvView,
    left: Vec<Node>,
    right: Vec<Node>,
    states: Seq<Seq<ParamEntry>>,
    types: Seq<ExprTypeView>,
    later: Seq<Seq<ParamEntry>>,
    others: Seq<ExprTypeView>,
    op: Seq<char>,
)
    requires
        e.kind == AExprKind::Op,
        op == joined(texts(e.name@), "."@),
        op == "="@ || op == "<>"@ || op == "<"@ || op == ">"@ || op == "<="@ || op == ">="@,
        e.lexpr is Some,
        *(e.lexpr->0) == Node::RowExpr(left),
        e.rexpr is Some,
        *(e.rexpr->0) == Node::RowExpr(right),
        left@.len() == right@.len(),
        in_turn(left@, env, free(), states, types),
        in_turn(right@, env, free(), later, others),
        later[0] == states[left@.len() as int],
    ensures
        expr_outcome(Node::AExpr(e), env, states[0], free()).0 == Ok::<_, AnalyzeErrorView>(
            scalar_type(16, one_may_be_null(types) || one_may_be_null(others)),
        ),
{
    lemma_a_expr(e, env, states[0]);
    lemma_slots(left@, env, free(), states, types);
    lemma_slots(right@, env, free(), later, others);
    assert(no_goal() == free());
    assert(compared_rows(*e, op) == Some((left@, right@)));
    assert(a_expr_outcome(*e, env, states[0]) == rows_outcome(*e, op, env, states[0]));
}

/// `NULLIF` of operands of known types may be null and has the type of the first. It is
/// refused just where the two cannot be compared.
pub proof fn law_nullif_has_the_type_of_the_first(
    e: Box<AExpr>,
    env: EnvView,
    ps: Seq<ParamEntry>,
    l: ExprTypeView,
    p1: Seq<ParamEntry>,
    r: ExprTypeView,
    p2: Seq<ParamEntry>,
)
    requires
        e.kind == AExprKind::NullIf,
        left_is(*e, env, ps, l, p1),
        right_is(*e, env, p1, asked_by(l), r, p2),
        l.type_oid != 705,
        r.type_oid != 705,
    ensures
        if env.cat.find_operator("="@, Some(l.type_oid), r.type_oid) is Some {
            inferred(Node::AExpr(e), env, ps, free(), scalar_type(l.type_oid, true), p2)
        } else {
            expr_outcome(Node::AExpr(e), env, ps, free()).0 matches Err(
                AnalyzeErrorView::TypeMismatch { .. },
            )
        },
{
    lemma_a_expr(e, env, ps);
    lemma_operands(*e, env, ps, l, p1, r, p2);
    assert(a_expr_outcome(*e, env, ps) == nullif_outcome(*e, env, ps));
}

// ── Casts, calls and subqueries ─────────────────────────────────────────────

/// A cast has the type that is written and may be null just where its argument may.
pub proof fn law_cast_has_the_written_type(
    cast: Box<TypeCast>,
    env: EnvView,
    ps: Seq<ParamEntry>,
    t: ExprTypeView,
    after: Seq<ParamEntry>,
    target: u32,
)
    requires
        cast.arg is Some,
        inferred(*(cast.arg->0), env, ps, free(), t, after),
        written_type(env.cat, cast.target) == Ok::<u32, AnalyzeErrorView>(target),
    ensures
        expr_outcome(Node::TypeCast(cast), env, ps, free()).0 == Ok::<_, AnalyzeErrorView>(
            scalar_type(target, t.nullable),
        ),
        !(*(cast.arg->0) is ParamRef) ==> expr_outcome(Node::TypeCast(cast), env, ps, free()).1
            == after,
{
    let n = Node::TypeCast(cast);
    let o = node_outcome(n, env, ps, free());
    assert(expr_outcome(n, env, ps, free()) == checked(env.cat, o, free()));
    assert(no_goal() == free());
    assert(o == cast_outcome(*cast, env, ps));
}

/// A call of a function that resolves has the type that it resolves to.
/// It is never null for `count`. Another aggregate may be null where there is a filter, no
/// `GROUP BY` or an empty grouping set, and else where an argument may. A strict function of
/// `pg_catalog` may be null where an argument may, or where it is one that looks for
/// something. A function of another schema may always be null.
pub proof fn law_call_is_null_by_its_kind(
    func: Box<FuncCall>,
    env: EnvView,
    states: Seq<Seq<ParamEntry>>,
    types: Seq<ExprTypeView>,
    schema: Option<Seq<char>>,
    name: Seq<char>,
    f: ResolvedFunctionView,
)
    requires
        in_turn(func.args@, env, free(), states, types),
        qualified(texts(func.funcname@)) == Some((schema, name)),
        resolve(env.cat, schema, name, oids(types)) == Ok::<_, AnalyzeErrorView>(f),
        f.is_aggregate ==> nested_error(func.args@, 0, env.cat) is None,
        func.over is None,
    ensures
        expr_outcome(Node::FuncCall(func), env, states[0], free()).0 matches Ok(t) && t.type_oid
            == f.return_type_oid && (f.is_aggregate && name == "count"@ ==> !t.nullable) && (
        f.is_aggregate && name != "count"@ ==> (t.nullable <==> func.agg_filter is Some
            || !env.nulls.has_group_by || env.nulls.has_empty_grouping_set || one_may_be_null(
            types,
        ))) && (!f.is_aggregate && f.schema != "pg_catalog"@ ==> t.nullable) && (!f.is_aggregate
            && f.is_strict && f.schema == "pg_catalog"@ && one_may_be_null(types) ==> t.nullable),
{
    let n = Node::FuncCall(func);
    let o = node_outcome(n, env, states[0], free());
    assert(expr_outcome(n, env, states[0], free()) == checked(env.cat, o, free()));
    lemma_slots(func.args@, env, free(), states, types);
    assert(no_goal() == free());
    assert(o == call_outcome(*func, env, states[0]));
}

/// `lag` and `lead` over a window may be null, unless neither their argument nor the
/// default for a missing row may. The other functions that read another row may be null.
pub proof fn law_window_functions_of_values_may_be_null(
    func: Box<FuncCall>,
    env: EnvView,
    states: Seq<Seq<ParamEntry>>,
    types: Seq<ExprTypeView>,
    schema: Option<Seq<char>>,
    name: Seq<char>,
    f: ResolvedFunctionView,
)
    requires
        in_turn(func.args@, env, free(), states, types),
        qualified(texts(func.funcname@)) == Some((schema, name)),
        resolve(env.cat, schema, name, oids(types)) == Ok::<_, AnalyzeErrorView>(f),
        !f.is_aggregate,
        func.over is Some,
        name == "lag"@ || name == "lead"@ || name == "first_value"@ || name == "last_value"@
            || name == "nth_value"@,
    ensures
        expr_outcome(Node::FuncCall(func), env, states[0], free()).0 matches Ok(t) && t.type_oid
            == f.return_type_oid && (t.nullable <==> !((name == "lag"@ || name == "lead"@)
            && types.len() >= 3 && !types[0].nullable && !types[2].nullable)),
{
    let n = Node::FuncCall(func);
    let o = node_outcome(n, env, states[0], free());
    assert(expr_outcome(n, env, states[0], free()) == checked(env.cat, o, free()));
    lemma_slots(func.args@, env, free(), states, types);
    assert(no_goal() == free());
    assert(o == call_outcome(*func, env, states[0]));
    if types.len() >= 3 {
        assert(slots_of(types)[0].nullable == types[0].nullable);
        assert(slots_of(types)[2].nullable == types[2].nullable);
    }
}

/// `EXISTS` over a subquery is boolean and never null. `ARRAY` of a subquery is never null
/// and is an array over the type of its column. `ANY` and `ALL` over a subquery with as many
/// columns as the left side are boolean and may be null. A subquery as a value has the type
/// of its first column and may be null, unless it surely has one row and its column is never
/// null.
pub proof fn law_subquery_by_its_form(
    sub: Box<SubLink>,
    env: EnvView,
    ps: Seq<ParamEntry>,
)
    requires
        sub.subselect is Some,
        *(sub.subselect->0) is SelectStmt,
        sub.analysis.outcome is Ok,
        sub.analysis.outcome->Ok_0@.len() > 0,
    ensures
        sub.kind == SubLinkType::Exists ==> expr_outcome(Node::SubLink(sub), env, ps, free()).0
            == Ok::<_, AnalyzeErrorView>(scalar_type(16, false)),
        sub.kind == SubLinkType::Array ==> (env.cat.array_type_of(
            sub.analysis.outcome->Ok_0@[0].type_oid,
        ) matches Some(a) ==> expr_outcome(Node::SubLink(sub), env, ps, free()).0 == Ok::<
            _,
            AnalyzeErrorView,
        >(scalar_type(a, false))),
        sub.kind == SubLinkType::Expr ==> (expr_outcome(
            Node::SubLink(sub),
            env,
            ps,
            free(),
        ).0 matches Ok(t) && t.type_oid == sub.analysis.outcome->Ok_0@[0].type_oid && (
        sub.analysis.outcome->Ok_0@[0].nullable ==> t.nullable) && (
        (*(sub.subselect->0))->SelectStmt_0.group_clause@.len() > 0 ==> t.nullable)),
        (sub.kind == SubLinkType::Any || sub.kind == SubLinkType::All) && (sub.testexpr is Some
            ==> !(*(sub.testexpr->0) is RowExpr)) ==> (if sub.analysis.outcome->Ok_0@.len() == 1 {
            expr_outcome(Node::SubLink(sub), env, ps, free()).0 == Ok::<_, AnalyzeErrorView>(
                scalar_type(16, true),
            )
        } else {
            expr_outcome(Node::SubLink(sub), env, ps, free()).0 matches Err(
                AnalyzeErrorView::Invalid(_),
            )
        }),
        sub.testexpr matches Some(row) ==> (*row matches Node::RowExpr(fields) ==> (sub.kind
            == SubLinkType::Any || sub.kind == SubLinkType::All ==> (
        sub.analysis.outcome->Ok_0@.len() == fields@.len() <==> expr_outcome(
            Node::SubLink(sub),
            env,
            ps,
            free(),
        ).0 is Ok))),
{
    let n = Node::SubLink(sub);
    let o = node_outcome(n, env, ps, free());
    assert(expr_outcome(n, env, ps, free()) == checked(env.cat, o, free()));
    assert(o == sublink_outcome(*sub, env.cat, ps));
}

} // verus!
