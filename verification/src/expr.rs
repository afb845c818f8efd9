//! Expression type inference.
//!
//! Every expression is evaluated against a [`TypeGoal`], the type that its
//! context expects. A parameter whose type is not known yet takes the type of the
//! goal; any other result must be coercible to it.

use crate::ast::{
    kind_text, part_names, qualified, AExpr, AExprKind, AIndices, AIndirection, CaseExpr, CaseWhen,
    ColumnRef, ConstValue, FuncCall, MinMaxExpr, NamePart, Node, ParamEvent, SelectStmt, SubLink,
    SubLinkType, SubqueryColumn, TypeCast, TypeName, WindowDef,
};
use crate::catalog::{CatalogView, PgCatalog};
use crate::coerce::{can_coerce, coercible, common_type, concrete, CoercionContext};
use crate::error::{AnalyzeError, AnalyzeErrorView};
use crate::expr_type::{find_field, lifted, scalar_type, ExprType, ExprTypeView, RecordFieldView};
use crate::functions::{
    never_null, nullable_operator, nullable_though_strict, resolve, ResolvedFunctionView,
};
use crate::lookup::{find_attribute, opt_str};
use crate::nullability::{NullabilityContext, NullabilityView};
use crate::param_collector::{
    param_inferred, param_nullable, param_recorded, param_seen, param_type, ParamEntry,
};
use crate::pg_catalog::{
    PgTypeView, ProKind, TypCategory, BOOL, BYTEA, INT4, NUMERIC, RECORD, TEXT, UNKNOWN,
};
use crate::scope::{resolved_column, source_named, QualifiedNameView, Scope, SourceView};
use crate::text::{concat2, concat3, concat4, decimal, decimal_text, joined, same_text, texts};
use vstd::prelude::*;

verus! {

// ── What is expected of an expression ───────────────────────────────────────

/// The type that the context of an expression expects.
#[derive(Debug, Clone, Copy, PartialEq, Eq, Structural)]
pub struct TypeGoal {
    pub type_oid: u32,
    pub coercion: CoercionContext,
}

/// No type is expected.
pub open spec fn no_goal() -> TypeGoal {
    TypeGoal { type_oid: UNKNOWN, coercion: CoercionContext::Implicit }
}

/// A type is expected to which only implicit casts may lead.
pub open spec fn implicit_goal(type_oid: u32) -> TypeGoal {
    TypeGoal { type_oid, coercion: CoercionContext::Implicit }
}

/// A type is expected to which assignment casts may lead too.
pub open spec fn assignment_goal(type_oid: u32) -> TypeGoal {
    TypeGoal { type_oid, coercion: CoercionContext::Assignment }
}

impl TypeGoal {
    /// No type is expected.
    pub fn none() -> (r: TypeGoal)
        ensures
            r == no_goal(),
    {
        TypeGoal { type_oid: UNKNOWN, coercion: CoercionContext::Implicit }
    }

    /// A type is expected to which only implicit casts may lead.
    pub fn implicit(type_oid: u32) -> (r: TypeGoal)
        ensures
            r == implicit_goal(type_oid),
    {
        TypeGoal { type_oid, coercion: CoercionContext::Implicit }
    }

    /// A type is expected to which assignment casts may lead too.
    pub fn assignment(type_oid: u32) -> (r: TypeGoal)
        ensures
            r == assignment_goal(type_oid),
    {
        TypeGoal { type_oid, coercion: CoercionContext::Assignment }
    }

    /// Whether a type is expected at all.
    pub fn has_expectation(&self) -> (r: bool)
        ensures
            r == (self.type_oid != UNKNOWN),
    {
        self.type_oid != UNKNOWN
    }
}

/// The goal that an operand sets for the other one.
pub open spec fn goal_from(type_oid: u32) -> TypeGoal {
    if type_oid != UNKNOWN {
        implicit_goal(type_oid)
    } else {
        no_goal()
    }
}

pub(crate) fn operand_goal(type_oid: u32) -> (r: TypeGoal)
    ensures
        r == goal_from(type_oid),
{
    if type_oid != UNKNOWN {
        TypeGoal::implicit(type_oid)
    } else {
        TypeGoal::none()
    }
}

// ── Results ─────────────────────────────────────────────────────────────────

/// What an expression is inferred to be, and what is then known of parameters.
pub type Outcome = (Result<ExprTypeView, AnalyzeErrorView>, Seq<ParamEntry>);

/// What a call returned, over the views.
pub open spec fn result_view(r: Result<ExprType, AnalyzeError>) -> Result<
    ExprTypeView,
    AnalyzeErrorView,
> {
    match r {
        Ok(t) => Ok(t@),
        Err(e) => Err(e@),
    }
}

/// A type and whether it may be null.
#[derive(Debug, Clone, Copy, PartialEq, Eq, Structural)]
pub struct TypeSlot {
    pub type_oid: u32,
    pub nullable: bool,
}

/// Types and nullability of several expressions, or the first error.
pub type Slots = (Result<Seq<TypeSlot>, AnalyzeErrorView>, Seq<ParamEntry>);

/// What a call returned, over the views.
pub open spec fn slots_view(r: Result<Vec<TypeSlot>, AnalyzeError>) -> Result<
    Seq<TypeSlot>,
    AnalyzeErrorView,
> {
    match r {
        Ok(v) => Ok(v@),
        Err(e) => Err(e@),
    }
}

/// Some of the expressions may be null.
pub open spec fn some_nullable(s: Seq<TypeSlot>) -> bool {
    exists|i: int| 0 <= i < s.len() && (#[trigger] s[i]).nullable
}

/// All of the expressions may be null.
pub open spec fn all_nullable(s: Seq<TypeSlot>) -> bool {
    forall|i: int| 0 <= i < s.len() ==> (#[trigger] s[i]).nullable
}

/// The types of several expressions.
pub open spec fn slot_types(s: Seq<TypeSlot>) -> Seq<u32> {
    s.map_values(|t: TypeSlot| t.type_oid)
}

pub(crate) fn any_slot_nullable(s: &Vec<TypeSlot>) -> (r: bool)
    ensures
        r == some_nullable(s@),
{
    let mut i: usize = 0;
    while i < s.len()
        invariant
            i <= s@.len(),
            forall|j: int| 0 <= j < i ==> !(#[trigger] s@[j]).nullable,
        decreases s.len() - i,
    {
        if s[i].nullable {
            return true;
        }
        i = i + 1;
    }
    false
}

pub(crate) fn all_slots_nullable(s: &Vec<TypeSlot>) -> (r: bool)
    ensures
        r == all_nullable(s@),
{
    let mut i: usize = 0;
    while i < s.len()
        invariant
            i <= s@.len(),
            forall|j: int| 0 <= j < i ==> (#[trigger] s@[j]).nullable,
        decreases s.len() - i,
    {
        if !s[i].nullable {
            return false;
        }
        i = i + 1;
    }
    true
}

pub(crate) fn types_of_slots(s: &Vec<TypeSlot>) -> (r: Vec<u32>)
    ensures
        r@ == slot_types(s@),
{
    let mut r: Vec<u32> = Vec::new();
    let mut i: usize = 0;
    while i < s.len()
        invariant
            i <= s@.len(),
            r@ == slot_types(s@).take(i as int),
        decreases s.len() - i,
    {
        r.push(s[i].type_oid);
        proof {
            assert(slot_types(s@).take(i + 1) =~= slot_types(s@).take(i as int).push(
                slot_types(s@)[i as int],
            ));
        }
        i = i + 1;
    }
    proof {
        assert(slot_types(s@).take(i as int) =~= slot_types(s@));
    }
    r
}

/// Where an expression stands: what it can name, what the query does to
/// nullability, and the catalog.
pub struct EnvView {
    pub sources: Seq<SourceView>,
    pub nulls: NullabilityView,
    pub cat: CatalogView,
}

/// Where an expression stands.
pub open spec fn env_of(scope: Scope, nulls: NullabilityContext, snapshot: PgCatalog) -> EnvView {
    EnvView { sources: scope@, nulls: nulls@, cat: snapshot@ }
}

/// An expression that stands alone.
pub open spec fn bare_env(cat: CatalogView) -> EnvView {
    EnvView { sources: Seq::empty(), nulls: NullabilityView::plain(), cat }
}

// ── Names of types in messages ──────────────────────────────────────────────

/// How a list of texts looks in a message: quoted and escaped, in brackets.
pub uninterp spec fn debug_text(parts: Seq<Seq<char>>) -> Seq<char>;

/// The `Debug` form of a `Vec<String>` by `format!`: a function of the texts alone.
#[verifier::external_body]
pub(crate) fn debug_list(parts: &Vec<String>) -> (r: String)
    ensures
        r@ == debug_text(texts(parts@)),
{
    format!("{:?}", parts)
}

/// The name of a type, or its number behind `prefix`.
pub open spec fn name_or(c: CatalogView, oid: u32, prefix: Seq<char>) -> Seq<char> {
    match c.get_type(oid) {
        Some(t) => t.typname,
        None => prefix + decimal_text(oid as nat),
    }
}

pub(crate) fn type_name_or(snapshot: &PgCatalog, oid: u32, prefix: &str) -> (r: String)
    ensures
        r@ == name_or(snapshot@, oid, prefix@),
{
    match snapshot.get_type(oid) {
        Some(t) => t.typname.clone(),
        None => concat2(prefix, decimal(oid as u64).as_str()),
    }
}

/// A type as `schema.name`, or its number.
pub open spec fn qualified_type_text(c: CatalogView, oid: u32) -> Seq<char> {
    match c.get_type(oid) {
        Some(t) => crate::functions::schema_text(c, t.typnamespace) + "."@ + t.typname,
        None => "unknown("@ + decimal_text(oid as nat) + ")"@,
    }
}

/// A type as `schema.name`, or its number.
pub fn type_oid_display(oid: u32, snapshot: &PgCatalog) -> (r: String)
    ensures
        r@ == qualified_type_text(snapshot@, oid),
{
    match snapshot.get_type(oid) {
        Some(t) => {
            let schema: String = crate::functions::schema_name(snapshot, t.typnamespace);
            concat3(schema.as_str(), ".", t.typname.as_str())
        },
        None => concat3("unknown(", decimal(oid as u64).as_str(), ")"),
    }
}

/// The name of a type, or its number.
pub fn type_display_name(oid: u32, snapshot: &PgCatalog) -> (r: String)
    ensures
        r@ == name_or(snapshot@, oid, "oid:"@),
{
    type_name_or(snapshot, oid, "oid:")
}

// ── The goal ────────────────────────────────────────────────────────────────

/// Whether an expression of a type meets a goal: none is set, no type is known of
/// the expression, or it is coercible.
pub open spec fn meets_goal(c: CatalogView, type_oid: u32, goal: TypeGoal) -> bool {
    goal.type_oid == UNKNOWN || type_oid == UNKNOWN || coercible(
        c,
        type_oid,
        goal.type_oid,
        goal.coercion,
    )
}

/// The error for an expression that does not meet its goal.
pub open spec fn goal_error(c: CatalogView, type_oid: u32, goal: TypeGoal) -> AnalyzeErrorView {
    let actual = name_or(c, type_oid, "oid:"@);
    let expected = name_or(c, goal.type_oid, "oid:"@);
    AnalyzeErrorView::TypeMismatch {
        actual,
        expected,
        context: "cannot coerce "@ + actual + " to "@ + expected,
    }
}

/// Checks that an expression meets its goal.
///
/// # Errors
///
/// Its type cannot be coerced to the one that the goal expects.
pub fn check_goal_compatibility(result: &ExprType, goal: &TypeGoal, snapshot: &PgCatalog) -> (r:
    Result<(), AnalyzeError>)
    ensures
        r is Ok <==> meets_goal(snapshot@, result.type_oid, *goal),
        r matches Err(e) ==> e@ == goal_error(snapshot@, result.type_oid, *goal),
{
    if !goal.has_expectation() || result.type_oid == UNKNOWN || result.type_oid == goal.type_oid {
        return Ok(());
    }
    if can_coerce(result.type_oid, goal.type_oid, goal.coercion, snapshot) {
        return Ok(());
    }
    let actual: String = type_display_name(result.type_oid, snapshot);
    let expected: String = type_display_name(goal.type_oid, snapshot);
    let context: String = concat4("cannot coerce ", actual.as_str(), " to ", expected.as_str());
    Err(AnalyzeError::TypeMismatch { actual, expected, context })
}

/// The outcome of an expression, held against its goal.
pub open spec fn checked(c: CatalogView, o: Outcome, goal: TypeGoal) -> Outcome {
    match o.0 {
        Ok(t) => if meets_goal(c, t.type_oid, goal) {
            o
        } else {
            (Err(goal_error(c, t.type_oid, goal)), o.1)
        },
        Err(_) => o,
    }
}

pub(crate) fn check_result(
    r: Result<ExprType, AnalyzeError>,
    goal: TypeGoal,
    snapshot: &PgCatalog,
) -> (res:
    Result<ExprType, AnalyzeError>)
    ensures
        forall|ps: Seq<ParamEntry>|
            (result_view(res), ps) == #[trigger] checked(
                snapshot@,
                (result_view(r), ps),
                goal,
            ),
{
    match r {
        Ok(t) => match check_goal_compatibility(&t, &goal, snapshot) {
            Ok(_) => Ok(t),
            Err(e) => Err(e),
        },
        Err(e) => Err(e),
    }
}

// ── Aggregates and window functions ─────────────────────────────────────────

/// Which kinds of function calls an expression holds.
#[derive(Debug, Clone, Copy, PartialEq, Eq, Structural)]
pub struct FuncKindPresence {
    pub has_aggregate: bool,
    pub has_window: bool,
}

/// Whether some of the routines is an aggregate.
pub open spec fn some_aggregate(c: CatalogView, oids: Seq<u32>) -> bool {
    exists|i: int|
        0 <= i < oids.len() && (c.get_proc(#[trigger] oids[i]) matches Some(f) && f.prokind
            == ProKind::Aggregate)
}

/// Whether a name stands for an aggregate.
pub open spec fn names_aggregate(c: CatalogView, parts: Seq<Seq<char>>) -> bool {
    match qualified(parts) {
        Some((schema, name)) => name.len() > 0 && some_aggregate(
            c,
            c.find_functions(schema, name),
        ),
        None => false,
    }
}

/// What an expression adds to the kinds that were met before it.
pub open spec fn kinds_in(n: Node, c: CatalogView, acc: FuncKindPresence) -> FuncKindPresence
    decreases n, 0nat,
{
    match n {
        Node::FuncCall(fc) => {
            let here = if fc.over is Some {
                FuncKindPresence { has_window: true, ..acc }
            } else if names_aggregate(c, texts(fc.funcname@)) {
                FuncKindPresence { has_aggregate: true, ..acc }
            } else {
                acc
            };
            let a = kinds_from(fc.args@, 0, c, here);
            let b = kinds_opt(fc.agg_filter, c, a);
            kinds_from(fc.agg_order@, 0, c, b)
        },
        Node::AExpr(e) => kinds_opt(e.rexpr, c, kinds_opt(e.lexpr, c, acc)),
        Node::BoolExpr(args) => kinds_from(args@, 0, c, acc),
        Node::NullTest(arg) => kinds_opt(arg, c, acc),
        Node::BooleanTest(arg) => kinds_opt(arg, c, acc),
        Node::CoalesceExpr(args) => kinds_from(args@, 0, c, acc),
        Node::CaseExpr(e) => kinds_opt(e.defresult, c, kinds_from(e.args@, 0, c, acc)),
        Node::CaseWhen(w) => kinds_opt(w.result, c, kinds_opt(w.expr, c, acc)),
        Node::TypeCast(t) => kinds_opt(t.arg, c, acc),
        Node::List(items) => kinds_from(items@, 0, c, acc),
        _ => acc,
    }
}

pub open spec fn kinds_opt(
    n: Option<Box<Node>>,
    c: CatalogView,
    acc: FuncKindPresence,
) -> FuncKindPresence
    decreases n, 0nat,
{
    match n {
        Some(b) => kinds_in(*b, c, acc),
        None => acc,
    }
}

pub open spec fn kinds_from(
    nodes: Seq<Node>,
    i: int,
    c: CatalogView,
    acc: FuncKindPresence,
) -> FuncKindPresence
    decreases nodes, nodes.len() - i,
{
    if i < 0 || i >= nodes.len() {
        acc
    } else {
        kinds_from(nodes, i + 1, c, kinds_in(nodes[i], c, acc))
    }
}

fn any_aggregate(snapshot: &PgCatalog, oids: &Vec<u32>) -> (r: bool)
    ensures
        r == some_aggregate(snapshot@, oids@),
{
    let mut i: usize = 0;
    while i < oids.len()
        invariant
            i <= oids@.len(),
            forall|j: int|
                0 <= j < i ==> !(snapshot@.get_proc(#[trigger] oids@[j]) matches Some(f)
                    && f.prokind == ProKind::Aggregate),
        decreases oids.len() - i,
    {
        match snapshot.pg_proc.get(oids[i]) {
            Some(f) => {
                if f.prokind == ProKind::Aggregate {
                    proof {
                        assert(snapshot@.get_proc(oids@[i as int]) is Some);
                    }
                    return true;
                }
            },
            None => {},
        }
        i = i + 1;
    }
    false
}

/// The parts of a name that may be qualified by a schema.
pub(crate) fn split_name(parts: &Vec<String>) -> (r: Option<(Option<&str>, &str)>)
    ensures
        match r {
            Some((s, n)) => qualified(texts(parts@)) == Some((opt_str(s), n@)),
            None => qualified(texts(parts@)) is None,
        },
{
    if parts.len() == 1 {
        Some((None, parts[0].as_str()))
    } else if parts.len() == 2 {
        Some((Some(parts[0].as_str()), parts[1].as_str()))
    } else {
        None
    }
}

fn is_aggregate_name(snapshot: &PgCatalog, parts: &Vec<String>) -> (r: bool)
    ensures
        r == names_aggregate(snapshot@, texts(parts@)),
{
    match split_name(parts) {
        Some((schema, name)) => {
            if name.is_empty() {
                return false;
            }
            let oids: Vec<u32> = snapshot.find_functions(schema, name);
            any_aggregate(snapshot, &oids)
        },
        None => false,
    }
}

/// Which kinds of function calls an expression holds, outside its subqueries.
pub fn detect_func_kinds(node: &Node, snapshot: &PgCatalog) -> (r: FuncKindPresence)
    ensures
        r == kinds_in(
            *node,
            snapshot@,
            FuncKindPresence { has_aggregate: false, has_window: false },
        ),
{
    walk(node, snapshot, FuncKindPresence { has_aggregate: false, has_window: false })
}

fn walk(node: &Node, snapshot: &PgCatalog, acc: FuncKindPresence) -> (r: FuncKindPresence)
    ensures
        r == kinds_in(*node, snapshot@, acc),
    decreases node, 0nat,
{
    match node {
        Node::FuncCall(fc) => {
            let here: FuncKindPresence = if fc.over.is_some() {
                FuncKindPresence { has_aggregate: acc.has_aggregate, has_window: true }
            } else if is_aggregate_name(snapshot, &fc.funcname) {
                FuncKindPresence { has_aggregate: true, has_window: acc.has_window }
            } else {
                acc
            };
            let a: FuncKindPresence = walk_list(&fc.args, snapshot, here);
            let b: FuncKindPresence = walk_opt(&fc.agg_filter, snapshot, a);
            walk_list(&fc.agg_order, snapshot, b)
        },
        Node::AExpr(e) => {
            let l: FuncKindPresence = walk_opt(&e.lexpr, snapshot, acc);
            walk_opt(&e.rexpr, snapshot, l)
        },
        Node::BoolExpr(args) => walk_list(args, snapshot, acc),
        Node::NullTest(arg) => walk_opt(arg, snapshot, acc),
        Node::BooleanTest(arg) => walk_opt(arg, snapshot, acc),
        Node::CoalesceExpr(args) => walk_list(args, snapshot, acc),
        Node::CaseExpr(e) => {
            let a: FuncKindPresence = walk_list(&e.args, snapshot, acc);
            walk_opt(&e.defresult, snapshot, a)
        },
        Node::CaseWhen(w) => {
            let a: FuncKindPresence = walk_opt(&w.expr, snapshot, acc);
            walk_opt(&w.result, snapshot, a)
        },
        Node::TypeCast(t) => walk_opt(&t.arg, snapshot, acc),
        Node::List(items) => walk_list(items, snapshot, acc),
        _ => acc,
    }
}

fn walk_opt(node: &Option<Box<Node>>, snapshot: &PgCatalog, acc: FuncKindPresence) -> (r:
    FuncKindPresence)
    ensures
        r == kinds_opt(*node, snapshot@, acc),
    decreases node, 0nat,
{
    match node {
        Some(b) => walk(b, snapshot, acc),
        None => acc,
    }
}

fn walk_list(
    nodes: &Vec<Node>,
    snapshot: &PgCatalog,
    acc: FuncKindPresence,
) -> (r: FuncKindPresence)
    ensures
        r == kinds_from(nodes@, 0, snapshot@, acc),
    decreases nodes, 0nat,
{
    let mut out: FuncKindPresence = acc;
    let mut i: usize = 0;
    while i < nodes.len()
        invariant
            i <= nodes@.len(),
            kinds_from(nodes@, 0, snapshot@, acc) == kinds_from(nodes@, i as int, snapshot@, out),
        decreases nodes.len() - i,
    {
        proof {
            assert(decreases_to!(nodes => nodes@[i as int]));
        }
        out = walk(&nodes[i], snapshot, out);
        i = i + 1;
    }
    out
}

/// The names of aggregates that give one row where there is no `GROUP BY`.
pub open spec fn well_known_aggregate(name: Seq<char>) -> bool {
    name == "count"@ || name == "sum"@ || name == "avg"@ || name == "min"@ || name == "max"@ || name
        == "array_agg"@ || name == "string_agg"@ || name == "bool_and"@ || name == "bool_or"@
        || name == "every"@ || name == "json_agg"@ || name == "jsonb_agg"@ || name
        == "json_object_agg"@ || name == "jsonb_object_agg"@ || name == "bit_and"@ || name
        == "bit_or"@
}

fn is_well_known_aggregate(name: &str) -> (r: bool)
    ensures
        r == well_known_aggregate(name@),
{
    same_text(name, "count") || same_text(name, "sum") || same_text(name, "avg") || same_text(
        name,
        "min",
    ) || same_text(name, "max") || same_text(name, "array_agg") || same_text(name, "string_agg")
        || same_text(name, "bool_and") || same_text(name, "bool_or") || same_text(name, "every")
        || same_text(name, "json_agg") || same_text(name, "jsonb_agg") || same_text(
        name,
        "json_object_agg",
    ) || same_text(name, "jsonb_object_agg") || same_text(name, "bit_and") || same_text(
        name,
        "bit_or",
    )
}

/// Whether an expression is or holds a call of a well-known aggregate.
pub open spec fn contains_aggregate(n: Node) -> bool
    decreases n, 0nat,
{
    match n {
        Node::FuncCall(f) => f.agg_star || f.agg_order@.len() > 0 || (f.funcname@.len() > 0
            && well_known_aggregate(f.funcname@.last()@)),
        Node::AExpr(e) => opt_contains_aggregate(e.lexpr) || opt_contains_aggregate(e.rexpr),
        Node::TypeCast(t) => opt_contains_aggregate(t.arg),
        Node::CoalesceExpr(args) => some_contains_aggregate(args@, 0),
        Node::CaseExpr(e) => some_branch_aggregate(e.args@, 0) || opt_contains_aggregate(
            e.defresult,
        ),
        Node::BoolExpr(args) => some_contains_aggregate(args@, 0),
        Node::NullTest(arg) => opt_contains_aggregate(arg),
        _ => false,
    }
}

pub open spec fn opt_contains_aggregate(n: Option<Box<Node>>) -> bool
    decreases n, 0nat,
{
    match n {
        Some(b) => contains_aggregate(*b),
        None => false,
    }
}

pub open spec fn some_contains_aggregate(nodes: Seq<Node>, i: int) -> bool
    decreases nodes, nodes.len() - i,
{
    if i < 0 || i >= nodes.len() {
        false
    } else {
        contains_aggregate(nodes[i]) || some_contains_aggregate(nodes, i + 1)
    }
}

/// Whether the result of some `WHEN` branch holds such a call.
pub open spec fn some_branch_aggregate(nodes: Seq<Node>, i: int) -> bool
    decreases nodes, nodes.len() - i,
{
    if i < 0 || i >= nodes.len() {
        false
    } else {
        (match nodes[i] {
            Node::CaseWhen(w) => opt_contains_aggregate(w.result),
            _ => false,
        }) || some_branch_aggregate(nodes, i + 1)
    }
}

/// Whether some target of a `SELECT` holds such a call.
pub open spec fn some_target_aggregate(nodes: Seq<Node>, i: int) -> bool
    decreases nodes.len() - i,
{
    if i < 0 || i >= nodes.len() {
        false
    } else {
        (match nodes[i] {
            Node::ResTarget(val) => opt_contains_aggregate(val),
            _ => false,
        }) || some_target_aggregate(nodes, i + 1)
    }
}

/// Whether an expression is or holds a call of a well-known aggregate.
pub fn node_contains_aggregate(n: &Node) -> (r: bool)
    ensures
        r == contains_aggregate(*n),
    decreases n, 0nat,
{
    match n {
        Node::FuncCall(f) => {
            if f.agg_star || f.agg_order.len() > 0 {
                return true;
            }
            let k: usize = f.funcname.len();
            k > 0 && is_well_known_aggregate(f.funcname[k - 1].as_str())
        },
        Node::AExpr(e) => opt_node_contains_aggregate(&e.lexpr) || opt_node_contains_aggregate(
            &e.rexpr,
        ),
        Node::TypeCast(t) => opt_node_contains_aggregate(&t.arg),
        Node::CoalesceExpr(args) => list_contains_aggregate(args),
        Node::CaseExpr(e) => branches_contain_aggregate(&e.args) || opt_node_contains_aggregate(
            &e.defresult,
        ),
        Node::BoolExpr(args) => list_contains_aggregate(args),
        Node::NullTest(arg) => opt_node_contains_aggregate(arg),
        _ => false,
    }
}

fn opt_node_contains_aggregate(n: &Option<Box<Node>>) -> (r: bool)
    ensures
        r == opt_contains_aggregate(*n),
    decreases n, 0nat,
{
    match n {
        Some(b) => node_contains_aggregate(b),
        None => false,
    }
}

fn list_contains_aggregate(nodes: &Vec<Node>) -> (r: bool)
    ensures
        r == some_contains_aggregate(nodes@, 0),
    decreases nodes, 0nat,
{
    let mut i: usize = 0;
    while i < nodes.len()
        invariant
            i <= nodes@.len(),
            some_contains_aggregate(nodes@, 0) == some_contains_aggregate(nodes@, i as int),
        decreases nodes.len() - i,
    {
        proof {
            assert(decreases_to!(nodes => nodes@[i as int]));
        }
        if node_contains_aggregate(&nodes[i]) {
            return true;
        }
        i = i + 1;
    }
    false
}

fn branches_contain_aggregate(nodes: &Vec<Node>) -> (r: bool)
    ensures
        r == some_branch_aggregate(nodes@, 0),
    decreases nodes, 0nat,
{
    let mut i: usize = 0;
    while i < nodes.len()
        invariant
            i <= nodes@.len(),
            some_branch_aggregate(nodes@, 0) == some_branch_aggregate(nodes@, i as int),
        decreases nodes.len() - i,
    {
        proof {
            assert(decreases_to!(nodes => nodes@[i as int]));
        }
        match &nodes[i] {
            Node::CaseWhen(w) => {
                if opt_node_contains_aggregate(&w.result) {
                    return true;
                }
            },
            _ => {},
        }
        i = i + 1;
    }
    false
}

/// Whether some target of a `SELECT` holds a call of a well-known aggregate.
pub fn has_aggregate_target(target_list: &Vec<Node>) -> (r: bool)
    ensures
        r == some_target_aggregate(target_list@, 0),
{
    let mut i: usize = 0;
    while i < target_list.len()
        invariant
            i <= target_list@.len(),
            some_target_aggregate(target_list@, 0) == some_target_aggregate(
                target_list@,
                i as int,
            ),
        decreases target_list.len() - i,
    {
        match &target_list[i] {
            Node::ResTarget(val) => {
                if opt_node_contains_aggregate(val) {
                    return true;
                }
            },
            _ => {},
        }
        i = i + 1;
    }
    false
}

// ── Column references ───────────────────────────────────────────────────────

/// The position of the last star, or `-1`.
pub open spec fn last_star(fields: Seq<NamePart>) -> int
    decreases fields.len(),
{
    if fields.len() == 0 {
        -1
    } else if fields.last() is Star {
        fields.len() - 1
    } else {
        last_star(fields.drop_last())
    }
}

/// The table and the column that the parts of a reference name.
pub open spec fn column_parts(parts: Seq<Seq<char>>) -> Option<(Option<Seq<char>>, Seq<char>)> {
    if parts.len() == 1 {
        Some((None, parts[0]))
    } else if parts.len() == 2 {
        Some((Some(parts[0]), parts[1]))
    } else if parts.len() == 3 {
        Some((Some(parts[1]), parts[2]))
    } else {
        None
    }
}

/// The composite type of the relation behind a source.
pub open spec fn row_type(c: CatalogView, q: QualifiedNameView) -> Option<u32> {
    c.resolve_type(Some(q.schema), q.name)
}

/// What a reference to all columns of a source is: the composite type of the
/// relation behind it.
pub open spec fn star_outcome(fields: Seq<NamePart>, env: EnvView) -> Result<
    ExprTypeView,
    AnalyzeErrorView,
> {
    let k = last_star(fields);
    match (if k > 0 {
        fields[k - 1]
    } else {
        NamePart::Other
    }) {
        NamePart::Name(alias) => match source_named(env.sources, alias@) {
            Some(source) => match source.source_qn {
                Some(q) => match row_type(env.cat, q) {
                    Some(oid) => Ok(scalar_type(oid, false)),
                    None => Err(
                        AnalyzeErrorView::UndefinedType {
                            oid: 0,
                            context: "composite type for "@ + q.schema + "."@ + q.name,
                        },
                    ),
                },
                None => Err(
                    AnalyzeErrorView::Unsupported(
                        "cannot use "@ + alias@ + ".* here: "@ + alias@
                            + " is a CTE or subquery, not a real relation"@,
                    ),
                ),
            },
            None => Err(
                AnalyzeErrorView::UndefinedTable(
                    "missing FROM-clause entry for table \""@ + alias@ + "\""@,
                ),
            ),
        },
        _ => Err(
            AnalyzeErrorView::Unsupported(
                "unqualified * has no relation — use alias.* instead"@,
            ),
        ),
    }
}

/// What a column reference is. A single name that is no column may name a
/// source, and then stands for its whole row.
pub open spec fn column_outcome(fields: Seq<NamePart>, env: EnvView) -> Result<
    ExprTypeView,
    AnalyzeErrorView,
> {
    if last_star(fields) >= 0 {
        star_outcome(fields, env)
    } else {
        let parts = part_names(fields);
        match column_parts(parts) {
            Some((table, column)) => match resolved_column(env.sources, table, column) {
                Ok(col) => Ok(
                    ExprTypeView {
                        type_oid: col.type_oid,
                        nullable: env.nulls.column_nullable(
                            col.table_alias,
                            col.name,
                            col.base_not_null,
                        ),
                        record_fields: col.record_fields,
                    },
                ),
                Err(e) => match whole_row(env, table, column) {
                    Some(oid) => Ok(scalar_type(oid, false)),
                    None => Err(e),
                },
            },
            None => Err(
                AnalyzeErrorView::UndefinedColumn("invalid column ref: "@ + debug_text(parts)),
            ),
        }
    }
}

/// The composite type that a single name stands for as a source.
pub open spec fn whole_row(env: EnvView, table: Option<Seq<char>>, name: Seq<char>) -> Option<u32> {
    if table is Some {
        None
    } else {
        match source_named(env.sources, name) {
            Some(source) => match source.source_qn {
                Some(q) => row_type(env.cat, q),
                None => None,
            },
            None => None,
        }
    }
}

/// The fields of the record that a column reference names, where they are known.
pub open spec fn column_fields(fields: Seq<NamePart>, sources: Seq<SourceView>) -> Option<
    Seq<RecordFieldView>,
> {
    match column_parts(part_names(fields)) {
        Some((table, column)) => match resolved_column(sources, table, column) {
            Ok(col) => col.record_fields,
            Err(_) => None,
        },
        None => None,
    }
}

/// A field of a value of a composite type, or of a record whose fields are known.
pub open spec fn field_outcome(c: CatalogView, current: ExprTypeView, name: Seq<char>) -> Result<
    ExprTypeView,
    AnalyzeErrorView,
> {
    match current.record_fields {
        Some(shape) => match find_field(shape, name) {
            Some(f) => Ok(
                ExprTypeView {
                    type_oid: f.ty.type_oid,
                    nullable: current.nullable || f.ty.nullable,
                    record_fields: f.ty.record_fields,
                },
            ),
            None => Err(missing_record_field(name)),
        },
        None => {
            let base = c.unwrap_domain(current.type_oid);
            match c.get_type(base) {
                Some(t) => match c.composite_fields(base) {
                    Some(fields) => match find_attribute(fields, name) {
                        Some(a) => Ok(
                            scalar_type(a.atttypid, current.nullable || !a.attnotnull),
                        ),
                        None => Err(
                            AnalyzeErrorView::UndefinedColumn(
                                "column \""@ + name + "\" of composite type \""@ + t.typname
                                    + "\" does not exist"@,
                            ),
                        ),
                    },
                    None => Err(
                        AnalyzeErrorView::Unsupported(
                            "field access ."@ + name + " on non-composite type '"@ + t.typname
                                + "'"@,
                        ),
                    ),
                },
                None => Err(
                    AnalyzeErrorView::UndefinedType {
                        oid: base,
                        context: "composite field access ."@ + name,
                    },
                ),
            }
        },
    }
}

/// The error for a field that a record does not have.
pub open spec fn missing_record_field(name: Seq<char>) -> AnalyzeErrorView {
    AnalyzeErrorView::UndefinedColumn("record field \""@ + name + "\" does not exist"@)
}

/// An element of an array.
pub open spec fn element_outcome(c: CatalogView, current: ExprTypeView) -> Result<
    ExprTypeView,
    AnalyzeErrorView,
> {
    match c.get_type(current.type_oid) {
        Some(t) => match c.element_of(current.type_oid) {
            Some(e) => Ok(scalar_type(e, true)),
            None => Err(
                AnalyzeErrorView::Unsupported(
                    "subscript on non-array type '"@ + t.typname + "'"@,
                ),
            ),
        },
        None => Err(
            AnalyzeErrorView::UndefinedType {
                oid: current.type_oid,
                context: "array subscript"@,
            },
        ),
    }
}

/// The error for a slice: slices are not supported.
pub open spec fn slice_error(c: CatalogView, type_oid: u32) -> AnalyzeErrorView {
    match c.get_type(type_oid) {
        Some(t) => if c.element_of(type_oid) is None {
            AnalyzeErrorView::Unsupported("slice on non-array type '"@ + t.typname + "'"@)
        } else {
            AnalyzeErrorView::Unsupported("array slice"@)
        },
        None => AnalyzeErrorView::Unsupported("array slice"@),
    }
}

/// The type of a literal.
pub open spec fn const_outcome(v: ConstValue) -> ExprTypeView {
    match v {
        ConstValue::Null => scalar_type(UNKNOWN, true),
        ConstValue::Integer => scalar_type(INT4, false),
        ConstValue::Float => scalar_type(NUMERIC, false),
        ConstValue::Boolean => scalar_type(BOOL, false),
        ConstValue::Text => scalar_type(UNKNOWN, false),
        ConstValue::Bits => scalar_type(BYTEA, false),
        ConstValue::Missing => scalar_type(UNKNOWN, false),
    }
}

/// A string literal of unknown type counts as `text` where several types have to
/// agree.
pub open spec fn as_text(n: Option<Node>, type_oid: u32) -> u32 {
    if type_oid == UNKNOWN && n == Some(Node::AConst(ConstValue::Text)) {
        TEXT
    } else {
        type_oid
    }
}

/// The first array type over an element type.
pub open spec fn first_array_of(types: Seq<PgTypeView>, elem: u32) -> Option<u32>
    decreases types.len(),
{
    if types.len() == 0 {
        None
    } else if types[0].typcategory == TypCategory::Array && types[0].typelem == Some(elem) {
        Some(types[0].oid)
    } else {
        first_array_of(types.drop_first(), elem)
    }
}

/// The type that a written type stands for.
pub open spec fn written_type(
    c: CatalogView,
    t: Option<TypeName>,
) -> Result<u32, AnalyzeErrorView> {
    match t {
        None => Err(AnalyzeErrorView::Unsupported("missing TypeName"@)),
        Some(tn) => {
            let parts = texts(tn.names@);
            if tn.type_oid != 0 {
                Ok(tn.type_oid)
            } else {
                match qualified(parts) {
                    None => Err(
                        AnalyzeErrorView::Unsupported(
                            "complex type name: "@ + debug_text(parts),
                        ),
                    ),
                    Some((schema, name)) => match c.resolve_type(schema, name) {
                        None => Err(
                            AnalyzeErrorView::UndefinedType {
                                oid: 0,
                                context: "type name: "@ + joined(parts, "."@),
                            },
                        ),
                        Some(oid) => Ok(
                            if tn.is_array {
                                match c.resolve_type(schema, "_"@ + name) {
                                    Some(a) => a,
                                    None => match first_array_of(c.pg_type, oid) {
                                        Some(a) => a,
                                        None => oid,
                                    },
                                }
                            } else {
                                oid
                            },
                        ),
                    },
                }
            }
        },
    }
}

/// What is known of parameters behind the notes of a subquery.
pub open spec fn params_after(ps: Seq<ParamEntry>, events: Seq<ParamEvent>) -> Seq<ParamEntry>
    decreases events.len(),
{
    if events.len() == 0 {
        ps
    } else {
        let before = params_after(ps, events.drop_last());
        match events.last() {
            ParamEvent::Seen { number } => param_seen(before, number),
            ParamEvent::Typed { number, type_oid } => param_recorded(before, number, type_oid),
            ParamEvent::Nullable { number, nullable } => param_inferred(before, number, nullable),
        }
    }
}

/// The `SELECT` of a subquery expression.
pub open spec fn subquery_of(sub: SubLink) -> Option<SelectStmt> {
    match sub.subselect {
        Some(b) => match *b {
            Node::SelectStmt(s) => Some(*s),
            _ => None,
        },
        None => None,
    }
}

/// The number of columns on the left of a subquery comparison.
pub open spec fn lhs_arity(testexpr: Option<Box<Node>>) -> nat {
    match testexpr {
        Some(b) => match *b {
            Node::RowExpr(args) => args@.len(),
            _ => 1,
        },
        None => 1,
    }
}

/// The name of the form of a subquery expression.
pub open spec fn sublink_text(k: SubLinkType) -> Seq<char> {
    match k {
        SubLinkType::Exists => "ExistsSublink"@,
        SubLinkType::All => "AllSublink"@,
        SubLinkType::Any => "AnySublink"@,
        SubLinkType::RowCompare => "RowcompareSublink"@,
        SubLinkType::Expr => "ExprSublink"@,
        SubLinkType::MultiExpr => "MultiexprSublink"@,
        SubLinkType::Array => "ArraySublink"@,
        SubLinkType::Cte => "CteSublink"@,
    }
}

/// What a subquery expression is, given the columns of its subquery.
pub open spec fn sublink_type(
    c: CatalogView,
    sub: SubLink,
    cols: Option<Seq<SubqueryColumn>>,
) -> Result<
    ExprTypeView,
    AnalyzeErrorView,
> {
    match sub.kind {
        SubLinkType::Exists => Ok(scalar_type(BOOL, false)),
        SubLinkType::Expr => match cols {
            Some(l) => if l.len() > 0 {
                let sel = subquery_of(sub)->0;
                let one_row = sel.group_clause@.len() == 0 && some_target_aggregate(
                    sel.target_list@,
                    0,
                );
                Ok(scalar_type(l[0].type_oid, !one_row || l[0].nullable))
            } else {
                Ok(scalar_type(UNKNOWN, true))
            },
            None => Ok(scalar_type(UNKNOWN, true)),
        },
        SubLinkType::Any | SubLinkType::All => match cols {
            Some(l) => if lhs_arity(sub.testexpr) != l.len() {
                Err(
                    AnalyzeErrorView::Invalid(
                        "subquery has "@ + decimal_text(l.len()) + " column"@ + (if l.len() == 1 {
                            Seq::empty()
                        } else {
                            "s"@
                        }) + ", lhs has "@ + decimal_text(lhs_arity(sub.testexpr)),
                    ),
                )
            } else {
                Ok(scalar_type(BOOL, true))
            },
            None => Ok(scalar_type(BOOL, true)),
        },
        SubLinkType::Array => {
            let elem = match cols {
                Some(l) => if l.len() > 0 {
                    l[0].type_oid
                } else {
                    UNKNOWN
                },
                None => UNKNOWN,
            };
            Ok(
                scalar_type(
                    match c.array_type_of(elem) {
                        Some(a) => a,
                        None => UNKNOWN,
                    },
                    false,
                ),
            )
        },
        _ => Err(AnalyzeErrorView::Unsupported("sublink type: "@ + sublink_text(sub.kind))),
    }
}

/// Whether the form of a subquery expression is one that is analyzed.
pub open spec fn analyzed_sublink(k: SubLinkType) -> bool {
    k == SubLinkType::Exists || k == SubLinkType::Expr || k == SubLinkType::Any || k
        == SubLinkType::All || k == SubLinkType::Array
}

/// What a subquery expression is.
pub open spec fn sublink_outcome(sub: SubLink, c: CatalogView, ps: Seq<ParamEntry>) -> Outcome {
    if analyzed_sublink(sub.kind) && subquery_of(sub) is Some {
        let after = params_after(ps, sub.analysis.params@);
        match sub.analysis.outcome {
            Ok(cols) => (sublink_type(c, sub, Some(cols@)), after),
            Err(e) => (Err(e@), after),
        }
    } else {
        (sublink_type(c, sub, None), ps)
    }
}

/// A list without repetitions of neighbours.
pub open spec fn deduped(s: Seq<u32>) -> Seq<u32>
    decreases s.len(),
{
    if s.len() <= 1 {
        s
    } else {
        let rest = deduped(s.drop_last());
        if rest.last() == s.last() {
            rest
        } else {
            rest.push(s.last())
        }
    }
}

/// The name of the type at a position of a list.
pub open spec fn nth_type_name(
    c: CatalogView,
    s: Seq<u32>,
    k: int,
    fallback: Seq<char>,
) -> Seq<char> {
    if k < s.len() {
        name_or(c, s[k], "oid "@)
    } else {
        fallback
    }
}

/// The error for an array constructor whose elements have no common type.
pub open spec fn array_error(c: CatalogView, types: Seq<u32>) -> AnalyzeErrorView {
    let l = deduped(concrete(types));
    AnalyzeErrorView::TypeMismatch {
        actual: nth_type_name(c, l, 0, Seq::empty()),
        expected: nth_type_name(c, l, 1, Seq::empty()),
        context: "ARRAY types "@ + nth_type_name(c, l, 0, "?"@) + " and "@ + nth_type_name(
            c,
            l,
            1,
            "?"@,
        ) + " cannot be matched"@,
    }
}

/// The common type of the branches of `COALESCE` or `CASE`.
pub open spec fn branch_type(c: CatalogView, types: Seq<u32>, context: Seq<char>) -> Result<
    u32,
    AnalyzeErrorView,
> {
    let known = concrete(types);
    if known.len() == 0 {
        Ok(
            match c.preferred_type_in_category(TypCategory::String) {
                Some(t) => t,
                None => UNKNOWN,
            },
        )
    } else {
        match common_type(c, known) {
            Some(t) => Ok(t),
            None => Err(
                AnalyzeErrorView::TypeMismatch {
                    actual: qualified_type_text(c, known.last()),
                    expected: qualified_type_text(c, known[0]),
                    context,
                },
            ),
        }
    }
}

/// Functions that read another row of their window.
pub open spec fn value_window(name: Seq<char>) -> bool {
    name == "lag"@ || name == "lead"@ || name == "first_value"@ || name == "last_value"@ || name
        == "nth_value"@
}

/// Whether an argument may be null; one that is missing may not.
pub open spec fn slot_nullable(s: Seq<TypeSlot>, i: int) -> bool {
    i < s.len() && s[i].nullable
}

/// Whether a function call may be null.
pub open spec fn call_nullable(
    func: FuncCall,
    name: Seq<char>,
    f: ResolvedFunctionView,
    slots: Seq<TypeSlot>,
    nulls: NullabilityView,
) -> bool {
    let builtin = f.schema == "pg_catalog"@;
    if func.over is Some && value_window(name) {
        if (name == "lag"@ || name == "lead"@) && func.args@.len() >= 3 {
            slot_nullable(slots, 0) || slot_nullable(slots, 2)
        } else {
            true
        }
    } else if f.is_aggregate {
        if name == "count"@ {
            false
        } else if func.agg_filter is Some || !nulls.has_group_by || nulls.has_empty_grouping_set {
            true
        } else {
            some_nullable(slots)
        }
    } else if f.is_strict && builtin {
        nullable_though_strict(name) || some_nullable(slots)
    } else if builtin && name == "concat_ws"@ {
        slot_nullable(slots, 0)
    } else {
        !(!f.is_strict && builtin && never_null(name))
    }
}

/// Operators that compare two rows field by field.
pub open spec fn compares_rows(op: Seq<char>) -> bool {
    op == "="@ || op == "<>"@ || op == "<"@ || op == ">"@ || op == "<="@ || op == ">="@
}

/// The type of an operand, read again where it is a parameter.
pub open spec fn reread(n: Option<Box<Node>>, before: u32, ps: Seq<ParamEntry>) -> u32 {
    match n {
        Some(b) => match *b {
            Node::ParamRef(num) => if param_type(ps, num) != UNKNOWN {
                param_type(ps, num)
            } else {
                before
            },
            _ => before,
        },
        None => before,
    }
}

/// The two rows that an operator expression compares field by field.
pub open spec fn compared_rows(e: AExpr, op: Seq<char>) -> Option<(Seq<Node>, Seq<Node>)> {
    match (e.lexpr, e.rexpr) {
        (Some(l), Some(r)) => match (*l, *r) {
            (Node::RowExpr(la), Node::RowExpr(ra)) => if compares_rows(op) && la@.len()
                == ra@.len() {
                Some((la@, ra@))
            } else {
                None
            },
            _ => None,
        },
        _ => None,
    }
}

/// The error for an aggregate or window function inside an aggregate.
pub open spec fn nested_error(args: Seq<Node>, i: int, c: CatalogView) -> Option<AnalyzeErrorView>
    decreases args.len() - i,
{
    if i < 0 || i >= args.len() {
        None
    } else {
        let k = kinds_in(
            args[i],
            c,
            FuncKindPresence { has_aggregate: false, has_window: false },
        );
        if k.has_aggregate {
            Some(AnalyzeErrorView::Invalid("aggregate function calls cannot be nested"@))
        } else if k.has_window {
            Some(
                AnalyzeErrorView::Invalid(
                    "window functions are not allowed inside aggregate arguments"@,
                ),
            )
        } else {
            nested_error(args, i + 1, c)
        }
    }
}

/// Some value, or `UNKNOWN`.
pub open spec fn type_or_unknown(o: Option<ExprTypeView>) -> u32 {
    match o {
        Some(t) => t.type_oid,
        None => UNKNOWN,
    }
}

pub open spec fn nullable_or_not(o: Option<ExprTypeView>) -> bool {
    match o {
        Some(t) => t.nullable,
        None => false,
    }
}

// ── Expressions ─────────────────────────────────────────────────────────────

/// What an expression is, held against its goal.
pub open spec fn expr_outcome(n: Node, env: EnvView, ps: Seq<ParamEntry>, goal: TypeGoal) -> Outcome
    decreases n, 2nat, 0int,
{
    match n {
        Node::Empty => (Err(AnalyzeErrorView::Unsupported("empty node"@)), ps),
        Node::CollateClause(arg) => collate_outcome(arg, env, ps, goal),
        Node::RowExpr(args) => match row_goal(env.cat, args@.len(), goal) {
            Some((oid, types)) => {
                let (r, p) = typed_from(args@, 0, types, env, ps);
                (
                    match r {
                        Some(e) => Err(e),
                        None => Ok(scalar_type(oid, false)),
                    },
                    p,
                )
            },
            None => {
                let (r, p) = record_from(args@, 0, Seq::empty(), env, ps);
                checked(
                    env.cat,
                    (
                        match r {
                            Ok(fields) => Ok(
                                ExprTypeView {
                                    type_oid: RECORD,
                                    nullable: false,
                                    record_fields: Some(fields),
                                },
                            ),
                            Err(e) => Err(e),
                        },
                        p,
                    ),
                    goal,
                )
            },
        },
        _ => checked(env.cat, node_outcome(n, env, ps, goal), goal),
    }
}

/// The composite type that a row is expected to be, with the types of its fields:
/// the goal, where it is a composite type with as many fields.
pub open spec fn row_goal(c: CatalogView, arity: nat, goal: TypeGoal) -> Option<(u32, Seq<u32>)> {
    if goal.type_oid == UNKNOWN {
        None
    } else {
        let target = c.unwrap_domain(goal.type_oid);
        match c.composite_fields(target) {
            Some(fields) => if fields.len() == arity {
                Some((target, fields.map_values(|a: crate::pg_catalog::PgAttributeView| a.atttypid)))
            } else {
                None
            },
            None => None,
        }
    }
}

/// The expressions from `i` on, each held against its type; the first error.
pub open spec fn typed_from(
    nodes: Seq<Node>,
    i: int,
    types: Seq<u32>,
    env: EnvView,
    ps: Seq<ParamEntry>,
) -> (Option<AnalyzeErrorView>, Seq<ParamEntry>)
    decreases nodes, 0nat, nodes.len() - i,
{
    if i < 0 || i >= nodes.len() {
        (None, ps)
    } else {
        let (r, p) = expr_outcome(nodes[i], env, ps, assignment_goal(types[i]));
        match r {
            Ok(_) => typed_from(nodes, i + 1, types, env, p),
            Err(e) => (Some(e), p),
        }
    }
}

/// The fields `f1`, `f2`, ... of a row, from `i` on, behind those in `acc`.
pub open spec fn record_from(
    nodes: Seq<Node>,
    i: int,
    acc: Seq<RecordFieldView>,
    env: EnvView,
    ps: Seq<ParamEntry>,
) -> (Result<Seq<RecordFieldView>, AnalyzeErrorView>, Seq<ParamEntry>)
    decreases nodes, 0nat, nodes.len() - i,
{
    if i < 0 || i >= nodes.len() {
        (Ok(acc), ps)
    } else {
        let (r, p) = expr_outcome(nodes[i], env, ps, no_goal());
        match r {
            Ok(ty) => record_from(
                nodes,
                i + 1,
                acc.push(RecordFieldView { name: "f"@ + decimal_text((i + 1) as nat), ty }),
                env,
                p,
            ),
            Err(e) => (Err(e), p),
        }
    }
}

/// An expression with a collation: that expression, which must be a string.
pub open spec fn collate_outcome(
    arg: Option<Box<Node>>,
    env: EnvView,
    ps: Seq<ParamEntry>,
    goal: TypeGoal,
) -> Outcome
    decreases arg, 2nat, 0int,
{
    match arg {
        None => (Err(AnalyzeErrorView::Internal("CollateClause without arg"@)), ps),
        Some(b) => {
            let (r, p) = expr_outcome(*b, env, ps, goal);
            match r {
                Err(e) => (Err(e), p),
                Ok(t) => {
                    let base = env.cat.unwrap_domain(t.type_oid);
                    let is_string = match env.cat.get_type(base) {
                        Some(row) => row.typcategory == TypCategory::String,
                        None => false,
                    };
                    if t.type_oid == UNKNOWN || is_string {
                        (Ok(t), p)
                    } else {
                        (
                            Err(
                                AnalyzeErrorView::Invalid(
                                    "collations are not supported by type "@ + name_or(
                                        env.cat,
                                        base,
                                        "oid "@,
                                    ),
                                ),
                            ),
                            p,
                        )
                    }
                },
            }
        },
    }
}

/// What an expression is, before it is held against its goal.
pub open spec fn node_outcome(n: Node, env: EnvView, ps: Seq<ParamEntry>, goal: TypeGoal) -> Outcome
    decreases n, 1nat, 0int,
{
    match n {
        Node::ColumnRef(cr) => (column_outcome(cr.fields@, env), ps),
        Node::AConst(v) => (Ok(const_outcome(v)), ps),
        Node::TypeCast(cast) => cast_outcome(*cast, env, ps),
        Node::FuncCall(func) => call_outcome(*func, env, ps),
        Node::AExpr(e) => a_expr_outcome(*e, env, ps),
        Node::BoolExpr(args) => {
            let (r, p) = slots_from(args@, 0, Seq::empty(), env, ps, assignment_goal(BOOL));
            match r {
                Ok(s) => (Ok(scalar_type(BOOL, some_nullable(s))), p),
                Err(e) => (Err(e), p),
            }
        },
        Node::NullTest(_) => (Ok(scalar_type(BOOL, false)), ps),
        Node::BooleanTest(_) => (Ok(scalar_type(BOOL, false)), ps),
        Node::CoalesceExpr(args) => coalesce_outcome(args@, env, ps),
        Node::CaseExpr(e) => case_outcome(*e, env, ps),
        Node::SubLink(sub) => sublink_outcome(*sub, env.cat, ps),
        Node::ParamRef(num) => {
            let seen = param_seen(ps, num);
            let p = if param_type(seen, num) == UNKNOWN && goal.type_oid != UNKNOWN {
                param_recorded(seen, num, goal.type_oid)
            } else {
                seen
            };
            (Ok(scalar_type(param_type(p, num), param_nullable(p, num))), p)
        },
        Node::MinMaxExpr(mm) => {
            let (r, p) = slots_from(mm.args@, 0, Seq::empty(), env, ps, no_goal());
            match r {
                Ok(s) => {
                    let t = if mm.minmaxtype != 0 && mm.minmaxtype != UNKNOWN {
                        mm.minmaxtype
                    } else {
                        match common_type(env.cat, slot_types(s)) {
                            Some(t) => t,
                            None => UNKNOWN,
                        }
                    };
                    (Ok(scalar_type(t, all_nullable(s))), p)
                },
                Err(e) => (Err(e), p),
            }
        },
        Node::AIndirection(ind) => indirection_outcome(*ind, env, ps),
        Node::AArrayExpr(elements) => array_outcome(elements@, env, ps),
        Node::SetToDefault => (Ok(scalar_type(goal.type_oid, false)), ps),
        _ => (
            Err(
                AnalyzeErrorView::Unsupported(
                    "expression node type not supported: "@ + kind_text(n),
                ),
            ),
            ps,
        ),
    }
}

/// The types of the expressions from `i` on, behind those in `acc`.
pub open spec fn slots_from(
    nodes: Seq<Node>,
    i: int,
    acc: Seq<TypeSlot>,
    env: EnvView,
    ps: Seq<ParamEntry>,
    goal: TypeGoal,
) -> Slots
    decreases nodes, 0nat, nodes.len() - i,
{
    if i < 0 || i >= nodes.len() {
        (Ok(acc), ps)
    } else {
        let (r, p) = expr_outcome(nodes[i], env, ps, goal);
        match r {
            Ok(t) => slots_from(
                nodes,
                i + 1,
                acc.push(TypeSlot { type_oid: t.type_oid, nullable: t.nullable }),
                env,
                p,
                goal,
            ),
            Err(e) => (Err(e), p),
        }
    }
}

/// What is known of parameters behind the expressions from `i` on, whatever they
/// are.
pub open spec fn visited_from(
    nodes: Seq<Node>,
    i: int,
    env: EnvView,
    ps: Seq<ParamEntry>,
    goal: TypeGoal,
) -> Seq<ParamEntry>
    decreases nodes, 0nat, nodes.len() - i,
{
    if i < 0 || i >= nodes.len() {
        ps
    } else {
        visited_from(nodes, i + 1, env, expr_outcome(nodes[i], env, ps, goal).1, goal)
    }
}

/// What is known of parameters behind an expression that may be missing.
pub open spec fn visited_opt(
    n: Option<Box<Node>>,
    env: EnvView,
    ps: Seq<ParamEntry>,
    goal: TypeGoal,
) -> Seq<ParamEntry>
    decreases n, 0nat, 0int,
{
    match n {
        Some(b) => expr_outcome(*b, env, ps, goal).1,
        None => ps,
    }
}

/// What is known of parameters behind the expressions from `i` on whose type is
/// unknown, each held against the goal that `goals` has for it.
pub open spec fn backfilled_from(
    nodes: Seq<Node>,
    i: int,
    types: Seq<u32>,
    goals: Seq<u32>,
    env: EnvView,
    ps: Seq<ParamEntry>,
) -> Seq<ParamEntry>
    decreases nodes, 0nat, nodes.len() - i,
{
    if i < 0 || i >= nodes.len() {
        ps
    } else {
        let p = if i < types.len() && types[i] == UNKNOWN && i < goals.len() && goals[i]
            != UNKNOWN {
            expr_outcome(nodes[i], env, ps, implicit_goal(goals[i])).1
        } else {
            ps
        };
        backfilled_from(nodes, i + 1, types, goals, env, p)
    }
}

/// An expression that may be missing.
pub open spec fn opt_outcome(
    n: Option<Box<Node>>,
    env: EnvView,
    ps: Seq<ParamEntry>,
    goal: TypeGoal,
) -> (Result<Option<ExprTypeView>, AnalyzeErrorView>, Seq<ParamEntry>)
    decreases n, 0nat, 0int,
{
    match n {
        Some(b) => {
            let (r, p) = expr_outcome(*b, env, ps, goal);
            (
                match r {
                    Ok(t) => Ok(Some(t)),
                    Err(e) => Err(e),
                },
                p,
            )
        },
        None => (Ok(None), ps),
    }
}

// ── Indirection ─────────────────────────────────────────────────────────────

/// The types of the arguments from `i` on; one that cannot be inferred is unknown.
pub open spec fn loose_types_from(
    nodes: Seq<Node>,
    i: int,
    acc: Seq<u32>,
    env: EnvView,
    ps: Seq<ParamEntry>,
) -> (Seq<u32>, Seq<ParamEntry>)
    decreases nodes, 0nat, nodes.len() - i,
{
    if i < 0 || i >= nodes.len() {
        (acc, ps)
    } else {
        let (r, p) = expr_outcome(nodes[i], env, ps, no_goal());
        let t = match r {
            Ok(t) => t.type_oid,
            Err(_) => UNKNOWN,
        };
        loose_types_from(nodes, i + 1, acc.push(t), env, p)
    }
}

/// The fields that a function call gives through its output arguments.
pub open spec fn call_fields(fc: FuncCall, c: CatalogView, ps: Seq<ParamEntry>) -> (
    Option<Seq<RecordFieldView>>,
    Seq<ParamEntry>,
)
    decreases fc, 0nat, 0int,
{
    match qualified(texts(fc.funcname@)) {
        None => (None, ps),
        Some((schema, name)) => {
            let (types, p) = loose_types_from(fc.args@, 0, Seq::empty(), bare_env(c), ps);
            match resolve(c, schema, name, types) {
                Ok(f) => if f.out_args.len() == 0 {
                    (None, p)
                } else {
                    (Some(lifted(f.out_args)), p)
                },
                Err(_) => (None, p),
            }
        },
    }
}

/// The fields that the leading steps of an indirection look into.
pub open spec fn leading_fields(arg: Node, env: EnvView, ps: Seq<ParamEntry>) -> (
    Option<Seq<RecordFieldView>>,
    Seq<ParamEntry>,
)
    decreases arg, 0nat, 0int,
{
    match arg {
        Node::FuncCall(fc) => call_fields(*fc, env.cat, ps),
        Node::ColumnRef(cr) => (column_fields(cr.fields@, env.sources), ps),
        _ => (None, ps),
    }
}

/// The leading steps of an indirection that are names, from `i` on: where they
/// end, and the field that the last of them names.
pub open spec fn leading_steps(
    fields: Seq<RecordFieldView>,
    steps: Seq<Node>,
    i: int,
    current: Option<ExprTypeView>,
) -> Result<(int, Option<ExprTypeView>), AnalyzeErrorView>
    decreases steps.len() - i,
{
    if i < 0 || i >= steps.len() {
        Ok((i, current))
    } else {
        match steps[i] {
            Node::Text(s) => match find_field(fields, s@) {
                Some(f) => leading_steps(fields, steps, i + 1, Some(f.ty)),
                None => Err(missing_record_field(s@)),
            },
            _ => Ok((i, current)),
        }
    }
}

/// The steps of an indirection from `i` on, applied to a value.
pub open spec fn steps_from(
    steps: Seq<Node>,
    i: int,
    current: ExprTypeView,
    env: EnvView,
    ps: Seq<ParamEntry>,
) -> Outcome
    decreases steps, 0nat, steps.len() - i,
{
    if i < 0 || i >= steps.len() {
        (Ok(current), ps)
    } else {
        let (r, p) = match steps[i] {
            Node::Text(s) => (field_outcome(env.cat, current, s@), ps),
            Node::AIndices(ai) => subscript_outcome(*ai, current, env, ps),
            _ => (
                Err(
                    AnalyzeErrorView::Unsupported(
                        "unsupported indirection step: "@ + kind_text(steps[i]),
                    ),
                ),
                ps,
            ),
        };
        match r {
            Ok(t) => steps_from(steps, i + 1, t, env, p),
            Err(e) => (Err(e), p),
        }
    }
}

/// A subscript of a value: its bounds are numbers, and it gives an element. A slice is
/// not supported.
pub open spec fn subscript_outcome(
    ai: AIndices,
    current: ExprTypeView,
    env: EnvView,
    ps: Seq<ParamEntry>,
) -> Outcome
    decreases ai, 0nat, 0int,
{
    let (l, p1) = opt_outcome(ai.lidx, env, ps, assignment_goal(INT4));
    match l {
        Err(e) => (Err(e), p1),
        Ok(_) => {
            let (u, p2) = opt_outcome(ai.uidx, env, p1, assignment_goal(INT4));
            match u {
                Err(e) => (Err(e), p2),
                Ok(_) => if ai.is_slice {
                    (Err(slice_error(env.cat, current.type_oid)), p2)
                } else {
                    (element_outcome(env.cat, current), p2)
                },
            }
        },
    }
}

/// A chain of field accesses and subscripts.
pub open spec fn indirection_outcome(
    ind: AIndirection,
    env: EnvView,
    ps: Seq<ParamEntry>,
) -> Outcome
    decreases ind, 0nat, 0int,
{
    match ind.arg {
        None => (Err(AnalyzeErrorView::Unsupported("indirection without arg"@)), ps),
        Some(arg) => {
            let (lead, p1) = leading_fields(*arg, env, ps);
            let start = match lead {
                Some(fields) => leading_steps(fields, ind.indirection@, 0, None),
                None => Ok((0, None)),
            };
            match start {
                Err(e) => (Err(e), p1),
                Ok((k, Some(t))) => steps_from(ind.indirection@, k, t, env, p1),
                Ok((k, None)) => {
                    let (r, p2) = expr_outcome(*arg, env, p1, no_goal());
                    match r {
                        Ok(t) => steps_from(ind.indirection@, k, t, env, p2),
                        Err(e) => (Err(e), p2),
                    }
                },
            }
        },
    }
}

/// An array constructor: the array over the common type of its elements.
pub open spec fn array_outcome(elements: Seq<Node>, env: EnvView, ps: Seq<ParamEntry>) -> Outcome
    decreases elements, 1nat, 0int,
{
    if elements.len() == 0 {
        (Ok(scalar_type(UNKNOWN, false)), ps)
    } else {
        let (r, p) = slots_from(elements, 0, Seq::empty(), env, ps, no_goal());
        match r {
            Err(e) => (Err(e), p),
            Ok(s) => match common_type(env.cat, slot_types(s)) {
                Some(t) => (
                    Ok(
                        scalar_type(
                            match env.cat.array_type_of(t) {
                                Some(a) => a,
                                None => UNKNOWN,
                            },
                            false,
                        ),
                    ),
                    p,
                ),
                None => (Err(array_error(env.cat, slot_types(s))), p),
            },
        }
    }
}

// ── Casts and calls ─────────────────────────────────────────────────────────

/// An explicit cast: of the written type, whatever its argument is. A parameter of
/// unknown type takes that type.
pub open spec fn cast_outcome(cast: TypeCast, env: EnvView, ps: Seq<ParamEntry>) -> Outcome
    decreases cast, 0nat, 0int,
{
    match cast.arg {
        None => (Err(AnalyzeErrorView::Unsupported("TypeCast without arg"@)), ps),
        Some(arg) => match written_type(env.cat, cast.target) {
            Err(e) => (Err(e), ps),
            Ok(target) => {
                let (r, p) = expr_outcome(*arg, env, ps, no_goal());
                match r {
                    Err(e) => (Err(e), p),
                    Ok(t) => {
                        let p2 = match *arg {
                            Node::ParamRef(num) => if param_type(p, num) == UNKNOWN {
                                param_recorded(p, num, target)
                            } else {
                                p
                            },
                            _ => p,
                        };
                        (Ok(scalar_type(target, t.nullable)), p2)
                    },
                }
            },
        },
    }
}

/// What is known of parameters behind the modifiers of a function call.
pub open spec fn modifiers_visited(
    func: FuncCall,
    env: EnvView,
    ps: Seq<ParamEntry>,
) -> Seq<ParamEntry>
    decreases func, 0nat, 0int,
{
    let a = visited_opt(func.agg_filter, env, ps, implicit_goal(BOOL));
    let b = visited_from(func.agg_order@, 0, env, a, no_goal());
    match func.over {
        Some(w) => window_visited(*w, env, b),
        None => b,
    }
}

/// What is known of parameters behind a window definition.
pub open spec fn window_visited(w: WindowDef, env: EnvView, ps: Seq<ParamEntry>) -> Seq<ParamEntry>
    decreases w, 0nat, 0int,
{
    let a = visited_from(w.partition_clause@, 0, env, ps, no_goal());
    let b = visited_from(w.order_clause@, 0, env, a, no_goal());
    let d = visited_opt(w.start_offset, env, b, no_goal());
    visited_opt(w.end_offset, env, d, no_goal())
}

/// A function call: its arguments are inferred first without a goal; once it is
/// resolved, those of unknown type against the types of the signature.
pub open spec fn call_outcome(func: FuncCall, env: EnvView, ps: Seq<ParamEntry>) -> Outcome
    decreases func, 1nat, 0int,
{
    let parts = texts(func.funcname@);
    match qualified(parts) {
        None => (
            Err(
                AnalyzeErrorView::UndefinedFunction(
                    "invalid function name: "@ + debug_text(parts),
                ),
            ),
            ps,
        ),
        Some((schema, name)) => {
            let (r, p1) = slots_from(func.args@, 0, Seq::empty(), env, ps, no_goal());
            match r {
                Err(e) => (Err(e), p1),
                Ok(slots) => match resolve(env.cat, schema, name, slot_types(slots)) {
                    Err(e) => (Err(e), p1),
                    Ok(f) => match (if f.is_aggregate {
                        nested_error(func.args@, 0, env.cat)
                    } else {
                        None
                    }) {
                        Some(e) => (Err(e), p1),
                        None => {
                            let p2 = backfilled_from(
                                func.args@,
                                0,
                                slot_types(slots),
                                f.arg_types,
                                env,
                                p1,
                            );
                            (
                                Ok(
                                    scalar_type(
                                        f.return_type_oid,
                                        call_nullable(func, name, f, slots, env.nulls),
                                    ),
                                ),
                                modifiers_visited(func, env, p2),
                            )
                        },
                    },
                },
            }
        },
    }
}

// ── Operators ───────────────────────────────────────────────────────────────

/// Two operands, the right one held against the type of the left one.
pub open spec fn operands_outcome(e: AExpr, env: EnvView, ps: Seq<ParamEntry>) -> (
    Result<(Option<ExprTypeView>, Option<ExprTypeView>), AnalyzeErrorView>,
    Seq<ParamEntry>,
)
    decreases e, 0nat, 0int,
{
    let (l, p1) = opt_outcome(e.lexpr, env, ps, no_goal());
    match l {
        Err(x) => (Err(x), p1),
        Ok(left) => {
            let (r, p2) = opt_outcome(e.rexpr, env, p1, goal_from(type_or_unknown(left)));
            match r {
                Err(x) => (Err(x), p2),
                Ok(right) => (Ok((left, right)), p2),
            }
        },
    }
}

/// Two operands, each on its own.
pub open spec fn free_operands_outcome(e: AExpr, env: EnvView, ps: Seq<ParamEntry>) -> (
    Result<(Option<ExprTypeView>, Option<ExprTypeView>), AnalyzeErrorView>,
    Seq<ParamEntry>,
)
    decreases e, 0nat, 0int,
{
    let (l, p1) = opt_outcome(e.lexpr, env, ps, no_goal());
    match l {
        Err(x) => (Err(x), p1),
        Ok(left) => {
            let (r, p2) = opt_outcome(e.rexpr, env, p1, no_goal());
            match r {
                Err(x) => (Err(x), p2),
                Ok(right) => (Ok((left, right)), p2),
            }
        },
    }
}

/// The node of an operand.
pub open spec fn node_of(n: Option<Box<Node>>) -> Option<Node> {
    match n {
        Some(b) => Some(*b),
        None => None,
    }
}

/// `NULLIF(a, b)`: of the type of `a`, and always nullable.
pub open spec fn nullif_outcome(e: AExpr, env: EnvView, ps: Seq<ParamEntry>) -> Outcome
    decreases e, 1nat, 0int,
{
    let (r, p2) = operands_outcome(e, env, ps);
    match r {
        Err(x) => (Err(x), p2),
        Ok((left, right)) => {
            let left_oid = type_or_unknown(left);
            let right_oid = type_or_unknown(right);
            let (final_left, p3) = if left_oid == UNKNOWN && right_oid != UNKNOWN {
                let (again, p3) = opt_outcome(e.lexpr, env, p2, implicit_goal(right_oid));
                (
                    match again {
                        Ok(Some(t)) => t.type_oid,
                        _ => left_oid,
                    },
                    p3,
                )
            } else {
                (left_oid, p2)
            };
            let lc = as_text(node_of(e.lexpr), final_left);
            let rc = as_text(node_of(e.rexpr), right_oid);
            if lc != UNKNOWN && rc != UNKNOWN && env.cat.find_operator("="@, Some(lc), rc) is None {
                let ln = name_or(env.cat, lc, "oid:"@);
                let rn = name_or(env.cat, rc, "oid:"@);
                (
                    Err(
                        AnalyzeErrorView::TypeMismatch {
                            actual: rn,
                            expected: ln,
                            context: "NULLIF types "@ + ln + " and "@ + rn
                                + " cannot be matched"@,
                        },
                    ),
                    p3,
                )
            } else {
                (
                    Ok(
                        scalar_type(
                            if final_left != UNKNOWN {
                                final_left
                            } else {
                                right_oid
                            },
                            true,
                        ),
                    ),
                    p3,
                )
            }
        },
    }
}

/// `a IS [NOT] DISTINCT FROM b`: a boolean that is never null.
pub open spec fn distinct_outcome(e: AExpr, env: EnvView, ps: Seq<ParamEntry>) -> Outcome
    decreases e, 1nat, 0int,
{
    let (r, p) = operands_outcome(e, env, ps);
    match r {
        Err(x) => (Err(x), p),
        Ok(_) => (Ok(scalar_type(BOOL, false)), p),
    }
}

/// `a BETWEEN b AND c` and `a IN (b, c)`: the members of the list on the right
/// are held against the type of the left operand.
pub open spec fn list_outcome(e: AExpr, env: EnvView, ps: Seq<ParamEntry>) -> Outcome
    decreases e, 1nat, 0int,
{
    let (l, p1) = opt_outcome(e.lexpr, env, ps, no_goal());
    match l {
        Err(x) => (Err(x), p1),
        Ok(left) => {
            let (r, p2) = members_outcome(e.rexpr, env, p1, goal_from(type_or_unknown(left)));
            match r {
                Err(x) => (Err(x), p2),
                Ok(s) => (
                    Ok(scalar_type(BOOL, nullable_or_not(left) || some_nullable(s))),
                    p2,
                ),
            }
        },
    }
}

/// The members of a list.
pub open spec fn members_outcome(
    n: Option<Box<Node>>,
    env: EnvView,
    ps: Seq<ParamEntry>,
    goal: TypeGoal,
) -> Slots
    decreases n, 0nat, 0int,
{
    match n {
        Some(b) => match *b {
            Node::List(items) => slots_from(items@, 0, Seq::empty(), env, ps, goal),
            _ => (Ok(Seq::empty()), ps),
        },
        None => (Ok(Seq::empty()), ps),
    }
}

/// `a op ANY(b)` and `a op ALL(b)`: one side fixes the unknown type of the other,
/// as an array or its element.
pub open spec fn any_outcome(e: AExpr, env: EnvView, ps: Seq<ParamEntry>) -> Outcome
    decreases e, 1nat, 0int,
{
    let (r, p2) = free_operands_outcome(e, env, ps);
    match r {
        Err(x) => (Err(x), p2),
        Ok((left, right)) => {
            let left_oid = type_or_unknown(left);
            let right_oid = type_or_unknown(right);
            let p3 = if left_oid != UNKNOWN && right_oid == UNKNOWN {
                match env.cat.array_type_of(left_oid) {
                    Some(a) => visited_opt(e.rexpr, env, p2, implicit_goal(a)),
                    None => p2,
                }
            } else {
                p2
            };
            let p4 = if right_oid != UNKNOWN && left_oid == UNKNOWN {
                match env.cat.element_of(right_oid) {
                    Some(t) => visited_opt(e.lexpr, env, p3, implicit_goal(t)),
                    None => p3,
                }
            } else {
                p3
            };
            (
                Ok(scalar_type(BOOL, nullable_or_not(left) || nullable_or_not(right))),
                p4,
            )
        },
    }
}

/// The rows that an operator compares are parts of it.
pub proof fn lemma_compared_rows(e: AExpr, op: Seq<char>)
    ensures
        compared_rows(e, op) matches Some((l, r)) ==> decreases_to!(e => l) && decreases_to!(
            e => r
        ) && (forall|i: int| 0 <= i < l.len() ==> decreases_to!(e => #[trigger] l[i])) && (forall|
            i: int,
        |
            0 <= i < r.len() ==> decreases_to!(e => #[trigger] r[i])),
{
    match (e.lexpr, e.rexpr) {
        (Some(lb), Some(rb)) => match (*lb, *rb) {
            (Node::RowExpr(la), Node::RowExpr(ra)) => {
                assert(decreases_to!(e => e.lexpr));
                assert(decreases_to!(e.lexpr => lb));
                assert(decreases_to!(lb => la));
                assert(decreases_to!(la => la@));
                assert(decreases_to!(e => e.rexpr));
                assert(decreases_to!(e.rexpr => rb));
                assert(decreases_to!(rb => ra));
                assert(decreases_to!(ra => ra@));
                assert forall|i: int| 0 <= i < la@.len() implies decreases_to!(
                    e => #[trigger] la@[i]
                ) by {
                    assert(decreases_to!(la@ => la@[i]));
                }
                assert forall|i: int| 0 <= i < ra@.len() implies decreases_to!(
                    e => #[trigger] ra@[i]
                ) by {
                    assert(decreases_to!(ra@ => ra@[i]));
                }
            },
            _ => {},
        },
        _ => {},
    }
}

/// What is known of parameters behind two rows that are compared: a field of
/// unknown type takes that of the field across.
pub open spec fn rows_backfilled(
    e: AExpr,
    op: Seq<char>,
    i: int,
    ls: Seq<TypeSlot>,
    rs: Seq<TypeSlot>,
    env: EnvView,
    ps: Seq<ParamEntry>,
) -> Seq<ParamEntry>
    decreases e, 1nat, ls.len() - i,
{
    match compared_rows(e, op) {
        Some((l, r)) => if i < 0 || i >= ls.len() || i >= rs.len() || i >= l.len() || i
            >= r.len() {
            ps
        } else {
            proof {
                lemma_compared_rows(e, op);
            }
            let p = if ls[i].type_oid != UNKNOWN && rs[i].type_oid == UNKNOWN {
                expr_outcome(r[i], env, ps, implicit_goal(ls[i].type_oid)).1
            } else if rs[i].type_oid != UNKNOWN && ls[i].type_oid == UNKNOWN {
                expr_outcome(l[i], env, ps, implicit_goal(rs[i].type_oid)).1
            } else {
                ps
            };
            rows_backfilled(e, op, i + 1, ls, rs, env, p)
        },
        None => ps,
    }
}

/// A comparison of two rows, field by field.
pub open spec fn rows_outcome(e: AExpr, op: Seq<char>, env: EnvView, ps: Seq<ParamEntry>) -> Outcome
    decreases e, 2nat, 0int,
{
    proof {
        lemma_compared_rows(e, op);
    }
    match compared_rows(e, op) {
        Some((l, r)) => {
            let (lr, p1) = slots_from(l, 0, Seq::empty(), env, ps, no_goal());
            match lr {
                Err(x) => (Err(x), p1),
                Ok(ls) => {
                    let (rr, p2) = slots_from(r, 0, Seq::empty(), env, p1, no_goal());
                    match rr {
                        Err(x) => (Err(x), p2),
                        Ok(rs) => (
                            Ok(scalar_type(BOOL, some_nullable(ls) || some_nullable(rs))),
                            rows_backfilled(e, op, 0, ls, rs, env, p2),
                        ),
                    }
                },
            }
        },
        None => (Ok(scalar_type(BOOL, false)), ps),
    }
}

/// An ordinary operator: an operand of unknown type first takes that of the other
/// one, then the one that the operator expects.
pub open spec fn operator_outcome(
    e: AExpr,
    op: Seq<char>,
    env: EnvView,
    ps: Seq<ParamEntry>,
) -> Outcome
    decreases e, 1nat, 0int,
{
    let (o, p2) = free_operands_outcome(e, env, ps);
    match o {
        Err(x) => (Err(x), p2),
        Ok((left, right)) => {
            let right_oid = type_or_unknown(right);
            let p3 = if left is Some && type_or_unknown(left) != UNKNOWN && right_oid == UNKNOWN {
                visited_opt(e.rexpr, env, p2, implicit_goal(type_or_unknown(left)))
            } else {
                p2
            };
            let p4 = if right_oid != UNKNOWN && left is Some && type_or_unknown(left) == UNKNOWN {
                visited_opt(e.lexpr, env, p3, implicit_goal(right_oid))
            } else {
                p3
            };
            let l = match left {
                Some(t) => Some(reread(e.lexpr, t.type_oid, p4)),
                None => None,
            };
            let r = reread(e.rexpr, right_oid, p4);
            let nullable = nullable_or_not(left) || nullable_or_not(right) || nullable_operator(op);
            match env.cat.find_operator(op, l, r) {
                Some(found) => {
                    let p5 = match (l, found.oprleft) {
                        (Some(t), Some(expected)) => if t == UNKNOWN {
                            visited_opt(e.lexpr, env, p4, implicit_goal(expected))
                        } else {
                            p4
                        },
                        _ => p4,
                    };
                    let p6 = if r == UNKNOWN {
                        visited_opt(e.rexpr, env, p5, implicit_goal(found.oprright))
                    } else {
                        p5
                    };
                    (
                        Ok(
                            scalar_type(
                                match found.oprresult {
                                    Some(t) => t,
                                    None => UNKNOWN,
                                },
                                nullable,
                            ),
                        ),
                        p6,
                    )
                },
                None => if (l is None || l == Some(UNKNOWN)) && r == UNKNOWN {
                    (
                        Err(
                            AnalyzeErrorView::IndeterminateType(
                                "could not determine data type of operator "@ + op,
                            ),
                        ),
                        p4,
                    )
                } else {
                    (
                        Err(
                            AnalyzeErrorView::UndefinedOperator(
                                "operator "@ + op + " does not exist for types "@
                                    + qualified_type_text(
                                    env.cat,
                                    match l {
                                        Some(t) => t,
                                        None => UNKNOWN,
                                    },
                                ) + " and "@ + qualified_type_text(env.cat, r),
                            ),
                        ),
                        p4,
                    )
                },
            }
        },
    }
}

/// An operator expression.
pub open spec fn a_expr_outcome(e: AExpr, env: EnvView, ps: Seq<ParamEntry>) -> Outcome
    decreases e, 3nat, 0int,
{
    let op = joined(texts(e.name@), "."@);
    match e.kind {
        AExprKind::NullIf => nullif_outcome(e, env, ps),
        AExprKind::Distinct | AExprKind::NotDistinct => distinct_outcome(e, env, ps),
        AExprKind::Between
        | AExprKind::NotBetween
        | AExprKind::BetweenSym
        | AExprKind::NotBetweenSym
        | AExprKind::In => list_outcome(e, env, ps),
        AExprKind::OpAny | AExprKind::OpAll => any_outcome(e, env, ps),
        _ => if compared_rows(e, op) is Some {
            rows_outcome(e, op, env, ps)
        } else {
            operator_outcome(e, op, env, ps)
        },
    }
}

// ── COALESCE and CASE ───────────────────────────────────────────────────────

/// The types of expressions where string literals count as `text`.
pub open spec fn texted(nodes: Seq<Node>, slots: Seq<TypeSlot>) -> Seq<u32> {
    Seq::new(slots.len(), |i: int| as_text(Some(nodes[i]), slots[i].type_oid))
}

/// `COALESCE`: of the common type of its arguments, and nullable where all are.
pub open spec fn coalesce_outcome(nodes: Seq<Node>, env: EnvView, ps: Seq<ParamEntry>) -> Outcome
    decreases nodes, 1nat, 0int,
{
    let (r, p) = slots_from(nodes, 0, Seq::empty(), env, ps, no_goal());
    match r {
        Err(e) => (Err(e), p),
        Ok(slots) => {
            let types = texted(nodes, slots);
            match branch_type(env.cat, types, "COALESCE arguments have no common type"@) {
                Err(e) => (Err(e), p),
                Ok(t) => (
                    Ok(scalar_type(t, all_nullable(slots))),
                    backfilled_from(nodes, 0, types, Seq::new(nodes.len(), |i: int| t), env, p),
                ),
            }
        },
    }
}

/// The types of the results of the `WHEN` branches from `i` on, behind `types`,
/// and whether one of them may be null.
pub open spec fn branches_from(
    nodes: Seq<Node>,
    i: int,
    types: Seq<u32>,
    nullable: bool,
    env: EnvView,
    ps: Seq<ParamEntry>,
) -> (Result<(Seq<u32>, bool), AnalyzeErrorView>, Seq<ParamEntry>)
    decreases nodes, 0nat, nodes.len() - i,
{
    if i < 0 || i >= nodes.len() {
        (Ok((types, nullable)), ps)
    } else {
        match nodes[i] {
            Node::CaseWhen(w) => {
                let p1 = visited_opt(w.expr, env, ps, assignment_goal(BOOL));
                let (r, p2) = opt_outcome(w.result, env, p1, no_goal());
                match r {
                    Err(e) => (Err(e), p2),
                    Ok(Some(t)) => branches_from(
                        nodes,
                        i + 1,
                        types.push(as_text(node_of(w.result), t.type_oid)),
                        nullable || t.nullable,
                        env,
                        p2,
                    ),
                    Ok(None) => branches_from(nodes, i + 1, types, nullable, env, p2),
                }
            },
            _ => branches_from(nodes, i + 1, types, nullable, env, ps),
        }
    }
}

/// What is known of parameters behind the results of the `WHEN` branches from `i`
/// on whose type is unknown, held against `goal`; `k` counts the results.
pub open spec fn branches_backfilled(
    nodes: Seq<Node>,
    i: int,
    k: int,
    types: Seq<u32>,
    goal: u32,
    env: EnvView,
    ps: Seq<ParamEntry>,
) -> (int, Seq<ParamEntry>)
    decreases nodes, 0nat, nodes.len() - i,
{
    if i < 0 || i >= nodes.len() {
        (k, ps)
    } else {
        match nodes[i] {
            Node::CaseWhen(w) => if w.result is Some {
                let p = if 0 <= k < types.len() && types[k] == UNKNOWN {
                    visited_opt(w.result, env, ps, implicit_goal(goal))
                } else {
                    ps
                };
                branches_backfilled(nodes, i + 1, k + 1, types, goal, env, p)
            } else {
                branches_backfilled(nodes, i + 1, k, types, goal, env, ps)
            },
            _ => branches_backfilled(nodes, i + 1, k, types, goal, env, ps),
        }
    }
}

/// `CASE`: of the common type of its branches; without an `ELSE` it may be null.
pub open spec fn case_outcome(e: CaseExpr, env: EnvView, ps: Seq<ParamEntry>) -> Outcome
    decreases e, 1nat, 0int,
{
    let (r, p1) = branches_from(e.args@, 0, Seq::empty(), false, env, ps);
    match r {
        Err(x) => (Err(x), p1),
        Ok((results, results_nullable)) => {
            let (d, p2) = opt_outcome(e.defresult, env, p1, no_goal());
            match d {
                Err(x) => (Err(x), p2),
                Ok(other) => {
                    let types = match other {
                        Some(t) => results.push(as_text(node_of(e.defresult), t.type_oid)),
                        None => results,
                    };
                    let nullable = match other {
                        Some(t) => results_nullable || t.nullable,
                        None => true,
                    };
                    match branch_type(env.cat, types, "CASE branches have no common type"@) {
                        Err(x) => (Err(x), p2),
                        Ok(t) => {
                            let p4 = if t != UNKNOWN {
                                let (k, p3) = branches_backfilled(e.args@, 0, 0, types, t, env, p2);
                                if 0 <= k < types.len() && types[k] == UNKNOWN {
                                    visited_opt(e.defresult, env, p3, implicit_goal(t))
                                } else {
                                    p3
                                }
                            } else {
                                p2
                            };
                            (Ok(scalar_type(t, nullable)), p4)
                        },
                    }
                },
            }
        },
    }
}

} // verus!
