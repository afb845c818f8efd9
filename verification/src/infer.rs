//! Expression type inference, carried out.

use crate::ast::{
    extract_string_fields, kind_name, AExpr, AExprKind, AIndices, AIndirection, CaseExpr,
    ConstValue, FuncCall, NamePart, Node, ParamEvent, SelectStmt, SubLink, SubLinkType,
    SubqueryColumn, TypeCast, TypeName, WindowDef,
};
use crate::catalog::PgCatalog;
use crate::coerce::{concrete_types, find_common_type};
use crate::error::{AnalyzeError, AnalyzeErrorView};
use crate::expr::{
    a_expr_outcome, any_outcome, any_slot_nullable, all_slots_nullable, array_error, array_outcome,
    as_text, backfilled_from, bare_env, branch_type, branches_backfilled, branches_from,
    call_fields, call_nullable, call_outcome, case_outcome, cast_outcome, check_result,
    coalesce_outcome, collate_outcome, column_fields, column_outcome, column_parts, compared_rows,
    const_outcome, debug_list, deduped, detect_func_kinds, distinct_outcome, element_outcome,
    env_of, expr_outcome, field_outcome, first_array_of, free_operands_outcome,
    has_aggregate_target, indirection_outcome, last_star, leading_fields, leading_steps,
    lemma_compared_rows, lhs_arity, list_outcome, loose_types_from, members_outcome,
    modifiers_visited, nested_error, node_of, node_outcome, nth_type_name, nullif_outcome,
    operand_goal, operands_outcome, operator_outcome, opt_outcome, params_after, record_from,
    reread, result_view, row_goal, row_type, rows_backfilled, rows_outcome, slice_error,
    slot_nullable, slots_from, slots_view, split_name, star_outcome, steps_from, sublink_outcome,
    sublink_text, sublink_type, subquery_of, subscript_outcome, texted, type_display_name,
    type_name_or, type_oid_display, typed_from, types_of_slots, visited_from, visited_opt,
    window_visited, written_type, FuncKindPresence, TypeGoal, TypeSlot,
};
use crate::expr_type::{
    copy_fields, field_named, field_views_of, lemma_field_views_push, opt_field_views, ExprType,
    ExprTypeView, RecordField,
};
use crate::functions::{
    is_not_null_nonstrict, is_nullable_operator, is_nullable_strict_exception, resolve_function,
    ResolvedFunction,
};
use crate::lookup::{attribute_named, opt_str};
use crate::nullability::NullabilityContext;
use crate::param_collector::ParamCollector;
use crate::pg_catalog::{
    attr_views, PgType, TypCategory, BOOL, BYTEA, INT4, NUMERIC, RECORD, TEXT, UNKNOWN,
};
use crate::scope::{QualifiedName, Scope};
use crate::text::{
    concat2, concat3, concat4, concat5, decimal, join, same_text, texts,
};
use vstd::prelude::*;

verus! {

// ── Column references ───────────────────────────────────────────────────────

fn find_last_star(fields: &Vec<NamePart>) -> (r: Option<usize>)
    ensures
        match r {
            Some(k) => last_star(fields@) == k && k < fields@.len(),
            None => last_star(fields@) == -1,
        },
{
    let mut k: usize = fields.len();
    proof {
        assert(fields@.take(k as int) =~= fields@);
    }
    while k > 0
        invariant
            k <= fields@.len(),
            last_star(fields@) == last_star(fields@.take(k as int)),
        decreases k,
    {
        proof {
            assert(fields@.take(k as int).drop_last() =~= fields@.take(k - 1));
        }
        k = k - 1;
        match &fields[k] {
            NamePart::Star => return Some(k),
            _ => {},
        }
    }
    None
}

fn find_row_type(q: &QualifiedName, snapshot: &PgCatalog) -> (r: Option<u32>)
    ensures
        r == row_type(snapshot@, q@),
{
    snapshot.resolve_type_by_name(Some(q.schema.as_str()), q.name.as_str())
}

fn infer_star_ref(fields: &Vec<NamePart>, k: usize, scope: &Scope, snapshot: &PgCatalog) -> (r:
    Result<ExprType, AnalyzeError>)
    requires
        k == last_star(fields@),
        k < fields@.len(),
    ensures
        forall|nulls: NullabilityContext| #[trigger]
            result_view(r) == star_outcome(fields@, env_of(*scope, nulls, *snapshot)),
{
    if k == 0 {
        return Err(
            AnalyzeError::Unsupported(
                "unqualified * has no relation — use alias.* instead".to_owned(),
            ),
        );
    }
    match &fields[k - 1] {
        NamePart::Name(alias) => match scope.find_source(alias.as_str()) {
            Some(source) => match &source.source_qn {
                Some(q) => match find_row_type(q, snapshot) {
                    Some(oid) => Ok(ExprType::scalar(oid, false)),
                    None => Err(
                        AnalyzeError::UndefinedType {
                            oid: 0,
                            context: concat4(
                                "composite type for ",
                                q.schema.as_str(),
                                ".",
                                q.name.as_str(),
                            ),
                        },
                    ),
                },
                None => Err(
                    AnalyzeError::Unsupported(
                        concat5(
                            "cannot use ",
                            alias.as_str(),
                            ".* here: ",
                            alias.as_str(),
                            " is a CTE or subquery, not a real relation",
                        ),
                    ),
                ),
            },
            None => Err(
                AnalyzeError::UndefinedTable(
                    concat3("missing FROM-clause entry for table \"", alias.as_str(), "\""),
                ),
            ),
        },
        _ => Err(
            AnalyzeError::Unsupported(
                "unqualified * has no relation — use alias.* instead".to_owned(),
            ),
        ),
    }
}

pub(crate) fn split_column(parts: &Vec<String>) -> (r: Option<(Option<&str>, &str)>)
    ensures
        match r {
            Some((t, c)) => column_parts(texts(parts@)) == Some((opt_str(t), c@)),
            None => column_parts(texts(parts@)) is None,
        },
{
    if parts.len() == 1 {
        Some((None, parts[0].as_str()))
    } else if parts.len() == 2 {
        Some((Some(parts[0].as_str()), parts[1].as_str()))
    } else if parts.len() == 3 {
        Some((Some(parts[1].as_str()), parts[2].as_str()))
    } else {
        None
    }
}

fn copy_opt_fields(fields: &Option<Vec<RecordField>>) -> (r: Option<Vec<RecordField>>)
    ensures
        opt_field_views(r) == opt_field_views(*fields),
{
    match fields {
        Some(v) => Some(copy_fields(v)),
        None => None,
    }
}

fn infer_column_ref(
    fields: &Vec<NamePart>,
    scope: &Scope,
    null_ctx: &NullabilityContext,
    snapshot: &PgCatalog,
) -> (r: Result<ExprType, AnalyzeError>)
    ensures
        result_view(r) == column_outcome(fields@, env_of(*scope, *null_ctx, *snapshot)),
{
    match find_last_star(fields) {
        Some(k) => {
            let r: Result<ExprType, AnalyzeError> = infer_star_ref(fields, k, scope, snapshot);
            proof {
                let env = env_of(*scope, *null_ctx, *snapshot);
                assert(result_view(r) == star_outcome(fields@, env));
            }
            return r;
        },
        None => {},
    }
    let parts: Vec<String> = extract_string_fields(fields);
    match split_column(&parts) {
        Some((table, column)) => match scope.resolve_column(table, column) {
            Ok(col) => Ok(
                ExprType {
                    type_oid: col.type_oid,
                    nullable: null_ctx.is_nullable(
                        col.table_alias.as_str(),
                        col.name.as_str(),
                        col.base_not_null,
                    ),
                    record_fields: copy_opt_fields(&col.record_fields),
                },
            ),
            Err(e) => {
                if table.is_none() {
                    match scope.find_source(column) {
                        Some(source) => match &source.source_qn {
                            Some(q) => match find_row_type(q, snapshot) {
                                Some(oid) => return Ok(ExprType::scalar(oid, false)),
                                None => {},
                            },
                            None => {},
                        },
                        None => {},
                    }
                }
                Err(e)
            },
        },
        None => Err(
            AnalyzeError::UndefinedColumn(
                concat2("invalid column ref: ", debug_list(&parts).as_str()),
            ),
        ),
    }
}

fn column_ref_record_fields(fields: &Vec<NamePart>, scope: &Scope) -> (r: Option<Vec<RecordField>>)
    ensures
        opt_field_views(r) == column_fields(fields@, scope@),
{
    let parts: Vec<String> = extract_string_fields(fields);
    match split_column(&parts) {
        Some((table, column)) => match scope.resolve_column(table, column) {
            Ok(col) => copy_opt_fields(&col.record_fields),
            Err(_) => None,
        },
        None => None,
    }
}

// ── Fields, elements, literals, written types ───────────────────────────────

/// A field of a value of a composite type, or of a record whose fields are known.
pub fn resolve_composite_field(current: &ExprType, field_name: &str, snapshot: &PgCatalog) -> (r:
    Result<ExprType, AnalyzeError>)
    ensures
        result_view(r) == field_outcome(snapshot@, current@, field_name@),
{
    match &current.record_fields {
        Some(shape) => match field_named(shape, field_name) {
            Some(f) => Ok(
                ExprType {
                    type_oid: f.ty.type_oid,
                    nullable: current.nullable || f.ty.nullable,
                    record_fields: copy_opt_fields(&f.ty.record_fields),
                },
            ),
            None => Err(
                AnalyzeError::UndefinedColumn(
                    concat3("record field \"", field_name, "\" does not exist"),
                ),
            ),
        },
        None => {
            let base: u32 = snapshot.unwrap_domain(current.type_oid);
            match snapshot.get_type(base) {
                Some(t) => match snapshot.composite_fields(base) {
                    Some(fields) => match attribute_named(&fields, field_name) {
                        Some(a) => Ok(
                            ExprType::scalar(a.atttypid, current.nullable || !a.attnotnull),
                        ),
                        None => Err(
                            AnalyzeError::UndefinedColumn(
                                concat5(
                                    "column \"",
                                    field_name,
                                    "\" of composite type \"",
                                    t.typname.as_str(),
                                    "\" does not exist",
                                ),
                            ),
                        ),
                    },
                    None => Err(
                        AnalyzeError::Unsupported(
                            concat5(
                                "field access .",
                                field_name,
                                " on non-composite type '",
                                t.typname.as_str(),
                                "'",
                            ),
                        ),
                    ),
                },
                None => Err(
                    AnalyzeError::UndefinedType {
                        oid: base,
                        context: concat2("composite field access .", field_name),
                    },
                ),
            }
        },
    }
}

/// An element of an array; a subscript out of bounds gives null.
pub fn resolve_array_element(current: &ExprType, snapshot: &PgCatalog) -> (r: Result<
    ExprType,
    AnalyzeError,
>)
    ensures
        result_view(r) == element_outcome(snapshot@, current@),
{
    match snapshot.get_type(current.type_oid) {
        Some(t) => match snapshot.element_of(current.type_oid) {
            Some(e) => Ok(ExprType::scalar(e, true)),
            None => Err(
                AnalyzeError::Unsupported(
                    concat3("subscript on non-array type '", t.typname.as_str(), "'"),
                ),
            ),
        },
        None => Err(
            AnalyzeError::UndefinedType {
                oid: current.type_oid,
                context: "array subscript".to_owned(),
            },
        ),
    }
}

fn slice_fault(type_oid: u32, snapshot: &PgCatalog) -> (r: AnalyzeError)
    ensures
        r@ == slice_error(snapshot@, type_oid),
{
    match snapshot.get_type(type_oid) {
        Some(t) => if snapshot.element_of(type_oid).is_none() {
            AnalyzeError::Unsupported(
                concat3("slice on non-array type '", t.typname.as_str(), "'"),
            )
        } else {
            AnalyzeError::Unsupported("array slice".to_owned())
        },
        None => AnalyzeError::Unsupported("array slice".to_owned()),
    }
}

fn infer_a_const(v: ConstValue) -> (r: ExprType)
    ensures
        r@ == const_outcome(v),
{
    match v {
        ConstValue::Null => ExprType::scalar(UNKNOWN, true),
        ConstValue::Integer => ExprType::scalar(INT4, false),
        ConstValue::Float => ExprType::scalar(NUMERIC, false),
        ConstValue::Boolean => ExprType::scalar(BOOL, false),
        ConstValue::Text => ExprType::scalar(UNKNOWN, false),
        ConstValue::Bits => ExprType::scalar(BYTEA, false),
        ConstValue::Missing => ExprType::scalar(UNKNOWN, false),
    }
}

/// A string literal of unknown type counts as `text`.
pub fn unknown_literal_as_text(node: Option<&Node>, inferred_oid: u32) -> (r: u32)
    ensures
        r == as_text(
            match node {
                Some(n) => Some(*n),
                None => None,
            },
            inferred_oid,
        ),
{
    if inferred_oid != UNKNOWN {
        return inferred_oid;
    }
    match node {
        Some(Node::AConst(ConstValue::Text)) => TEXT,
        _ => UNKNOWN,
    }
}

fn operand_as_text(n: &Option<Box<Node>>, inferred_oid: u32) -> (r: u32)
    ensures
        r == as_text(node_of(*n), inferred_oid),
{
    match n {
        Some(b) => unknown_literal_as_text(Some(b), inferred_oid),
        None => unknown_literal_as_text(None, inferred_oid),
    }
}

pub(crate) fn find_array_over(snapshot: &PgCatalog, elem: u32) -> (r: Option<u32>)
    ensures
        r == first_array_of(snapshot@.pg_type, elem),
{
    let ghost types = snapshot@.pg_type;
    let mut i: usize = 0;
    proof {
        assert(types.skip(0) =~= types);
    }
    while i < snapshot.pg_type.len()
        invariant
            types == snapshot@.pg_type,
            i <= types.len(),
            first_array_of(types, elem) == first_array_of(types.skip(i as int), elem),
        decreases types.len() - i,
    {
        proof {
            assert(types.skip(i as int).drop_first() =~= types.skip(i + 1));
        }
        let t: &PgType = snapshot.pg_type.at(i);
        if t.typcategory == TypCategory::Array {
            match t.typelem {
                Some(e) => {
                    if e == elem {
                        return Some(t.oid);
                    }
                },
                None => {},
            }
        }
        i = i + 1;
    }
    None
}

/// The type that a written type stands for.
///
/// # Errors
///
/// The name has too many parts, or there is no such type.
pub fn resolve_type_name(target: &Option<TypeName>, snapshot: &PgCatalog) -> (r: Result<
    u32,
    AnalyzeError,
>)
    ensures
        match r {
            Ok(t) => written_type(snapshot@, *target) == Ok::<_, AnalyzeErrorView>(t),
            Err(e) => written_type(snapshot@, *target) == Err::<u32, _>(e@),
        },
{
    match target {
        None => Err(AnalyzeError::Unsupported("missing TypeName".to_owned())),
        Some(tn) => {
            if tn.type_oid != 0 {
                return Ok(tn.type_oid);
            }
            match split_name(&tn.names) {
                None => Err(
                    AnalyzeError::Unsupported(
                        concat2("complex type name: ", debug_list(&tn.names).as_str()),
                    ),
                ),
                Some((schema, name)) => match snapshot.resolve_type_by_name(schema, name) {
                    None => Err(
                        AnalyzeError::UndefinedType {
                            oid: 0,
                            context: concat2("type name: ", join(&tn.names, ".").as_str()),
                        },
                    ),
                    Some(oid) => {
                        if tn.is_array {
                            let array_name: String = concat2("_", name);
                            match snapshot.resolve_type_by_name(schema, array_name.as_str()) {
                                Some(a) => Ok(a),
                                None => match find_array_over(snapshot, oid) {
                                    Some(a) => Ok(a),
                                    None => Ok(oid),
                                },
                            }
                        } else {
                            Ok(oid)
                        }
                    },
                },
            }
        },
    }
}

// ── Subqueries ──────────────────────────────────────────────────────────────

fn apply_events(events: &Vec<ParamEvent>, params: &mut ParamCollector)
    ensures
        final(params)@ == params_after(old(params)@, events@),
{
    let mut i: usize = 0;
    while i < events.len()
        invariant
            i <= events@.len(),
            params@ == params_after(old(params)@, events@.take(i as int)),
        decreases events.len() - i,
    {
        proof {
            assert(events@.take(i + 1).drop_last() =~= events@.take(i as int));
        }
        match events[i] {
            ParamEvent::Seen { number } => params.see(number),
            ParamEvent::Typed { number, type_oid } => params.record(number, type_oid),
            ParamEvent::Nullable { number, nullable } => params.infer_nullable(number, nullable),
        }
        i = i + 1;
    }
    proof {
        assert(events@.take(i as int) =~= events@);
    }
}

fn find_subquery(sub: &SubLink) -> (r: Option<&SelectStmt>)
    ensures
        match r {
            Some(s) => subquery_of(*sub) == Some(*s),
            None => subquery_of(*sub) is None,
        },
{
    match &sub.subselect {
        Some(b) => match &**b {
            Node::SelectStmt(s) => Some(s),
            _ => None,
        },
        None => None,
    }
}

fn left_arity(testexpr: &Option<Box<Node>>) -> (r: usize)
    ensures
        r == lhs_arity(*testexpr),
{
    match testexpr {
        Some(b) => match &**b {
            Node::RowExpr(args) => args.len(),
            _ => 1,
        },
        None => 1,
    }
}

fn sublink_name(k: SubLinkType) -> (r: &'static str)
    ensures
        r@ == sublink_text(k),
{
    match k {
        SubLinkType::Exists => "ExistsSublink",
        SubLinkType::All => "AllSublink",
        SubLinkType::Any => "AnySublink",
        SubLinkType::RowCompare => "RowcompareSublink",
        SubLinkType::Expr => "ExprSublink",
        SubLinkType::MultiExpr => "MultiexprSublink",
        SubLinkType::Array => "ArraySublink",
        SubLinkType::Cte => "CteSublink",
    }
}

fn type_sublink(sub: &SubLink, cols: Option<&Vec<SubqueryColumn>>, snapshot: &PgCatalog) -> (r:
    Result<ExprType, AnalyzeError>)
    requires
        cols is Some ==> subquery_of(*sub) is Some,
    ensures
        result_view(r) == sublink_type(
            snapshot@,
            *sub,
            match cols {
                Some(l) => Some(l@),
                None => None,
            },
        ),
{
    match sub.kind {
        SubLinkType::Exists => Ok(ExprType::scalar(BOOL, false)),
        SubLinkType::Expr => {
            match (cols, find_subquery(sub)) {
                (Some(l), Some(sel)) => {
                    if l.len() > 0 {
                        let one_row: bool = sel.group_clause.len() == 0 && has_aggregate_target(
                            &sel.target_list,
                        );
                        return Ok(ExprType::scalar(l[0].type_oid, !one_row || l[0].nullable));
                    }
                },
                _ => {},
            }
            Ok(ExprType::scalar(UNKNOWN, true))
        },
        SubLinkType::Any | SubLinkType::All => {
            match cols {
                Some(l) => {
                    let arity: usize = left_arity(&sub.testexpr);
                    if arity != l.len() {
                        let plural: &str = if l.len() == 1 {
                            ""
                        } else {
                            "s"
                        };
                        proof {
                            reveal_strlit("");
                            assert(""@ =~= Seq::<char>::empty());
                        }
                        let head: String = concat4(
                            "subquery has ",
                            decimal(l.len() as u64).as_str(),
                            " column",
                            plural,
                        );
                        return Err(
                            AnalyzeError::Invalid(
                                concat3(
                                    head.as_str(),
                                    ", lhs has ",
                                    decimal(arity as u64).as_str(),
                                ),
                            ),
                        );
                    }
                },
                None => {},
            }
            Ok(ExprType::scalar(BOOL, true))
        },
        SubLinkType::Array => {
            let elem: u32 = match cols {
                Some(l) => if l.len() > 0 {
                    l[0].type_oid
                } else {
                    UNKNOWN
                },
                None => UNKNOWN,
            };
            let array: u32 = match snapshot.array_type_of(elem) {
                Some(a) => a,
                None => UNKNOWN,
            };
            Ok(ExprType::scalar(array, false))
        },
        _ => Err(
            AnalyzeError::Unsupported(concat2("sublink type: ", sublink_name(sub.kind))),
        ),
    }
}

/// Infers a subquery expression from the analysis of its subquery.
pub fn infer_sublink(sub: &SubLink, snapshot: &PgCatalog, params: &mut ParamCollector) -> (r:
    Result<ExprType, AnalyzeError>)
    ensures
        (result_view(r), final(params)@) == sublink_outcome(*sub, snapshot@, old(params)@),
{
    let analyzed: bool = match sub.kind {
        SubLinkType::Exists
        | SubLinkType::Expr
        | SubLinkType::Any
        | SubLinkType::All
        | SubLinkType::Array => true,
        _ => false,
    };
    if analyzed && find_subquery(sub).is_some() {
        apply_events(&sub.analysis.params, params);
        match &sub.analysis.outcome {
            Ok(cols) => type_sublink(sub, Some(cols), snapshot),
            Err(e) => Err(e.copy()),
        }
    } else {
        type_sublink(sub, None, snapshot)
    }
}

// ── Helpers for the branches of COALESCE and CASE ───────────────────────────

fn common_branch_type(types: &Vec<u32>, context: &str, snapshot: &PgCatalog) -> (r: Result<
    u32,
    AnalyzeError,
>)
    ensures
        match r {
            Ok(t) => branch_type(snapshot@, types@, context@) == Ok::<_, AnalyzeErrorView>(t),
            Err(e) => branch_type(snapshot@, types@, context@) == Err::<u32, _>(e@),
        },
{
    let known: Vec<u32> = concrete_types(types);
    if known.len() == 0 {
        return Ok(
            match snapshot.preferred_type_in_category(TypCategory::String) {
                Some(t) => t,
                None => UNKNOWN,
            },
        );
    }
    match find_common_type(&known, snapshot) {
        Some(t) => Ok(t),
        None => Err(
            AnalyzeError::TypeMismatch {
                actual: type_oid_display(known[known.len() - 1], snapshot),
                expected: type_oid_display(known[0], snapshot),
                context: context.to_owned(),
            },
        ),
    }
}

fn texted_types(nodes: &Vec<Node>, slots: &Vec<TypeSlot>) -> (r: Vec<u32>)
    requires
        nodes@.len() == slots@.len(),
    ensures
        r@ == texted(nodes@, slots@),
{
    let mut r: Vec<u32> = Vec::new();
    let mut i: usize = 0;
    while i < slots.len()
        invariant
            i <= slots@.len() == nodes@.len(),
            r@ == texted(nodes@, slots@).take(i as int),
        decreases slots.len() - i,
    {
        r.push(unknown_literal_as_text(Some(&nodes[i]), slots[i].type_oid));
        proof {
            assert(texted(nodes@, slots@).take(i + 1) =~= texted(nodes@, slots@).take(
                i as int,
            ).push(texted(nodes@, slots@)[i as int]));
        }
        i = i + 1;
    }
    proof {
        assert(texted(nodes@, slots@).take(i as int) =~= texted(nodes@, slots@));
    }
    r
}

fn repeated(t: u32, n: usize) -> (r: Vec<u32>)
    ensures
        r@ == Seq::new(n as nat, |i: int| t),
{
    let mut r: Vec<u32> = Vec::new();
    let mut i: usize = 0;
    while i < n
        invariant
            i <= n,
            r@ == Seq::new(i as nat, |j: int| t),
        decreases n - i,
    {
        r.push(t);
        i = i + 1;
        proof {
            assert(r@ =~= Seq::new(i as nat, |j: int| t));
        }
    }
    r
}

fn dedup(types: &Vec<u32>) -> (r: Vec<u32>)
    ensures
        r@ == deduped(types@),
{
    let mut r: Vec<u32> = Vec::new();
    let mut i: usize = 0;
    while i < types.len()
        invariant
            i <= types@.len(),
            r@ == deduped(types@.take(i as int)),
            i > 0 ==> r@.len() > 0,
        decreases types.len() - i,
    {
        proof {
            assert(types@.take(i + 1).drop_last() =~= types@.take(i as int));
        }
        if i == 0 {
            r.push(types[0]);
            proof {
                assert(r@ =~= types@.take(1));
            }
        } else if r[r.len() - 1] != types[i] {
            r.push(types[i]);
        }
        i = i + 1;
    }
    proof {
        assert(types@.take(i as int) =~= types@);
    }
    r
}

fn nth_name(snapshot: &PgCatalog, types: &Vec<u32>, k: usize, fallback: &str) -> (r: String)
    ensures
        r@ == nth_type_name(snapshot@, types@, k as int, fallback@),
{
    if k < types.len() {
        type_name_or(snapshot, types[k], "oid ")
    } else {
        fallback.to_owned()
    }
}

fn array_mismatch(types: &Vec<u32>, snapshot: &PgCatalog) -> (r: AnalyzeError)
    ensures
        r@ == array_error(snapshot@, types@),
{
    let known: Vec<u32> = concrete_types(types);
    let l: Vec<u32> = dedup(&known);
    proof {
        reveal_strlit("");
        assert(""@ =~= Seq::<char>::empty());
    }
    let first: String = nth_name(snapshot, &l, 0, "?");
    let second: String = nth_name(snapshot, &l, 1, "?");
    AnalyzeError::TypeMismatch {
        actual: nth_name(snapshot, &l, 0, ""),
        expected: nth_name(snapshot, &l, 1, ""),
        context: concat5(
            "ARRAY types ",
            first.as_str(),
            " and ",
            second.as_str(),
            " cannot be matched",
        ),
    }
}

fn check_nested(args: &Vec<Node>, snapshot: &PgCatalog) -> (r: Result<(), AnalyzeError>)
    ensures
        match r {
            Ok(_) => nested_error(args@, 0, snapshot@) is None,
            Err(e) => nested_error(args@, 0, snapshot@) == Some(e@),
        },
{
    let mut i: usize = 0;
    while i < args.len()
        invariant
            i <= args@.len(),
            nested_error(args@, 0, snapshot@) == nested_error(args@, i as int, snapshot@),
        decreases args.len() - i,
    {
        let k: FuncKindPresence = detect_func_kinds(&args[i], snapshot);
        if k.has_aggregate {
            return Err(
                AnalyzeError::Invalid("aggregate function calls cannot be nested".to_owned()),
            );
        }
        if k.has_window {
            return Err(
                AnalyzeError::Invalid(
                    "window functions are not allowed inside aggregate arguments".to_owned(),
                ),
            );
        }
        i = i + 1;
    }
    Ok(())
}

fn is_slot_nullable(s: &Vec<TypeSlot>, i: usize) -> (r: bool)
    ensures
        r == slot_nullable(s@, i as int),
{
    i < s.len() && s[i].nullable
}

fn is_call_nullable(
    func: &FuncCall,
    name: &str,
    f: &ResolvedFunction,
    slots: &Vec<TypeSlot>,
    null_ctx: &NullabilityContext,
) -> (r: bool)
    ensures
        r == call_nullable(*func, name@, f@, slots@, null_ctx@),
{
    let builtin: bool = same_text(f.schema.as_str(), "pg_catalog");
    let shifts: bool = same_text(name, "lag") || same_text(name, "lead");
    let window: bool = shifts || same_text(name, "first_value") || same_text(name, "last_value")
        || same_text(name, "nth_value");
    if func.over.is_some() && window {
        if shifts && func.args.len() >= 3 {
            is_slot_nullable(slots, 0) || is_slot_nullable(slots, 2)
        } else {
            true
        }
    } else if f.is_aggregate {
        if same_text(name, "count") {
            false
        } else if func.agg_filter.is_some() || !null_ctx.has_group_by
            || null_ctx.has_empty_grouping_set {
            true
        } else {
            any_slot_nullable(slots)
        }
    } else if f.is_strict && builtin {
        is_nullable_strict_exception(name) || any_slot_nullable(slots)
    } else if builtin && same_text(name, "concat_ws") {
        is_slot_nullable(slots, 0)
    } else {
        !(!f.is_strict && builtin && is_not_null_nonstrict(name))
    }
}

fn is_row_comparison(op: &str) -> (r: bool)
    ensures
        r == crate::expr::compares_rows(op@),
{
    same_text(op, "=") || same_text(op, "<>") || same_text(op, "<") || same_text(op, ">")
        || same_text(op, "<=") || same_text(op, ">=")
}

fn reread_type(n: &Option<Box<Node>>, before: u32, params: &ParamCollector) -> (r: u32)
    ensures
        r == reread(*n, before, params@),
{
    match n {
        Some(b) => match &**b {
            Node::ParamRef(num) => {
                let t: u32 = params.get(*num);
                if t != UNKNOWN {
                    t
                } else {
                    before
                }
            },
            _ => before,
        },
        None => before,
    }
}

// ── Expressions ─────────────────────────────────────────────────────────────

/// Infers the type and nullability of an expression, and holds it against the
/// goal that its context sets.
///
/// # Errors
///
/// The expression names something that is not there, uses a feature that the
/// analyzer does not know, or does not meet its goal.
pub fn infer_expr(
    node: &Node,
    scope: &Scope,
    null_ctx: &NullabilityContext,
    snapshot: &PgCatalog,
    params: &mut ParamCollector,
    goal: TypeGoal,
) -> (r: Result<ExprType, AnalyzeError>)
    ensures
        (result_view(r), final(params)@) == expr_outcome(
            *node,
            env_of(*scope, *null_ctx, *snapshot),
            old(params)@,
            goal,
        ),
    decreases node, 2nat,
{
    match node {
        Node::Empty => Err(AnalyzeError::Unsupported("empty node".to_owned())),
        Node::CollateClause(arg) => infer_collate(arg, scope, null_ctx, snapshot, params, goal),
        Node::RowExpr(args) => infer_row(args, scope, null_ctx, snapshot, params, goal),
        _ => {
            let r: Result<ExprType, AnalyzeError> = infer_node(
                node,
                scope,
                null_ctx,
                snapshot,
                params,
                goal,
            );
            let res: Result<ExprType, AnalyzeError> = check_result(r, goal, snapshot);
            proof {
                assert((result_view(res), params@) == crate::expr::checked(
                    snapshot@,
                    (result_view(r), params@),
                    goal,
                ));
            }
            res
        },
    }
}

fn infer_row(
    args: &Vec<Node>,
    scope: &Scope,
    null_ctx: &NullabilityContext,
    snapshot: &PgCatalog,
    params: &mut ParamCollector,
    goal: TypeGoal,
) -> (r: Result<ExprType, AnalyzeError>)
    ensures
        forall|n: Node|
            n matches Node::RowExpr(a) && a == *args ==> (result_view(r), final(params)@)
                == #[trigger] expr_outcome(
                n,
                env_of(*scope, *null_ctx, *snapshot),
                old(params)@,
                goal,
            ),
    decreases args, 1nat,
{
    let ghost env = env_of(*scope, *null_ctx, *snapshot);
    if goal.has_expectation() {
        let target: u32 = snapshot.unwrap_domain(goal.type_oid);
        match snapshot.composite_fields(target) {
            Some(fields) => {
                if fields.len() == args.len() {
                    let ghost types = attr_views(fields@).map_values(
                        |a: crate::pg_catalog::PgAttributeView| a.atttypid,
                    );
                    let mut i: usize = 0;
                    while i < args.len()
                        invariant
                            i <= args@.len(),
                            fields@.len() == args@.len(),
                            env == env_of(*scope, *null_ctx, *snapshot),
                            types == attr_views(fields@).map_values(
                                |a: crate::pg_catalog::PgAttributeView| a.atttypid,
                            ),
                            row_goal(snapshot@, args@.len(), goal) == Some((target, types)),
                            typed_from(args@, 0, types, env, old(params)@) == typed_from(
                                args@,
                                i as int,
                                types,
                                env,
                                params@,
                            ),
                        decreases args.len() - i,
                    {
                        proof {
                            assert(decreases_to!(args => args@[i as int]));
                            assert(types[i as int] == fields@[i as int].atttypid);
                        }
                        match infer_expr(
                            &args[i],
                            scope,
                            null_ctx,
                            snapshot,
                            params,
                            TypeGoal::assignment(fields[i].atttypid),
                        ) {
                            Ok(_) => {},
                            Err(e) => return Err(e),
                        }
                        i = i + 1;
                    }
                    return Ok(ExprType::scalar(target, false));
                }
            },
            None => {},
        }
    }
    let mut fields: Vec<RecordField> = Vec::new();
    let mut i: usize = 0;
    while i < args.len()
        invariant
            i <= args@.len(),
            env == env_of(*scope, *null_ctx, *snapshot),
            row_goal(snapshot@, args@.len(), goal) is None,
            record_from(args@, 0, Seq::empty(), env, old(params)@) == record_from(
                args@,
                i as int,
                field_views_of(fields@),
                env,
                params@,
            ),
        decreases args.len() - i,
    {
        proof {
            assert(decreases_to!(args => args@[i as int]));
        }
        match infer_expr(&args[i], scope, null_ctx, snapshot, params, TypeGoal::none()) {
            Ok(ty) => {
                let name: String = concat2("f", decimal(i as u64 + 1).as_str());
                let f: RecordField = RecordField { name, ty };
                proof {
                    lemma_field_views_push(fields@, f);
                }
                fields.push(f);
            },
            Err(e) => return Err(e),
        }
        i = i + 1;
    }
    let r: Result<ExprType, AnalyzeError> = Ok(
        ExprType { type_oid: RECORD, nullable: false, record_fields: Some(fields) },
    );
    let res: Result<ExprType, AnalyzeError> = check_result(r, goal, snapshot);
    proof {
        assert((result_view(res), params@) == crate::expr::checked(
            snapshot@,
            (result_view(r), params@),
            goal,
        ));
    }
    res
}

fn infer_collate(
    arg: &Option<Box<Node>>,
    scope: &Scope,
    null_ctx: &NullabilityContext,
    snapshot: &PgCatalog,
    params: &mut ParamCollector,
    goal: TypeGoal,
) -> (r: Result<ExprType, AnalyzeError>)
    ensures
        (result_view(r), final(params)@) == collate_outcome(
            *arg,
            env_of(*scope, *null_ctx, *snapshot),
            old(params)@,
            goal,
        ),
    decreases arg, 2nat,
{
    match arg {
        None => Err(AnalyzeError::Internal("CollateClause without arg".to_owned())),
        Some(b) => {
            let t: ExprType = match infer_expr(b, scope, null_ctx, snapshot, params, goal) {
                Ok(t) => t,
                Err(e) => return Err(e),
            };
            if t.type_oid == UNKNOWN {
                return Ok(t);
            }
            let base: u32 = snapshot.unwrap_domain(t.type_oid);
            let is_string: bool = match snapshot.get_type(base) {
                Some(row) => row.typcategory == TypCategory::String,
                None => false,
            };
            if is_string {
                Ok(t)
            } else {
                let name: String = type_name_or(snapshot, base, "oid ");
                Err(
                    AnalyzeError::Invalid(
                        concat2("collations are not supported by type ", name.as_str()),
                    ),
                )
            }
        },
    }
}

fn infer_node(
    node: &Node,
    scope: &Scope,
    null_ctx: &NullabilityContext,
    snapshot: &PgCatalog,
    params: &mut ParamCollector,
    goal: TypeGoal,
) -> (r: Result<ExprType, AnalyzeError>)
    requires
        !(node is Empty),
        !(node is CollateClause),
        !(node is RowExpr),
    ensures
        (result_view(r), final(params)@) == node_outcome(
            *node,
            env_of(*scope, *null_ctx, *snapshot),
            old(params)@,
            goal,
        ),
    decreases node, 1nat,
{
    match node {
        Node::ColumnRef(cr) => infer_column_ref(&cr.fields, scope, null_ctx, snapshot),
        Node::AConst(v) => Ok(infer_a_const(*v)),
        Node::TypeCast(cast) => infer_type_cast(cast, scope, null_ctx, snapshot, params),
        Node::FuncCall(func) => infer_func_call(func, scope, null_ctx, snapshot, params),
        Node::AExpr(e) => infer_a_expr(e, scope, null_ctx, snapshot, params),
        Node::BoolExpr(args) => infer_bool_expr(args, scope, null_ctx, snapshot, params),
        Node::NullTest(_) => Ok(ExprType::scalar(BOOL, false)),
        Node::BooleanTest(_) => Ok(ExprType::scalar(BOOL, false)),
        Node::CoalesceExpr(args) => infer_coalesce(args, scope, null_ctx, snapshot, params),
        Node::CaseExpr(e) => infer_case(e, scope, null_ctx, snapshot, params),
        Node::SubLink(sub) => infer_sublink(sub, snapshot, params),
        Node::ParamRef(num) => {
            params.see(*num);
            if params.get(*num) == UNKNOWN && goal.has_expectation() {
                params.record(*num, goal.type_oid);
            }
            Ok(ExprType::scalar(params.get(*num), params.is_nullable(*num)))
        },
        Node::MinMaxExpr(mm) => {
            let slots: Vec<TypeSlot> = match infer_slots(
                &mm.args,
                scope,
                null_ctx,
                snapshot,
                params,
                TypeGoal::none(),
            ) {
                Ok(s) => s,
                Err(e) => return Err(e),
            };
            let t: u32 = if mm.minmaxtype != 0 && mm.minmaxtype != UNKNOWN {
                mm.minmaxtype
            } else {
                match find_common_type(&types_of_slots(&slots), snapshot) {
                    Some(t) => t,
                    None => UNKNOWN,
                }
            };
            Ok(ExprType::scalar(t, all_slots_nullable(&slots)))
        },
        Node::AIndirection(ind) => infer_indirection(ind, scope, null_ctx, snapshot, params),
        Node::AArrayExpr(elements) => infer_array_expr(
            elements,
            scope,
            null_ctx,
            snapshot,
            params,
        ),
        Node::SetToDefault => Ok(ExprType::scalar(goal.type_oid, false)),
        _ => Err(
            AnalyzeError::Unsupported(
                concat2("expression node type not supported: ", kind_name(node)),
            ),
        ),
    }
}

/// Infers several expressions against one goal; the first error ends it.
fn infer_slots(
    nodes: &Vec<Node>,
    scope: &Scope,
    null_ctx: &NullabilityContext,
    snapshot: &PgCatalog,
    params: &mut ParamCollector,
    goal: TypeGoal,
) -> (r: Result<Vec<TypeSlot>, AnalyzeError>)
    ensures
        (slots_view(r), final(params)@) == slots_from(
            nodes@,
            0,
            Seq::empty(),
            env_of(*scope, *null_ctx, *snapshot),
            old(params)@,
            goal,
        ),
        r matches Ok(v) ==> v@.len() == nodes@.len(),
    decreases nodes, 0nat,
{
    let ghost env = env_of(*scope, *null_ctx, *snapshot);
    let mut slots: Vec<TypeSlot> = Vec::new();
    let mut i: usize = 0;
    while i < nodes.len()
        invariant
            i <= nodes@.len(),
            slots@.len() == i,
            env == env_of(*scope, *null_ctx, *snapshot),
            slots_from(nodes@, 0, Seq::empty(), env, old(params)@, goal) == slots_from(
                nodes@,
                i as int,
                slots@,
                env,
                params@,
                goal,
            ),
        decreases nodes.len() - i,
    {
        proof {
            assert(decreases_to!(nodes => nodes@[i as int]));
        }
        match infer_expr(&nodes[i], scope, null_ctx, snapshot, params, goal) {
            Ok(t) => slots.push(TypeSlot { type_oid: t.type_oid, nullable: t.nullable }),
            Err(e) => return Err(e),
        }
        i = i + 1;
    }
    Ok(slots)
}

/// Infers several expressions for what they say of parameters.
fn visit_list(
    nodes: &Vec<Node>,
    scope: &Scope,
    null_ctx: &NullabilityContext,
    snapshot: &PgCatalog,
    params: &mut ParamCollector,
    goal: TypeGoal,
)
    ensures
        final(params)@ == visited_from(
            nodes@,
            0,
            env_of(*scope, *null_ctx, *snapshot),
            old(params)@,
            goal,
        ),
    decreases nodes, 0nat,
{
    let ghost env = env_of(*scope, *null_ctx, *snapshot);
    let mut i: usize = 0;
    while i < nodes.len()
        invariant
            i <= nodes@.len(),
            env == env_of(*scope, *null_ctx, *snapshot),
            visited_from(nodes@, 0, env, old(params)@, goal) == visited_from(
                nodes@,
                i as int,
                env,
                params@,
                goal,
            ),
        decreases nodes.len() - i,
    {
        proof {
            assert(decreases_to!(nodes => nodes@[i as int]));
        }
        let _r: Result<ExprType, AnalyzeError> = infer_expr(
            &nodes[i],
            scope,
            null_ctx,
            snapshot,
            params,
            goal,
        );
        i = i + 1;
    }
}

/// Infers an expression that may be missing, for what it says of parameters.
fn visit_opt(
    node: &Option<Box<Node>>,
    scope: &Scope,
    null_ctx: &NullabilityContext,
    snapshot: &PgCatalog,
    params: &mut ParamCollector,
    goal: TypeGoal,
)
    ensures
        final(params)@ == visited_opt(
            *node,
            env_of(*scope, *null_ctx, *snapshot),
            old(params)@,
            goal,
        ),
    decreases node, 0nat,
{
    match node {
        Some(b) => {
            let _r: Result<ExprType, AnalyzeError> = infer_expr(
                b,
                scope,
                null_ctx,
                snapshot,
                params,
                goal,
            );
        },
        None => {},
    }
}

/// Infers an expression that may be missing.
fn infer_opt(
    node: &Option<Box<Node>>,
    scope: &Scope,
    null_ctx: &NullabilityContext,
    snapshot: &PgCatalog,
    params: &mut ParamCollector,
    goal: TypeGoal,
) -> (r: Result<Option<ExprType>, AnalyzeError>)
    ensures
        match (r, opt_outcome(*node, env_of(*scope, *null_ctx, *snapshot), old(params)@, goal).0) {
            (Ok(Some(t)), Ok(Some(v))) => t@ == v,
            (Ok(None), Ok(None)) => true,
            (Err(e), Err(v)) => e@ == v,
            _ => false,
        },
        r matches Ok(t) ==> (t is Some == node is Some),
        final(params)@ == opt_outcome(
            *node,
            env_of(*scope, *null_ctx, *snapshot),
            old(params)@,
            goal,
        ).1,
    decreases node, 0nat,
{
    match node {
        Some(b) => match infer_expr(b, scope, null_ctx, snapshot, params, goal) {
            Ok(t) => Ok(Some(t)),
            Err(e) => Err(e),
        },
        None => Ok(None),
    }
}

/// Infers the expressions of unknown type once more, against the types that are
/// expected of them.
fn backfill(
    nodes: &Vec<Node>,
    types: &Vec<u32>,
    goals: &Vec<u32>,
    scope: &Scope,
    null_ctx: &NullabilityContext,
    snapshot: &PgCatalog,
    params: &mut ParamCollector,
)
    ensures
        final(params)@ == backfilled_from(
            nodes@,
            0,
            types@,
            goals@,
            env_of(*scope, *null_ctx, *snapshot),
            old(params)@,
        ),
    decreases nodes, 0nat,
{
    let ghost env = env_of(*scope, *null_ctx, *snapshot);
    let mut i: usize = 0;
    while i < nodes.len()
        invariant
            i <= nodes@.len(),
            env == env_of(*scope, *null_ctx, *snapshot),
            backfilled_from(nodes@, 0, types@, goals@, env, old(params)@) == backfilled_from(
                nodes@,
                i as int,
                types@,
                goals@,
                env,
                params@,
            ),
        decreases nodes.len() - i,
    {
        proof {
            assert(decreases_to!(nodes => nodes@[i as int]));
        }
        if i < types.len() && types[i] == UNKNOWN && i < goals.len() && goals[i] != UNKNOWN {
            let _r: Result<ExprType, AnalyzeError> = infer_expr(
                &nodes[i],
                scope,
                null_ctx,
                snapshot,
                params,
                TypeGoal::implicit(goals[i]),
            );
        }
        i = i + 1;
    }
}

fn infer_bool_expr(
    args: &Vec<Node>,
    scope: &Scope,
    null_ctx: &NullabilityContext,
    snapshot: &PgCatalog,
    params: &mut ParamCollector,
) -> (r: Result<ExprType, AnalyzeError>)
    ensures
        forall|n: Node, goal: TypeGoal|
            n matches Node::BoolExpr(a) && a == *args ==> (result_view(r), final(params)@)
                == #[trigger] node_outcome(
                n,
                env_of(*scope, *null_ctx, *snapshot),
                old(params)@,
                goal,
            ),
    decreases args, 1nat,
{
    match infer_slots(args, scope, null_ctx, snapshot, params, TypeGoal::assignment(BOOL)) {
        Ok(s) => Ok(ExprType::scalar(BOOL, any_slot_nullable(&s))),
        Err(e) => Err(e),
    }
}

// ── Indirection ─────────────────────────────────────────────────────────────

fn loose_types(args: &Vec<Node>, snapshot: &PgCatalog, params: &mut ParamCollector) -> (r: Vec<u32>)
    ensures
        (r@, final(params)@) == loose_types_from(
            args@,
            0,
            Seq::empty(),
            bare_env(snapshot@),
            old(params)@,
        ),
    decreases args, 0nat,
{
    let scope: Scope = Scope { sources: Vec::new() };
    let null_ctx: NullabilityContext = Default::default();
    let ghost env = env_of(scope, null_ctx, *snapshot);
    proof {
        assert(env.sources =~= Seq::empty());
        assert(env == bare_env(snapshot@));
    }
    let mut types: Vec<u32> = Vec::new();
    let mut i: usize = 0;
    while i < args.len()
        invariant
            i <= args@.len(),
            env == env_of(scope, null_ctx, *snapshot),
            loose_types_from(args@, 0, Seq::empty(), env, old(params)@) == loose_types_from(
                args@,
                i as int,
                types@,
                env,
                params@,
            ),
        decreases args.len() - i,
    {
        proof {
            assert(decreases_to!(args => args@[i as int]));
        }
        match infer_expr(&args[i], &scope, &null_ctx, snapshot, params, TypeGoal::none()) {
            Ok(t) => types.push(t.type_oid),
            Err(_) => types.push(UNKNOWN),
        }
        i = i + 1;
    }
    types
}

fn resolve_funccall_out_args(
    fc: &FuncCall,
    snapshot: &PgCatalog,
    params: &mut ParamCollector,
) -> (r:
    Option<Vec<RecordField>>)
    ensures
        (opt_field_views(r), final(params)@) == call_fields(*fc, snapshot@, old(params)@),
    decreases fc, 0nat,
{
    match split_name(&fc.funcname) {
        None => None,
        Some((schema, name)) => {
            let types: Vec<u32> = loose_types(&fc.args, snapshot, params);
            match resolve_function(snapshot, schema, name, &types) {
                Ok(f) => if f.out_args.len() == 0 {
                    None
                } else {
                    Some(RecordField::lift_all(&f.out_args))
                },
                Err(_) => None,
            }
        },
    }
}

fn find_leading_fields(
    arg: &Node,
    scope: &Scope,
    null_ctx: &NullabilityContext,
    snapshot: &PgCatalog,
    params: &mut ParamCollector,
) -> (r: Option<Vec<RecordField>>)
    ensures
        (opt_field_views(r), final(params)@) == leading_fields(
            *arg,
            env_of(*scope, *null_ctx, *snapshot),
            old(params)@,
        ),
    decreases arg, 0nat,
{
    match arg {
        Node::FuncCall(fc) => resolve_funccall_out_args(fc, snapshot, params),
        Node::ColumnRef(cr) => column_ref_record_fields(&cr.fields, scope),
        _ => None,
    }
}

fn take_leading_steps(fields: &Vec<RecordField>, steps: &Vec<Node>) -> (r: Result<
    (usize, Option<ExprType>),
    AnalyzeError,
>)
    ensures
        match (r, leading_steps(field_views_of(fields@), steps@, 0, None)) {
            (Ok((k, Some(t))), Ok((n, Some(v)))) => k == n && t@ == v,
            (Ok((k, None)), Ok((n, None))) => k == n,
            (Err(e), Err(v)) => e@ == v,
            _ => false,
        },
        r matches Ok((k, _)) ==> k <= steps@.len(),
{
    let mut current: Option<ExprType> = None;
    let mut i: usize = 0;
    while i < steps.len()
        invariant
            i <= steps@.len(),
            leading_steps(field_views_of(fields@), steps@, 0, None) == leading_steps(
                field_views_of(fields@),
                steps@,
                i as int,
                match current {
                    Some(t) => Some(t@),
                    None => None,
                },
            ),
        decreases steps.len() - i,
    {
        match &steps[i] {
            Node::Text(s) => match field_named(fields, s.as_str()) {
                Some(f) => {
                    current = Some(f.ty.copy());
                },
                None => return Err(
                    AnalyzeError::UndefinedColumn(
                        concat3("record field \"", s.as_str(), "\" does not exist"),
                    ),
                ),
            },
            _ => return Ok((i, current)),
        }
        i = i + 1;
    }
    Ok((i, current))
}

fn infer_subscript(
    ai: &AIndices,
    current: &ExprType,
    scope: &Scope,
    null_ctx: &NullabilityContext,
    snapshot: &PgCatalog,
    params: &mut ParamCollector,
) -> (r: Result<ExprType, AnalyzeError>)
    ensures
        (result_view(r), final(params)@) == subscript_outcome(
            *ai,
            current@,
            env_of(*scope, *null_ctx, *snapshot),
            old(params)@,
        ),
    decreases ai, 0nat,
{
    match infer_opt(
        &ai.lidx,
        scope,
        null_ctx,
        snapshot,
        params,
        TypeGoal::assignment(INT4),
    ) {
        Ok(_) => {},
        Err(e) => return Err(e),
    }
    match infer_opt(
        &ai.uidx,
        scope,
        null_ctx,
        snapshot,
        params,
        TypeGoal::assignment(INT4),
    ) {
        Ok(_) => {},
        Err(e) => return Err(e),
    }
    if ai.is_slice {
        Err(slice_fault(current.type_oid, snapshot))
    } else {
        resolve_array_element(current, snapshot)
    }
}

fn take_steps(
    steps: &Vec<Node>,
    start: usize,
    first: ExprType,
    scope: &Scope,
    null_ctx: &NullabilityContext,
    snapshot: &PgCatalog,
    params: &mut ParamCollector,
) -> (r: Result<ExprType, AnalyzeError>)
    requires
        start <= steps@.len(),
    ensures
        (result_view(r), final(params)@) == steps_from(
            steps@,
            start as int,
            first@,
            env_of(*scope, *null_ctx, *snapshot),
            old(params)@,
        ),
    decreases steps, 0nat,
{
    let ghost env = env_of(*scope, *null_ctx, *snapshot);
    let mut current: ExprType = first;
    let mut i: usize = start;
    while i < steps.len()
        invariant
            start <= i <= steps@.len(),
            env == env_of(*scope, *null_ctx, *snapshot),
            steps_from(steps@, start as int, first@, env, old(params)@) == steps_from(
                steps@,
                i as int,
                current@,
                env,
                params@,
            ),
        decreases steps.len() - i,
    {
        proof {
            assert(decreases_to!(steps => steps@[i as int]));
        }
        let next: Result<ExprType, AnalyzeError> = match &steps[i] {
            Node::Text(s) => resolve_composite_field(&current, s.as_str(), snapshot),
            Node::AIndices(ai) => infer_subscript(ai, &current, scope, null_ctx, snapshot, params),
            _ => Err(
                AnalyzeError::Unsupported(
                    concat2("unsupported indirection step: ", kind_name(&steps[i])),
                ),
            ),
        };
        match next {
            Ok(t) => {
                current = t;
            },
            Err(e) => return Err(e),
        }
        i = i + 1;
    }
    Ok(current)
}

fn infer_indirection(
    ind: &AIndirection,
    scope: &Scope,
    null_ctx: &NullabilityContext,
    snapshot: &PgCatalog,
    params: &mut ParamCollector,
) -> (r: Result<ExprType, AnalyzeError>)
    ensures
        (result_view(r), final(params)@) == indirection_outcome(
            *ind,
            env_of(*scope, *null_ctx, *snapshot),
            old(params)@,
        ),
    decreases ind, 0nat,
{
    match &ind.arg {
        None => Err(AnalyzeError::Unsupported("indirection without arg".to_owned())),
        Some(arg) => {
            let lead: Option<Vec<RecordField>> = find_leading_fields(
                arg,
                scope,
                null_ctx,
                snapshot,
                params,
            );
            let (k, found): (usize, Option<ExprType>) = match &lead {
                Some(fields) => match take_leading_steps(fields, &ind.indirection) {
                    Ok(start) => start,
                    Err(e) => return Err(e),
                },
                None => (0, None),
            };
            let first: ExprType = match found {
                Some(t) => t,
                None => match infer_expr(arg, scope, null_ctx, snapshot, params, TypeGoal::none()) {
                    Ok(t) => t,
                    Err(e) => return Err(e),
                },
            };
            take_steps(&ind.indirection, k, first, scope, null_ctx, snapshot, params)
        },
    }
}

fn infer_array_expr(
    elements: &Vec<Node>,
    scope: &Scope,
    null_ctx: &NullabilityContext,
    snapshot: &PgCatalog,
    params: &mut ParamCollector,
) -> (r: Result<ExprType, AnalyzeError>)
    ensures
        (result_view(r), final(params)@) == array_outcome(
            elements@,
            env_of(*scope, *null_ctx, *snapshot),
            old(params)@,
        ),
    decreases elements, 1nat,
{
    if elements.len() == 0 {
        return Ok(ExprType::scalar(UNKNOWN, false));
    }
    let slots: Vec<TypeSlot> = match infer_slots(
        elements,
        scope,
        null_ctx,
        snapshot,
        params,
        TypeGoal::none(),
    ) {
        Ok(s) => s,
        Err(e) => return Err(e),
    };
    let types: Vec<u32> = types_of_slots(&slots);
    match find_common_type(&types, snapshot) {
        Some(t) => {
            let array: u32 = match snapshot.array_type_of(t) {
                Some(a) => a,
                None => UNKNOWN,
            };
            Ok(ExprType::scalar(array, false))
        },
        None => Err(array_mismatch(&types, snapshot)),
    }
}

// ── Casts and calls ─────────────────────────────────────────────────────────

fn infer_type_cast(
    cast: &TypeCast,
    scope: &Scope,
    null_ctx: &NullabilityContext,
    snapshot: &PgCatalog,
    params: &mut ParamCollector,
) -> (r: Result<ExprType, AnalyzeError>)
    ensures
        (result_view(r), final(params)@) == cast_outcome(
            *cast,
            env_of(*scope, *null_ctx, *snapshot),
            old(params)@,
        ),
    decreases cast, 0nat,
{
    match &cast.arg {
        None => Err(AnalyzeError::Unsupported("TypeCast without arg".to_owned())),
        Some(arg) => {
            let target: u32 = match resolve_type_name(&cast.target, snapshot) {
                Ok(t) => t,
                Err(e) => return Err(e),
            };
            let t: ExprType = match infer_expr(
                arg,
                scope,
                null_ctx,
                snapshot,
                params,
                TypeGoal::none(),
            ) {
                Ok(t) => t,
                Err(e) => return Err(e),
            };
            match &**arg {
                Node::ParamRef(num) => {
                    if params.get(*num) == UNKNOWN {
                        params.record(*num, target);
                    }
                },
                _ => {},
            }
            Ok(ExprType::scalar(target, t.nullable))
        },
    }
}

fn visit_window(
    w: &WindowDef,
    scope: &Scope,
    null_ctx: &NullabilityContext,
    snapshot: &PgCatalog,
    params: &mut ParamCollector,
)
    ensures
        final(params)@ == window_visited(
            *w,
            env_of(*scope, *null_ctx, *snapshot),
            old(params)@,
        ),
    decreases w, 0nat,
{
    visit_list(&w.partition_clause, scope, null_ctx, snapshot, params, TypeGoal::none());
    visit_list(&w.order_clause, scope, null_ctx, snapshot, params, TypeGoal::none());
    visit_opt(&w.start_offset, scope, null_ctx, snapshot, params, TypeGoal::none());
    visit_opt(&w.end_offset, scope, null_ctx, snapshot, params, TypeGoal::none());
}

fn visit_modifiers(
    func: &FuncCall,
    scope: &Scope,
    null_ctx: &NullabilityContext,
    snapshot: &PgCatalog,
    params: &mut ParamCollector,
)
    ensures
        final(params)@ == modifiers_visited(
            *func,
            env_of(*scope, *null_ctx, *snapshot),
            old(params)@,
        ),
    decreases func, 0nat,
{
    visit_opt(&func.agg_filter, scope, null_ctx, snapshot, params, TypeGoal::implicit(BOOL));
    visit_list(&func.agg_order, scope, null_ctx, snapshot, params, TypeGoal::none());
    match &func.over {
        Some(w) => visit_window(w, scope, null_ctx, snapshot, params),
        None => {},
    }
}

fn infer_func_call(
    func: &FuncCall,
    scope: &Scope,
    null_ctx: &NullabilityContext,
    snapshot: &PgCatalog,
    params: &mut ParamCollector,
) -> (r: Result<ExprType, AnalyzeError>)
    ensures
        (result_view(r), final(params)@) == call_outcome(
            *func,
            env_of(*scope, *null_ctx, *snapshot),
            old(params)@,
        ),
    decreases func, 1nat,
{
    match split_name(&func.funcname) {
        None => Err(
            AnalyzeError::UndefinedFunction(
                concat2("invalid function name: ", debug_list(&func.funcname).as_str()),
            ),
        ),
        Some((schema, name)) => {
            let slots: Vec<TypeSlot> = match infer_slots(
                &func.args,
                scope,
                null_ctx,
                snapshot,
                params,
                TypeGoal::none(),
            ) {
                Ok(s) => s,
                Err(e) => return Err(e),
            };
            let types: Vec<u32> = types_of_slots(&slots);
            let f: ResolvedFunction = match resolve_function(snapshot, schema, name, &types) {
                Ok(f) => f,
                Err(e) => return Err(e),
            };
            if f.is_aggregate {
                match check_nested(&func.args, snapshot) {
                    Ok(_) => {},
                    Err(e) => return Err(e),
                }
            }
            backfill(&func.args, &types, &f.arg_types, scope, null_ctx, snapshot, params);
            visit_modifiers(func, scope, null_ctx, snapshot, params);
            let nullable: bool = is_call_nullable(func, name, &f, &slots, null_ctx);
            Ok(ExprType::scalar(f.return_type_oid, nullable))
        },
    }
}

// ── Operators ───────────────────────────────────────────────────────────────

/// The type of an operand, `UNKNOWN` where it is missing.
fn oid_or_unknown(t: &Option<ExprType>) -> (r: u32)
    ensures
        r == crate::expr::type_or_unknown(
            match *t {
                Some(x) => Some(x@),
                None => None,
            },
        ),
{
    match t {
        Some(x) => x.type_oid,
        None => UNKNOWN,
    }
}

fn operand_nullable(t: &Option<ExprType>) -> (r: bool)
    ensures
        r == crate::expr::nullable_or_not(
            match *t {
                Some(x) => Some(x@),
                None => None,
            },
        ),
{
    match t {
        Some(x) => x.nullable,
        None => false,
    }
}

/// The view of two operands.
pub open spec fn pair_view(p: (Option<ExprType>, Option<ExprType>)) -> (
    Option<ExprTypeView>,
    Option<ExprTypeView>,
) {
    (
        match p.0 {
            Some(x) => Some(x@),
            None => None,
        },
        match p.1 {
            Some(x) => Some(x@),
            None => None,
        },
    )
}

fn infer_operands(
    e: &AExpr,
    right_follows: bool,
    scope: &Scope,
    null_ctx: &NullabilityContext,
    snapshot: &PgCatalog,
    params: &mut ParamCollector,
) -> (r: Result<(Option<ExprType>, Option<ExprType>), AnalyzeError>)
    ensures
        ({
            let env = env_of(*scope, *null_ctx, *snapshot);
            let o = if right_follows {
                operands_outcome(*e, env, old(params)@)
            } else {
                free_operands_outcome(*e, env, old(params)@)
            };
            &&& final(params)@ == o.1
            &&& match (r, o.0) {
                (Ok(p), Ok(v)) => pair_view(p) == v && (p.0 is Some == e.lexpr is Some) && (p.1 is Some
                    == e.rexpr is Some),
                (Err(x), Err(v)) => x@ == v,
                _ => false,
            }
        }),
    decreases e, 0nat,
{
    let left: Option<ExprType> = match infer_opt(
        &e.lexpr,
        scope,
        null_ctx,
        snapshot,
        params,
        TypeGoal::none(),
    ) {
        Ok(t) => t,
        Err(x) => return Err(x),
    };
    let goal: TypeGoal = if right_follows {
        operand_goal(oid_or_unknown(&left))
    } else {
        TypeGoal::none()
    };
    match infer_opt(&e.rexpr, scope, null_ctx, snapshot, params, goal) {
        Ok(right) => Ok((left, right)),
        Err(x) => Err(x),
    }
}

fn infer_nullif(
    e: &AExpr,
    scope: &Scope,
    null_ctx: &NullabilityContext,
    snapshot: &PgCatalog,
    params: &mut ParamCollector,
) -> (r: Result<ExprType, AnalyzeError>)
    ensures
        (result_view(r), final(params)@) == nullif_outcome(
            *e,
            env_of(*scope, *null_ctx, *snapshot),
            old(params)@,
        ),
    decreases e, 1nat,
{
    let (left, right): (Option<ExprType>, Option<ExprType>) = match infer_operands(
        e,
        true,
        scope,
        null_ctx,
        snapshot,
        params,
    ) {
        Ok(p) => p,
        Err(x) => return Err(x),
    };
    let left_oid: u32 = oid_or_unknown(&left);
    let right_oid: u32 = oid_or_unknown(&right);
    let final_left: u32 = if left_oid == UNKNOWN && right_oid != UNKNOWN {
        match infer_opt(
            &e.lexpr,
            scope,
            null_ctx,
            snapshot,
            params,
            TypeGoal::implicit(right_oid),
        ) {
            Ok(Some(t)) => t.type_oid,
            _ => left_oid,
        }
    } else {
        left_oid
    };
    let lc: u32 = operand_as_text(&e.lexpr, final_left);
    let rc: u32 = operand_as_text(&e.rexpr, right_oid);
    if lc != UNKNOWN && rc != UNKNOWN && snapshot.find_operator("=", Some(lc), rc).is_none() {
        let ln: String = type_display_name(lc, snapshot);
        let rn: String = type_display_name(rc, snapshot);
        let context: String = concat5(
            "NULLIF types ",
            ln.as_str(),
            " and ",
            rn.as_str(),
            " cannot be matched",
        );
        return Err(AnalyzeError::TypeMismatch { actual: rn, expected: ln, context });
    }
    let t: u32 = if final_left != UNKNOWN {
        final_left
    } else {
        right_oid
    };
    Ok(ExprType::scalar(t, true))
}

fn infer_distinct(
    e: &AExpr,
    scope: &Scope,
    null_ctx: &NullabilityContext,
    snapshot: &PgCatalog,
    params: &mut ParamCollector,
) -> (r: Result<ExprType, AnalyzeError>)
    ensures
        (result_view(r), final(params)@) == distinct_outcome(
            *e,
            env_of(*scope, *null_ctx, *snapshot),
            old(params)@,
        ),
    decreases e, 1nat,
{
    match infer_operands(e, true, scope, null_ctx, snapshot, params) {
        Ok(_) => Ok(ExprType::scalar(BOOL, false)),
        Err(x) => Err(x),
    }
}

fn infer_members(
    n: &Option<Box<Node>>,
    scope: &Scope,
    null_ctx: &NullabilityContext,
    snapshot: &PgCatalog,
    params: &mut ParamCollector,
    goal: TypeGoal,
) -> (r: Result<Vec<TypeSlot>, AnalyzeError>)
    ensures
        (slots_view(r), final(params)@) == members_outcome(
            *n,
            env_of(*scope, *null_ctx, *snapshot),
            old(params)@,
            goal,
        ),
    decreases n, 0nat,
{
    match n {
        Some(b) => match &**b {
            Node::List(items) => infer_slots(items, scope, null_ctx, snapshot, params, goal),
            _ => Ok(Vec::new()),
        },
        None => Ok(Vec::new()),
    }
}

fn infer_list_test(
    e: &AExpr,
    scope: &Scope,
    null_ctx: &NullabilityContext,
    snapshot: &PgCatalog,
    params: &mut ParamCollector,
) -> (r: Result<ExprType, AnalyzeError>)
    ensures
        (result_view(r), final(params)@) == list_outcome(
            *e,
            env_of(*scope, *null_ctx, *snapshot),
            old(params)@,
        ),
    decreases e, 1nat,
{
    let left: Option<ExprType> = match infer_opt(
        &e.lexpr,
        scope,
        null_ctx,
        snapshot,
        params,
        TypeGoal::none(),
    ) {
        Ok(t) => t,
        Err(x) => return Err(x),
    };
    let goal: TypeGoal = operand_goal(oid_or_unknown(&left));
    match infer_members(&e.rexpr, scope, null_ctx, snapshot, params, goal) {
        Ok(s) => Ok(ExprType::scalar(BOOL, operand_nullable(&left) || any_slot_nullable(&s))),
        Err(x) => Err(x),
    }
}

fn infer_any_all(
    e: &AExpr,
    scope: &Scope,
    null_ctx: &NullabilityContext,
    snapshot: &PgCatalog,
    params: &mut ParamCollector,
) -> (r: Result<ExprType, AnalyzeError>)
    ensures
        (result_view(r), final(params)@) == any_outcome(
            *e,
            env_of(*scope, *null_ctx, *snapshot),
            old(params)@,
        ),
    decreases e, 1nat,
{
    let (left, right): (Option<ExprType>, Option<ExprType>) = match infer_operands(
        e,
        false,
        scope,
        null_ctx,
        snapshot,
        params,
    ) {
        Ok(p) => p,
        Err(x) => return Err(x),
    };
    let left_oid: u32 = oid_or_unknown(&left);
    let right_oid: u32 = oid_or_unknown(&right);
    if left_oid != UNKNOWN && right_oid == UNKNOWN {
        match snapshot.array_type_of(left_oid) {
            Some(a) => visit_opt(
                &e.rexpr,
                scope,
                null_ctx,
                snapshot,
                params,
                TypeGoal::implicit(a),
            ),
            None => {},
        }
    }
    if right_oid != UNKNOWN && left_oid == UNKNOWN {
        match snapshot.element_of(right_oid) {
            Some(t) => visit_opt(
                &e.lexpr,
                scope,
                null_ctx,
                snapshot,
                params,
                TypeGoal::implicit(t),
            ),
            None => {},
        }
    }
    Ok(ExprType::scalar(BOOL, operand_nullable(&left) || operand_nullable(&right)))
}

fn infer_row_comparison(
    e: &AExpr,
    la: &Vec<Node>,
    ra: &Vec<Node>,
    Ghost(op): Ghost<Seq<char>>,
    scope: &Scope,
    null_ctx: &NullabilityContext,
    snapshot: &PgCatalog,
    params: &mut ParamCollector,
) -> (r: Result<ExprType, AnalyzeError>)
    requires
        compared_rows(*e, op) == Some((la@, ra@)),
        decreases_to!(e => la),
        decreases_to!(e => ra),
    ensures
        (result_view(r), final(params)@) == rows_outcome(
            *e,
            op,
            env_of(*scope, *null_ctx, *snapshot),
            old(params)@,
        ),
    decreases e, 2nat,
{
    let ghost env = env_of(*scope, *null_ctx, *snapshot);
    proof {
        lemma_compared_rows(*e, op);
    }
    let ls: Vec<TypeSlot> = match infer_slots(
        la,
        scope,
        null_ctx,
        snapshot,
        params,
        TypeGoal::none(),
    ) {
        Ok(s) => s,
        Err(x) => return Err(x),
    };
    let rs: Vec<TypeSlot> = match infer_slots(
        ra,
        scope,
        null_ctx,
        snapshot,
        params,
        TypeGoal::none(),
    ) {
        Ok(s) => s,
        Err(x) => return Err(x),
    };
    let ghost p2 = params@;
    let mut i: usize = 0;
    while i < ls.len()
        invariant
            i <= ls@.len(),
            ls@.len() == la@.len(),
            rs@.len() == ra@.len(),
            la@.len() == ra@.len(),
            env == env_of(*scope, *null_ctx, *snapshot),
            compared_rows(*e, op) == Some((la@, ra@)),
            rows_backfilled(*e, op, 0, ls@, rs@, env, p2) == rows_backfilled(
                *e,
                op,
                i as int,
                ls@,
                rs@,
                env,
                params@,
            ),
        decreases ls.len() - i,
    {
        proof {
            lemma_compared_rows(*e, op);
            assert(decreases_to!(e => la@[i as int]));
            assert(decreases_to!(e => ra@[i as int]));
        }
        if ls[i].type_oid != UNKNOWN && rs[i].type_oid == UNKNOWN {
            let _r: Result<ExprType, AnalyzeError> = infer_expr(
                &ra[i],
                scope,
                null_ctx,
                snapshot,
                params,
                TypeGoal::implicit(ls[i].type_oid),
            );
        } else if rs[i].type_oid != UNKNOWN && ls[i].type_oid == UNKNOWN {
            let _r: Result<ExprType, AnalyzeError> = infer_expr(
                &la[i],
                scope,
                null_ctx,
                snapshot,
                params,
                TypeGoal::implicit(rs[i].type_oid),
            );
        }
        i = i + 1;
    }
    Ok(ExprType::scalar(BOOL, any_slot_nullable(&ls) || any_slot_nullable(&rs)))
}

fn infer_operator(
    e: &AExpr,
    op: &str,
    scope: &Scope,
    null_ctx: &NullabilityContext,
    snapshot: &PgCatalog,
    params: &mut ParamCollector,
) -> (r: Result<ExprType, AnalyzeError>)
    ensures
        (result_view(r), final(params)@) == operator_outcome(
            *e,
            op@,
            env_of(*scope, *null_ctx, *snapshot),
            old(params)@,
        ),
    decreases e, 1nat,
{
    let (left, right): (Option<ExprType>, Option<ExprType>) = match infer_operands(
        e,
        false,
        scope,
        null_ctx,
        snapshot,
        params,
    ) {
        Ok(p) => p,
        Err(x) => return Err(x),
    };
    let left_oid: u32 = oid_or_unknown(&left);
    let right_oid: u32 = oid_or_unknown(&right);
    if left.is_some() && left_oid != UNKNOWN && right_oid == UNKNOWN {
        visit_opt(&e.rexpr, scope, null_ctx, snapshot, params, TypeGoal::implicit(left_oid));
    }
    if right_oid != UNKNOWN && left.is_some() && left_oid == UNKNOWN {
        visit_opt(&e.lexpr, scope, null_ctx, snapshot, params, TypeGoal::implicit(right_oid));
    }
    let l: Option<u32> = match &left {
        Some(t) => Some(reread_type(&e.lexpr, t.type_oid, params)),
        None => None,
    };
    let r: u32 = reread_type(&e.rexpr, right_oid, params);
    let nullable: bool = operand_nullable(&left) || operand_nullable(&right)
        || is_nullable_operator(op);
    match snapshot.find_operator(op, l, r) {
        Some(found) => {
            match (l, found.oprleft) {
                (Some(t), Some(expected)) => {
                    if t == UNKNOWN {
                        visit_opt(
                            &e.lexpr,
                            scope,
                            null_ctx,
                            snapshot,
                            params,
                            TypeGoal::implicit(expected),
                        );
                    }
                },
                _ => {},
            }
            if r == UNKNOWN {
                visit_opt(
                    &e.rexpr,
                    scope,
                    null_ctx,
                    snapshot,
                    params,
                    TypeGoal::implicit(found.oprright),
                );
            }
            let t: u32 = match found.oprresult {
                Some(t) => t,
                None => UNKNOWN,
            };
            Ok(ExprType::scalar(t, nullable))
        },
        None => {
            let lt: u32 = match l {
                Some(t) => t,
                None => UNKNOWN,
            };
            if lt == UNKNOWN && r == UNKNOWN {
                return Err(
                    AnalyzeError::IndeterminateType(
                        concat2("could not determine data type of operator ", op),
                    ),
                );
            }
            let ln: String = type_oid_display(lt, snapshot);
            let rn: String = type_oid_display(r, snapshot);
            let head: String = concat4(
                "operator ",
                op,
                " does not exist for types ",
                ln.as_str(),
            );
            Err(AnalyzeError::UndefinedOperator(concat3(head.as_str(), " and ", rn.as_str())))
        },
    }
}

fn infer_a_expr(
    e: &AExpr,
    scope: &Scope,
    null_ctx: &NullabilityContext,
    snapshot: &PgCatalog,
    params: &mut ParamCollector,
) -> (r: Result<ExprType, AnalyzeError>)
    ensures
        (result_view(r), final(params)@) == a_expr_outcome(
            *e,
            env_of(*scope, *null_ctx, *snapshot),
            old(params)@,
        ),
    decreases e, 3nat,
{
    let op: String = join(&e.name, ".");
    match e.kind {
        AExprKind::NullIf => infer_nullif(e, scope, null_ctx, snapshot, params),
        AExprKind::Distinct | AExprKind::NotDistinct => infer_distinct(
            e,
            scope,
            null_ctx,
            snapshot,
            params,
        ),
        AExprKind::Between
        | AExprKind::NotBetween
        | AExprKind::BetweenSym
        | AExprKind::NotBetweenSym
        | AExprKind::In => infer_list_test(e, scope, null_ctx, snapshot, params),
        AExprKind::OpAny | AExprKind::OpAll => infer_any_all(e, scope, null_ctx, snapshot, params),
        _ => {
            match (&e.lexpr, &e.rexpr) {
                (Some(lb), Some(rb)) => match (&**lb, &**rb) {
                    (Node::RowExpr(la), Node::RowExpr(ra)) => {
                        if is_row_comparison(op.as_str()) && la.len() == ra.len() {
                            proof {
                                assert(decreases_to!(e => e.lexpr));
                                assert(decreases_to!(e.lexpr => lb));
                                assert(decreases_to!(lb => la));
                                assert(decreases_to!(e => e.rexpr));
                                assert(decreases_to!(e.rexpr => rb));
                                assert(decreases_to!(rb => ra));
                            }
                            return infer_row_comparison(
                                e,
                                la,
                                ra,
                                Ghost(op@),
                                scope,
                                null_ctx,
                                snapshot,
                                params,
                            );
                        }
                    },
                    _ => {},
                },
                _ => {},
            }
            infer_operator(e, op.as_str(), scope, null_ctx, snapshot, params)
        },
    }
}

// ── COALESCE and CASE ───────────────────────────────────────────────────────

fn infer_coalesce(
    args: &Vec<Node>,
    scope: &Scope,
    null_ctx: &NullabilityContext,
    snapshot: &PgCatalog,
    params: &mut ParamCollector,
) -> (r: Result<ExprType, AnalyzeError>)
    ensures
        (result_view(r), final(params)@) == coalesce_outcome(
            args@,
            env_of(*scope, *null_ctx, *snapshot),
            old(params)@,
        ),
    decreases args, 1nat,
{
    let slots: Vec<TypeSlot> = match infer_slots(
        args,
        scope,
        null_ctx,
        snapshot,
        params,
        TypeGoal::none(),
    ) {
        Ok(s) => s,
        Err(e) => return Err(e),
    };
    let types: Vec<u32> = texted_types(args, &slots);
    let t: u32 = match common_branch_type(
        &types,
        "COALESCE arguments have no common type",
        snapshot,
    ) {
        Ok(t) => t,
        Err(e) => return Err(e),
    };
    let goals: Vec<u32> = repeated(t, args.len());
    backfill(args, &types, &goals, scope, null_ctx, snapshot, params);
    Ok(ExprType::scalar(t, all_slots_nullable(&slots)))
}

fn infer_branches(
    nodes: &Vec<Node>,
    scope: &Scope,
    null_ctx: &NullabilityContext,
    snapshot: &PgCatalog,
    params: &mut ParamCollector,
) -> (r: Result<(Vec<u32>, bool), AnalyzeError>)
    ensures
        ({
            let o = branches_from(
                nodes@,
                0,
                Seq::empty(),
                false,
                env_of(*scope, *null_ctx, *snapshot),
                old(params)@,
            );
            &&& final(params)@ == o.1
            &&& match (r, o.0) {
                (Ok(p), Ok(v)) => (p.0@, p.1) == v,
                (Err(x), Err(v)) => x@ == v,
                _ => false,
            }
        }),
    decreases nodes, 0nat,
{
    let ghost env = env_of(*scope, *null_ctx, *snapshot);
    let mut types: Vec<u32> = Vec::new();
    let mut nullable: bool = false;
    let mut i: usize = 0;
    while i < nodes.len()
        invariant
            i <= nodes@.len(),
            env == env_of(*scope, *null_ctx, *snapshot),
            branches_from(nodes@, 0, Seq::empty(), false, env, old(params)@) == branches_from(
                nodes@,
                i as int,
                types@,
                nullable,
                env,
                params@,
            ),
        decreases nodes.len() - i,
    {
        proof {
            assert(decreases_to!(nodes => nodes@[i as int]));
        }
        match &nodes[i] {
            Node::CaseWhen(w) => {
                visit_opt(
                    &w.expr,
                    scope,
                    null_ctx,
                    snapshot,
                    params,
                    TypeGoal::assignment(BOOL),
                );
                match infer_opt(&w.result, scope, null_ctx, snapshot, params, TypeGoal::none()) {
                    Ok(Some(t)) => {
                        types.push(operand_as_text(&w.result, t.type_oid));
                        nullable = nullable || t.nullable;
                    },
                    Ok(None) => {},
                    Err(e) => return Err(e),
                }
            },
            _ => {},
        }
        i = i + 1;
    }
    Ok((types, nullable))
}

fn backfill_branches(
    nodes: &Vec<Node>,
    types: &Vec<u32>,
    goal: u32,
    scope: &Scope,
    null_ctx: &NullabilityContext,
    snapshot: &PgCatalog,
    params: &mut ParamCollector,
) -> (k: usize)
    ensures
        (k as int, final(params)@) == branches_backfilled(
            nodes@,
            0,
            0,
            types@,
            goal,
            env_of(*scope, *null_ctx, *snapshot),
            old(params)@,
        ),
    decreases nodes, 0nat,
{
    let ghost env = env_of(*scope, *null_ctx, *snapshot);
    let mut k: usize = 0;
    let mut i: usize = 0;
    while i < nodes.len()
        invariant
            k <= i <= nodes@.len(),
            env == env_of(*scope, *null_ctx, *snapshot),
            branches_backfilled(nodes@, 0, 0, types@, goal, env, old(params)@)
                == branches_backfilled(nodes@, i as int, k as int, types@, goal, env, params@),
        decreases nodes.len() - i,
    {
        proof {
            assert(decreases_to!(nodes => nodes@[i as int]));
        }
        match &nodes[i] {
            Node::CaseWhen(w) => {
                if w.result.is_some() {
                    if k < types.len() && types[k] == UNKNOWN {
                        visit_opt(
                            &w.result,
                            scope,
                            null_ctx,
                            snapshot,
                            params,
                            TypeGoal::implicit(goal),
                        );
                    }
                    k = k + 1;
                }
            },
            _ => {},
        }
        i = i + 1;
    }
    k
}

fn infer_case(
    e: &CaseExpr,
    scope: &Scope,
    null_ctx: &NullabilityContext,
    snapshot: &PgCatalog,
    params: &mut ParamCollector,
) -> (r: Result<ExprType, AnalyzeError>)
    ensures
        (result_view(r), final(params)@) == case_outcome(
            *e,
            env_of(*scope, *null_ctx, *snapshot),
            old(params)@,
        ),
    decreases e, 1nat,
{
    let (results, results_nullable): (Vec<u32>, bool) = match infer_branches(
        &e.args,
        scope,
        null_ctx,
        snapshot,
        params,
    ) {
        Ok(p) => p,
        Err(x) => return Err(x),
    };
    let mut types: Vec<u32> = results;
    let nullable: bool = match infer_opt(
        &e.defresult,
        scope,
        null_ctx,
        snapshot,
        params,
        TypeGoal::none(),
    ) {
        Ok(Some(t)) => {
            types.push(operand_as_text(&e.defresult, t.type_oid));
            results_nullable || t.nullable
        },
        Ok(None) => true,
        Err(x) => return Err(x),
    };
    let t: u32 = match common_branch_type(&types, "CASE branches have no common type", snapshot) {
        Ok(t) => t,
        Err(x) => return Err(x),
    };
    if t != UNKNOWN {
        let k: usize = backfill_branches(&e.args, &types, t, scope, null_ctx, snapshot, params);
        if k < types.len() && types[k] == UNKNOWN {
            visit_opt(&e.defresult, scope, null_ctx, snapshot, params, TypeGoal::implicit(t));
        }
    }
    Ok(ExprType::scalar(t, nullable))
}

} // verus!
