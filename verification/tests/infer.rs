use cubos_sql::ast::{
    AExpr, AExprKind, AIndices, AIndirection, CaseExpr, CaseWhen, ColumnRef, ConstValue, FuncCall,
    GroupingSet, GroupingSetKind, NamePart, Node, SelectStmt, SubLink, SubLinkType, SubqueryAnalysis,
    SubqueryColumn, ParamEvent, TypeCast, TypeName,
};
use cubos_sql::catalog::PgCatalog;
use cubos_sql::coerce::{can_coerce, find_common_type, is_string_type, numeric_rank, CoercionContext};
use cubos_sql::error::AnalyzeError;
use cubos_sql::expr::{detect_func_kinds, has_aggregate_target, type_display_name, TypeGoal};
use cubos_sql::expr_type::ExprType;
use cubos_sql::functions::{is_polymorphic, polymorphic_specificity, resolve_function};
use cubos_sql::grouping::expand_grouping_sets;
use cubos_sql::infer::infer_expr;
use cubos_sql::nullability::{collect_aliases, NullabilityContext};
use cubos_sql::param_collector::ParamCollector;
use cubos_sql::params;
use cubos_sql::pg_catalog::{
    CastContext, CastMethod, PgAggregate, PgCast, PgNamespace, PgOperator, PgProc, PgType,
    ProKind, ProVolatile, TypCategory, TypType,
};
use cubos_sql::scope::{QualifiedName, Scope, ScopeColumn, TableSource};
use cubos_sql::seed::PgCatalogSeed;

fn ty(oid: u32, name: &str, category: TypCategory, preferred: bool, array: Option<u32>) -> PgType {
    PgType {
        oid,
        typname: name.to_string(),
        typnamespace: 11,
        typtype: TypType::Base,
        typcategory: category,
        typispreferred: preferred,
        typrelid: None,
        typelem: None,
        typarray: array,
        typbasetype: None,
        typnotnull: false,
        typtypmod: None,
    }
}

fn proc_row(oid: u32, name: &str, kind: ProKind, args: &[u32], result: u32) -> PgProc {
    PgProc {
        oid,
        proname: name.to_string(),
        pronamespace: 11,
        prokind: kind,
        proargtypes: args.to_vec(),
        prorettype: result,
        proretset: false,
        provariadic: None,
        proisstrict: true,
        pronargdefaults: 0,
        proallargtypes: vec![],
        proargmodes: vec![],
        proargnames: vec![],
        provolatile: ProVolatile::Immutable,
    }
}

fn op(oid: u32, name: &str, left: u32, right: u32, result: u32) -> PgOperator {
    PgOperator {
        oid,
        oprname: name.to_string(),
        oprnamespace: 11,
        oprleft: Some(left),
        oprright: right,
        oprresult: Some(result),
    }
}

fn cast(oid: u32, source: u32, target: u32, context: CastContext, method: CastMethod) -> PgCast {
    PgCast { oid, castsource: source, casttarget: target, castcontext: context, castmethod: method }
}

fn server() -> PgCatalog {
    PgCatalog::from_seed(PgCatalogSeed {
        pg_namespace: vec![
            PgNamespace { oid: 11, nspname: "pg_catalog".to_string() },
            PgNamespace { oid: 2200, nspname: "public".to_string() },
        ],
        pg_type: vec![
            ty(16, "bool", TypCategory::Boolean, true, None),
            ty(20, "int8", TypCategory::Numeric, false, None),
            ty(23, "int4", TypCategory::Numeric, false, Some(1007)),
            ty(25, "text", TypCategory::String, true, Some(1009)),
            ty(701, "float8", TypCategory::Numeric, true, None),
            ty(705, "unknown", TypCategory::Unknown, false, None),
            PgType { typelem: Some(23), ..ty(1007, "_int4", TypCategory::Array, false, None) },
            PgType { typelem: Some(25), ..ty(1009, "_text", TypCategory::Array, false, None) },
            ty(1043, "varchar", TypCategory::String, false, None),
            ty(1700, "numeric", TypCategory::Numeric, false, None),
            PgType {
                typtype: TypType::Domain,
                typbasetype: Some(25),
                ..ty(9000, "email", TypCategory::String, false, None)
            },
        ],
        pg_enum: vec![],
        pg_range: vec![],
        pg_class: vec![],
        pg_attribute: vec![],
        pg_proc: vec![
            proc_row(870, "lower", ProKind::Function, &[25], 25),
            proc_row(2803, "count", ProKind::Aggregate, &[], 20),
            proc_row(2116, "max", ProKind::Aggregate, &[23], 23),
            proc_row(3100, "row_number", ProKind::Window, &[], 20),
            proc_row(747, "array_length", ProKind::Function, &[2277, 23], 23),
        ],
        pg_aggregate: vec![
            PgAggregate { aggfnoid: 2803, aggfinalfn: None },
            PgAggregate { aggfnoid: 2116, aggfinalfn: None },
        ],
        pg_operator: vec![
            op(551, "+", 23, 23, 23),
            op(684, "+", 20, 20, 20),
            op(96, "=", 23, 23, 16),
            op(410, "=", 20, 20, 16),
            op(98, "=", 25, 25, 16),
            op(1209, "~~", 25, 25, 16),
        ],
        pg_cast: vec![
            cast(1, 23, 20, CastContext::Implicit, CastMethod::Function),
            cast(2, 20, 23, CastContext::Assignment, CastMethod::Function),
            cast(3, 23, 701, CastContext::Implicit, CastMethod::Function),
            cast(4, 1043, 25, CastContext::Implicit, CastMethod::Binary),
            cast(5, 25, 1043, CastContext::Implicit, CastMethod::Binary),
            cast(6, 23, 1700, CastContext::Implicit, CastMethod::Function),
        ],
        pg_extension: vec![],
        pg_collation: vec![],
        pg_depend: vec![],
        pg_inherits: vec![],
        pg_constraint: vec![],
        pg_index: vec![],
        pg_rewrite: vec![],
        search_path: vec![2200],
    })
}

fn scope() -> Scope {
    let column = |name: &str, type_oid: u32, not_null: bool| ScopeColumn {
        table_alias: "u".to_string(),
        name: name.to_string(),
        type_oid,
        base_not_null: not_null,
        record_fields: None,
    };
    Scope {
        sources: vec![TableSource {
            alias: "u".to_string(),
            source_qn: Some(QualifiedName {
                schema: "public".to_string(),
                name: "users".to_string(),
            }),
            columns: vec![
                column("id", 23, true),
                column("name", 25, true),
                column("age", 23, false),
                column("tags", 1009, true),
                column("mail", 9000, false),
            ],
        }],
    }
}

fn col(name: &str) -> Node {
    Node::ColumnRef(ColumnRef { fields: vec![NamePart::Name(name.to_string())] })
}

fn number() -> Node {
    Node::AConst(ConstValue::Integer)
}

fn boxed(n: Node) -> Option<Box<Node>> {
    Some(Box::new(n))
}

fn expr(kind: AExprKind, name: &str, l: Node, r: Node) -> Node {
    Node::AExpr(Box::new(AExpr {
        kind,
        name: vec![name.to_string()],
        lexpr: boxed(l),
        rexpr: boxed(r),
    }))
}

fn call(name: &str, args: Vec<Node>) -> Node {
    Node::FuncCall(Box::new(FuncCall {
        funcname: vec![name.to_string()],
        args,
        agg_order: vec![],
        agg_filter: None,
        over: None,
        agg_star: false,
    }))
}

fn type_of(name: &str) -> TypeName {
    TypeName {
        names: vec![name.to_string()],
        type_oid: 0,
        typmod: Ok(None),
        is_array: false,
        setof: false,
    }
}

fn infer_in(
    ctx: &NullabilityContext,
    n: &Node,
    params: &mut ParamCollector,
) -> Result<ExprType, AnalyzeError> {
    infer_expr(n, &scope(), ctx, &server(), params, TypeGoal::none())
}

fn infer(n: Node) -> (u32, bool) {
    let mut params = ParamCollector::default();
    let t = infer_in(&NullabilityContext::default(), &n, &mut params).unwrap();
    (t.type_oid, t.nullable)
}

#[test]
fn literals() {
    assert_eq!(infer(number()), (23, false));
    assert_eq!(infer(Node::AConst(ConstValue::Boolean)), (16, false));
    assert_eq!(infer(Node::AConst(ConstValue::Float)), (1700, false));
    assert_eq!(infer(Node::AConst(ConstValue::Text)), (705, false));
    assert!(infer(Node::AConst(ConstValue::Null)).1);
}

#[test]
fn columns_are_null_as_their_tables_say() {
    assert_eq!(infer(col("id")), (23, false));
    assert_eq!(infer(col("age")), (23, true));
    let mut params = ParamCollector::default();
    let e = infer_in(&NullabilityContext::default(), &col("nosuch"), &mut params).unwrap_err();
    assert!(matches!(e, AnalyzeError::UndefinedColumn(_)));
    let qualified = Node::ColumnRef(ColumnRef {
        fields: vec![NamePart::Name("x".into()), NamePart::Name("id".into())],
    });
    assert!(infer_in(&NullabilityContext::default(), &qualified, &mut params).is_err());
}

#[test]
fn an_outer_join_makes_columns_nullable() {
    let mut ctx = NullabilityContext::default();
    ctx.mark_all_nullable(&vec!["u".to_string()]);
    let mut params = ParamCollector::default();
    assert!(infer_in(&ctx, &col("id"), &mut params).unwrap().nullable);
    assert!(ctx.is_nullable("u", "id", true));
    assert!(!ctx.is_nullable("v", "id", true));
    assert!(ctx.is_nullable("v", "id", false));
}

#[test]
fn operators_are_null_where_an_operand_is() {
    assert_eq!(infer(expr(AExprKind::Op, "+", col("id"), number())), (23, false));
    assert_eq!(infer(expr(AExprKind::Op, "+", col("age"), number())), (23, true));
    assert_eq!(infer(expr(AExprKind::Op, "=", col("name"), col("name"))), (16, false));
    assert_eq!(infer(expr(AExprKind::Distinct, "=", col("age"), number())), (16, false));
}

#[test]
fn operators_that_do_not_exist() {
    let mut params = ParamCollector::default();
    let n = expr(AExprKind::Op, "+", col("name"), col("tags"));
    let e = infer_in(&NullabilityContext::default(), &n, &mut params).unwrap_err();
    assert!(matches!(&e, AnalyzeError::UndefinedOperator(_)), "{:?}", e);
}

#[test]
fn parameters_get_the_type_of_the_other_operand() {
    let mut params = ParamCollector::default();
    let n = expr(AExprKind::Op, "=", col("name"), Node::ParamRef(1));
    infer_in(&NullabilityContext::default(), &n, &mut params).unwrap();
    assert_eq!(params.get(1), 25);
    let n = expr(AExprKind::Op, "=", Node::ParamRef(2), col("id"));
    infer_in(&NullabilityContext::default(), &n, &mut params).unwrap();
    assert_eq!(params.get(2), 23);
    let list = params.into_sorted().unwrap();
    assert_eq!(list.iter().map(|p| (p.0, p.1)).collect::<Vec<_>>(), vec![(1, 25), (2, 23)]);
}

#[test]
fn casts_give_their_type() {
    let n = Node::TypeCast(Box::new(TypeCast {
        arg: boxed(Node::ParamRef(1)),
        target: Some(type_of("int8")),
    }));
    let mut params = ParamCollector::default();
    let t = infer_in(&NullabilityContext::default(), &n, &mut params).unwrap();
    assert_eq!(t.type_oid, 20);
    assert_eq!(params.get(1), 20);
    let n = Node::TypeCast(Box::new(TypeCast { arg: boxed(number()), target: Some(type_of("nope")) }));
    assert!(infer_in(&NullabilityContext::default(), &n, &mut params).is_err());
}

#[test]
fn coalesce_is_not_null_with_one_that_is_not() {
    assert_eq!(infer(Node::CoalesceExpr(vec![col("age"), number()])), (23, false));
    assert_eq!(infer(Node::CoalesceExpr(vec![col("age"), col("age")])), (23, true));
}

#[test]
fn tests_for_null_are_never_null() {
    assert_eq!(infer(Node::NullTest(boxed(col("age")))), (16, false));
}

#[test]
fn cases_without_an_else_can_be_null() {
    let when = || {
        Node::CaseWhen(Box::new(CaseWhen {
            expr: boxed(Node::AConst(ConstValue::Boolean)),
            result: boxed(number()),
        }))
    };
    let open = CaseExpr { arg: None, args: vec![when()], defresult: None };
    assert_eq!(infer(Node::CaseExpr(Box::new(open))), (23, true));
    let closed = CaseExpr { arg: None, args: vec![when()], defresult: boxed(number()) };
    assert_eq!(infer(Node::CaseExpr(Box::new(closed))), (23, false));
}

#[test]
fn functions_are_resolved() {
    assert_eq!(infer(call("lower", vec![col("name")])), (25, false));
    let mut params = ParamCollector::default();
    let e = infer_in(&NullabilityContext::default(), &call("nosuch", vec![]), &mut params)
        .unwrap_err();
    assert!(matches!(e, AnalyzeError::UndefinedFunction(_)));
    // Some strict functions can give null.
    assert_eq!(infer(call("array_length", vec![col("tags"), number()])), (23, true));
    let f = resolve_function(&server(), None, "lower", &vec![1043]).unwrap();
    assert_eq!(f.return_type_oid, 25);
    assert!(f.is_strict);
    assert!(is_polymorphic(2277));
    assert!(!is_polymorphic(23));
}

#[test]
fn aggregates() {
    assert_eq!(infer(call("max", vec![col("id")])), (23, true));
    assert!(!infer(Node::FuncCall(Box::new(FuncCall {
        funcname: vec!["count".to_string()],
        args: vec![],
        agg_order: vec![],
        agg_filter: None,
        over: None,
        agg_star: true,
    })))
    .1);
    let kinds = detect_func_kinds(&call("max", vec![col("id")]), &server());
    assert!(kinds.has_aggregate);
    assert!(!kinds.has_window);
    let target = Node::ResTarget(boxed(call("count", vec![])));
    assert!(has_aggregate_target(&vec![target]));
    assert!(!has_aggregate_target(&vec![Node::ResTarget(boxed(col("id")))]));
}

#[test]
fn elements_of_arrays_can_be_null() {
    let n = Node::AIndirection(Box::new(AIndirection {
        arg: boxed(col("tags")),
        indirection: vec![Node::AIndices(Box::new(AIndices {
            is_slice: false,
            lidx: None,
            uidx: boxed(number()),
        }))],
    }));
    assert_eq!(infer(n), (25, true));
}

#[test]
fn slices_are_not_supported() {
    let slice = |of: &str| {
        Node::AIndirection(Box::new(AIndirection {
            arg: boxed(col(of)),
            indirection: vec![Node::AIndices(Box::new(AIndices {
                is_slice: true,
                lidx: boxed(Node::ParamRef(1)),
                uidx: boxed(number()),
            }))],
        }))
    };
    let mut params = ParamCollector::default();
    let e = infer_in(&NullabilityContext::default(), &slice("tags"), &mut params).unwrap_err();
    assert_eq!(e.message(), "unsupported SQL feature: array slice");
    assert_eq!(params.get(1), 23);
    let e = infer_in(&NullabilityContext::default(), &slice("name"), &mut params).unwrap_err();
    assert_eq!(e.message(), "unsupported SQL feature: slice on non-array type 'text'");
}

#[test]
fn subqueries_bring_their_analysis() {
    let sub = |kind: SubLinkType, outcome: Result<Vec<SubqueryColumn>, AnalyzeError>| {
        Node::SubLink(Box::new(SubLink {
            kind,
            testexpr: None,
            subselect: boxed(Node::SelectStmt(Box::new(SelectStmt {
                larg: None,
                rarg: None,
                ctes: vec![],
                from_clause: vec![],
                target_list: vec![],
                where_clause: None,
                group_clause: vec![],
                having_clause: None,
                sort_clause: vec![],
                distinct_clause: vec![],
            }))),
            analysis: SubqueryAnalysis {
                params: vec![ParamEvent::Typed { number: 1, type_oid: 25 }],
                outcome,
            },
        }))
    };
    let one = || Ok(vec![SubqueryColumn { type_oid: 20, nullable: false }]);
    assert_eq!(infer(sub(SubLinkType::Exists, one())), (16, false));
    assert_eq!(infer(sub(SubLinkType::Expr, one())), (20, true));
    let mut params = ParamCollector::default();
    infer_in(&NullabilityContext::default(), &sub(SubLinkType::Expr, one()), &mut params).unwrap();
    assert_eq!(params.get(1), 25);
    let failed = sub(SubLinkType::Expr, Err(AnalyzeError::Invalid("x".into())));
    assert_eq!(
        infer_in(&NullabilityContext::default(), &failed, &mut params).unwrap_err(),
        AnalyzeError::Invalid("x".into())
    );
}

#[test]
fn coercions_are_nested() {
    let db = server();
    assert!(can_coerce(23, 20, CoercionContext::Implicit, &db));
    assert!(!can_coerce(20, 23, CoercionContext::Implicit, &db));
    assert!(can_coerce(20, 23, CoercionContext::Assignment, &db));
    assert!(can_coerce(25, 25, CoercionContext::Implicit, &db));
    assert!(is_string_type(1043));
    assert!(!is_string_type(23));
    assert_eq!(numeric_rank(23), Some(1));
    assert_eq!(numeric_rank(25), None);
    assert_eq!(find_common_type(&vec![23, 20], &db).unwrap(), 20);
    assert_eq!(find_common_type(&vec![705, 23], &db).unwrap(), 23);
    assert_eq!(find_common_type(&vec![25, 25], &db).unwrap(), 25);
    assert_eq!(type_display_name(9000, &db), "email");
}

#[test]
fn domains_coerce_as_their_bases() {
    let db = server();
    for context in [CoercionContext::Implicit, CoercionContext::Assignment] {
        for other in [16, 20, 25, 1043, 9000] {
            assert_eq!(can_coerce(9000, other, context, &db), can_coerce(25, other, context, &db));
            assert_eq!(can_coerce(other, 9000, context, &db), can_coerce(other, 25, context, &db));
        }
    }
    assert!(can_coerce(9000, 1043, CoercionContext::Implicit, &db));
    assert!(!can_coerce(9000, 16, CoercionContext::Assignment, &db));
}

#[test]
fn order_of_numeric_types_does_not_matter() {
    let db = server();
    for types in [
        vec![21, 1700, 23],
        vec![23, 21, 1700],
        vec![1700, 23, 21, 23],
        vec![705, 1700, 705, 21, 23],
        vec![23, 705, 21, 1700],
    ] {
        assert_eq!(find_common_type(&types, &db).unwrap(), 1700);
    }
    assert_eq!(find_common_type(&vec![701, 700, 20], &db).unwrap(), 701);
    assert_eq!(find_common_type(&vec![20, 700, 705], &db).unwrap(), 700);
}

#[test]
fn grouping_sets_leave_columns_out() {
    let plain = expand_grouping_sets(&vec![col("id"), col("age")], &scope());
    assert!(plain.omitted.is_empty());
    assert!(!plain.has_empty_set);
    let rollup = Node::GroupingSet(Box::new(GroupingSet {
        kind: GroupingSetKind::Rollup,
        content: vec![col("id"), col("age")],
    }));
    let e = expand_grouping_sets(&vec![rollup], &scope());
    assert_eq!(e.omitted.len(), 2);
    assert!(e.has_empty_set);
}

#[test]
fn the_first_type_of_a_parameter_stays() {
    let mut p = ParamCollector::default();
    p.record(1, 23);
    p.record(1, 25);
    assert_eq!(p.get(1), 23);
    p.see(2);
    assert_eq!(p.get(2), 705);
    p.set_nullable(1, false);
    p.infer_nullable(1, true);
    assert!(!p.is_nullable(1));
    p.infer_nullable(2, true);
    assert!(p.is_nullable(2));
    p.record(2, 705);
    assert_eq!(p.get(2), 705);
    p.record(2, 20);
    let list = p.into_sorted().unwrap();
    assert_eq!(list, vec![(1, 23, false), (2, 20, true)]);
}

#[test]
fn gaps_between_parameters_are_errors() {
    let mut p = ParamCollector::default();
    p.record(1, 23);
    p.record(3, 23);
    let e = p.into_sorted().unwrap_err();
    assert_eq!(
        e.message(),
        "unsupported SQL feature: parameter gap: expected $2 but next is $3"
    );
}

#[test]
fn parameters_without_a_type_are_errors() {
    let mut p = params::ParamCollector::default();
    p.see(1);
    assert!(p.into_sorted().is_err());
    let mut p = ParamCollector::default();
    p.see(1);
    p.record(2, 23);
    let e = p.into_sorted().unwrap_err();
    assert_eq!(
        e.message(),
        "unsupported SQL feature: could not infer type for parameter $1"
    );
    let mut p = params::ParamCollector::default();
    p.record(1, 23);
    p.set_nullable(1, true);
    assert_eq!(p.into_sorted().unwrap(), vec![(1, 23, true)]);
}

#[test]
fn messages_of_analysis_errors() {
    let all = vec![
        AnalyzeError::Lex("x".into()),
        AnalyzeError::Parse("x".into()),
        AnalyzeError::UndefinedTable("x".into()),
        AnalyzeError::UndefinedColumn("x".into()),
        AnalyzeError::AmbiguousColumn("x".into()),
        AnalyzeError::UndefinedType { oid: 7, context: "x".into() },
        AnalyzeError::UndefinedFunction("x".into()),
        AnalyzeError::UndefinedOperator("x".into()),
        AnalyzeError::IndeterminateType("x".into()),
        AnalyzeError::Invalid("x".into()),
        AnalyzeError::Unsupported("x".into()),
        AnalyzeError::UnsupportedJoinType(9),
        AnalyzeError::Internal("x".into()),
    ];
    for e in &all {
        assert!(!e.message().is_empty());
        assert_eq!(e.copy().message(), e.message());
    }
    assert!(all[5].message().contains("7"));
    assert!(all[11].message().contains("9"));
}

#[test]
fn a_failed_inference_forgets_no_parameter() {
    let mut params = ParamCollector::default();
    let n = expr(AExprKind::Op, "=", col("name"), Node::ParamRef(1));
    infer_in(&NullabilityContext::default(), &n, &mut params).unwrap();
    params.set_nullable(1, true);
    // The same parameter where a number is asked for: the type stays.
    let n = expr(AExprKind::Op, "+", col("id"), Node::ParamRef(1));
    assert!(infer_in(&NullabilityContext::default(), &n, &mut params).is_err());
    assert_eq!(params.get(1), 25);
    assert!(params.is_nullable(1));
    assert_eq!(params.into_sorted().unwrap(), vec![(1, 25, true)]);
}

#[test]
fn a_parameter_takes_the_type_of_its_place() {
    let mut params = ParamCollector::default();
    let goal = TypeGoal { type_oid: 20, coercion: CoercionContext::Assignment };
    let ctx = NullabilityContext::default();
    let t = infer_expr(&Node::ParamRef(1), &scope(), &ctx, &server(), &mut params, goal).unwrap();
    assert_eq!(t.type_oid, 20);
    assert_eq!(params.get(1), 20);
}

#[test]
fn nullif_may_be_null() {
    assert_eq!(infer(expr(AExprKind::NullIf, "=", col("id"), number())), (23, true));
    assert_eq!(infer(expr(AExprKind::NotDistinct, "=", col("age"), col("age"))), (16, false));
}

#[test]
fn specificity_of_pseudo_types() {
    assert_eq!(polymorphic_specificity(2283), 1);
    assert_eq!(polymorphic_specificity(2277), 2);
    assert_eq!(polymorphic_specificity(3500), 3);
    assert_eq!(polymorphic_specificity(23), 10);
}

#[test]
fn aliases_are_collected_in_order() {
    assert_eq!(collect_aliases(&scope().sources), vec!["u".to_string()]);
    assert!(collect_aliases(&vec![]).is_empty());
}
