use cubos_sql::ast::{
    ColumnRef, ConstValue, FuncCall, NamePart, Node, RangeVar, SelectStmt, TypeName,
};
use cubos_sql::catalog::PgCatalog;
use cubos_sql::ddl::apply::{apply_statement, apply_statements};
use cubos_sql::ddl::bindings::collect_view_bindings;
use cubos_sql::ddl::dependents::{find_dependent_views, find_views_depending_on_column};
use cubos_sql::ddl::rewrite::apply_view_bindings;
use cubos_sql::ddl::stmt::{
    AlterDef, AlterEnumStmt, AlterExtensionStmt, AlterObjectSchemaStmt, AlterSeqStmt,
    AlterTableCmd, AlterTableStmt, AlterTableType, ColumnDef, CompositeTypeStmt, ConstrType,
    Constraint, CreateDomainStmt, CreateEnumStmt, CreateExtensionStmt, CreateFunctionStmt,
    CreateSchemaStmt, CreateSeqStmt, CreateStmt, DefArg, DefElem, DefineArg, DefineStmt, DropItem,
    DropStmt, ExtensionDef, ExtensionVersion, FunctionParameter, FunctionParameterMode, IndexElem,
    IndexStmt, ObjectRef, ObjectType, ObjectWithArgs, RawColumn, RenameStmt, Statement,
    StoredQuery, TableElt, ViewStmt,
};
use cubos_sql::ddl::util::{normalize_type_name, range_var_key, resolve_type_name};
use cubos_sql::ddl::views::{derive_deps_from_bindings, reanalyze_view};
use cubos_sql::ddl::DdlError;
use cubos_sql::error::AnalyzeError;
use cubos_sql::pg_catalog::{
    AstBinding, CastContext, CastMethod, ConType, PgCast, PgNamespace, PgProc, PgType, ProKind,
    ProVolatile, RelKind, TypCategory, TypType,
};
use cubos_sql::seed::PgCatalogSeed;

// ── A small server ──────────────────────────────────────────────────────────

fn base_type(oid: u32, name: &str, category: TypCategory, array: Option<u32>) -> PgType {
    PgType {
        oid,
        typname: name.to_string(),
        typnamespace: 11,
        typtype: TypType::Base,
        typcategory: category,
        typispreferred: false,
        typrelid: None,
        typelem: None,
        typarray: array,
        typbasetype: None,
        typnotnull: false,
        typtypmod: None,
    }
}

fn array_type(oid: u32, name: &str, element: u32) -> PgType {
    PgType { typelem: Some(element), ..base_type(oid, name, TypCategory::Array, None) }
}

fn builtin(oid: u32, name: &str, args: &[u32], result: u32, volatility: ProVolatile) -> PgProc {
    PgProc {
        oid,
        proname: name.to_string(),
        pronamespace: 11,
        prokind: ProKind::Function,
        proargtypes: args.to_vec(),
        prorettype: result,
        proretset: false,
        provariadic: None,
        proisstrict: true,
        pronargdefaults: 0,
        proallargtypes: vec![],
        proargmodes: vec![],
        proargnames: vec![],
        provolatile: volatility,
    }
}

fn server() -> PgCatalog {
    PgCatalog::from_seed(PgCatalogSeed {
        pg_namespace: vec![
            PgNamespace { oid: 11, nspname: "pg_catalog".to_string() },
            PgNamespace { oid: 2200, nspname: "public".to_string() },
        ],
        pg_type: vec![
            base_type(16, "bool", TypCategory::Boolean, Some(1000)),
            base_type(20, "int8", TypCategory::Numeric, Some(1016)),
            base_type(23, "int4", TypCategory::Numeric, Some(1007)),
            base_type(25, "text", TypCategory::String, Some(1009)),
            base_type(701, "float8", TypCategory::Numeric, None),
            array_type(1000, "_bool", 16),
            array_type(1007, "_int4", 23),
            array_type(1009, "_text", 25),
            array_type(1016, "_int8", 20),
            base_type(1043, "varchar", TypCategory::String, None),
        ],
        pg_enum: vec![],
        pg_range: vec![],
        pg_class: vec![],
        pg_attribute: vec![],
        pg_proc: vec![
            builtin(870, "lower", &[25], 25, ProVolatile::Immutable),
            builtin(1598, "random", &[], 701, ProVolatile::Volatile),
        ],
        pg_aggregate: vec![],
        pg_operator: vec![],
        pg_cast: vec![
            PgCast {
                oid: 10035,
                castsource: 23,
                casttarget: 20,
                castcontext: CastContext::Implicit,
                castmethod: CastMethod::Function,
            },
            PgCast {
                oid: 10113,
                castsource: 1043,
                casttarget: 25,
                castcontext: CastContext::Implicit,
                castmethod: CastMethod::Binary,
            },
        ],
        pg_extension: vec![],
        pg_collation: vec![],
        pg_depend: vec![],
        pg_inherits: vec![],
        pg_constraint: vec![],
        pg_index: vec![],
        pg_rewrite: vec![],
        search_path: vec![2200],
    })
}

// ── Statements ──────────────────────────────────────────────────────────────

fn text(s: &str) -> String {
    s.to_string()
}

fn rel(name: &str) -> RangeVar {
    RangeVar { schemaname: text(""), relname: text(name), alias: None }
}

fn rel_in(schema: &str, name: &str) -> RangeVar {
    RangeVar { schemaname: text(schema), relname: text(name), alias: None }
}

fn ty(name: &str) -> TypeName {
    TypeName { names: vec![text(name)], type_oid: 0, typmod: Ok(None), is_array: false, setof: false }
}

fn constraint(kind: ConstrType) -> Constraint {
    Constraint {
        contype: kind,
        conname: text(""),
        raw_expr: None,
        keys: vec![],
        fk_attrs: vec![],
        pk_attrs: vec![],
        pktable: None,
        generated_when: text(""),
    }
}

fn column(name: &str, ty_name: &str, constraints: Vec<Constraint>) -> ColumnDef {
    ColumnDef {
        colname: text(name),
        target: Some(ty(ty_name)),
        is_not_null: false,
        has_default: false,
        identity: text(""),
        generated: text(""),
        constraints,
    }
}

fn table(name: &str, columns: Vec<ColumnDef>) -> Statement {
    Statement::Create(CreateStmt {
        relation: Some(rel(name)),
        table_elts: columns.into_iter().map(TableElt::Column).collect(),
        constraints: vec![],
        inh_relations: vec![],
        partbound: false,
        if_not_exists: false,
    })
}

fn users() -> Statement {
    table(
        "users",
        vec![
            column("id", "bigint", vec![constraint(ConstrType::Primary)]),
            column("name", "text", vec![constraint(ConstrType::NotNull)]),
            column("email", "varchar", vec![]),
        ],
    )
}

fn orders() -> Statement {
    let mut fk = constraint(ConstrType::Foreign);
    fk.pktable = Some(rel("users"));
    fk.pk_attrs = vec![text("id")];
    table(
        "orders",
        vec![
            column("id", "int4", vec![constraint(ConstrType::Primary)]),
            column("user_id", "int8", vec![fk]),
        ],
    )
}

fn column_ref(name: &str) -> Node {
    Node::ColumnRef(ColumnRef { fields: vec![NamePart::Name(text(name))] })
}

fn select(from: &str, columns: &[&str]) -> Node {
    Node::SelectStmt(Box::new(SelectStmt {
        larg: None,
        rarg: None,
        ctes: vec![],
        from_clause: vec![Node::RangeVar(rel(from))],
        target_list: columns
            .iter()
            .map(|c| Node::ResTarget(Some(Box::new(column_ref(c)))))
            .collect(),
        where_clause: None,
        group_clause: vec![],
        having_clause: None,
        sort_clause: vec![],
        distinct_clause: vec![],
    }))
}

fn raw(name: &str, type_oid: u32) -> RawColumn {
    RawColumn { name: text(name), type_oid, typmod: None, nullable: true }
}

fn view(name: &str, from: &str, columns: &[&str], types: Vec<RawColumn>) -> Statement {
    Statement::View(ViewStmt {
        view: Some(rel(name)),
        aliases: vec![],
        query: Some(StoredQuery {
            node: Some(Box::new(select(from, columns))),
            analysis: Ok(types),
            ast: vec![1, 2, 3],
        }),
        replace: false,
    })
}

fn alter(name: &str, cmd: AlterTableCmd) -> Statement {
    Statement::AlterTable(AlterTableStmt {
        relation: Some(rel(name)),
        cmds: vec![cmd],
        missing_ok: false,
    })
}

fn cmd(subtype: AlterTableType, name: &str) -> AlterTableCmd {
    AlterTableCmd {
        subtype,
        name: text(name),
        def: AlterDef::Missing,
        cascade: false,
        missing_ok: false,
    }
}

fn drop_of(kind: ObjectType, name: &str, missing_ok: bool, cascade: bool) -> Statement {
    Statement::Drop(DropStmt {
        remove_type: kind,
        objects: vec![ObjectRef::List(vec![DropItem::Text(text(name))])],
        missing_ok,
        cascade,
    })
}

fn drop_text(kind: ObjectType, name: &str, missing_ok: bool, cascade: bool) -> Statement {
    Statement::Drop(DropStmt {
        remove_type: kind,
        objects: vec![ObjectRef::Text(text(name))],
        missing_ok,
        cascade,
    })
}

fn rename_of(kind: ObjectType, name: &str, sub: &str, new: &str) -> Statement {
    Statement::Rename(RenameStmt {
        rename_type: kind,
        relation: Some(rel(name)),
        object: ObjectRef::Other,
        subname: text(sub),
        newname: text(new),
        missing_ok: false,
    })
}

fn apply_all(db: &mut PgCatalog, list: Vec<Statement>) {
    apply_statements(db, &list).unwrap();
}

fn relid(db: &PgCatalog, name: &str) -> u32 {
    db.resolve_table(None, name).unwrap()
}

fn columns_of(db: &PgCatalog, name: &str) -> Vec<(String, i16, u32, bool)> {
    db.attributes_of(relid(db, name))
        .into_iter()
        .map(|a| (a.attname, a.attnum, a.atttypid, a.attnotnull))
        .collect()
}

fn snapshot(db: &PgCatalog) -> String {
    format!("{:?}", db.to_seed())
}

// ── Tables ──────────────────────────────────────────────────────────────────

#[test]
fn a_table_is_made_with_its_columns() {
    let mut db = server();
    apply_all(&mut db, vec![users()]);
    assert_eq!(
        columns_of(&db, "users"),
        vec![
            (text("id"), 1, 20, true),
            (text("name"), 2, 25, true),
            (text("email"), 3, 1043, false),
        ]
    );
    let oid = relid(&db, "users");
    assert_eq!(oid, 100_001);
    assert_eq!(db.get_class(oid).unwrap().relkind, RelKind::Table);
    let row_type = db.resolve_type_by_name(None, "users").unwrap();
    assert_eq!(db.get_type(row_type).unwrap().typrelid, Some(oid));
    assert_eq!(
        db.array_type_of(row_type),
        db.resolve_type_by_name(None, "_users")
    );
    assert!(db.has_implicit_cast(row_type, 2249));
    // The primary key has an index of its name.
    assert_eq!(
        db.get_class(relid(&db, "users_pkey")).unwrap().relkind,
        RelKind::Index
    );
}

#[test]
fn a_table_whose_name_is_taken() {
    let mut db = server();
    apply_all(&mut db, vec![users()]);
    let before = snapshot(&db);
    let e = apply_statement(&mut db, &users()).unwrap_err();
    assert_eq!(e.message(), "relation \"users\" already exists");
    assert_eq!(snapshot(&db), before);
    let again = match users() {
        Statement::Create(c) => Statement::Create(CreateStmt { if_not_exists: true, ..c }),
        other => other,
    };
    apply_statement(&mut db, &again).unwrap();
    assert_eq!(snapshot(&db), before);
}

#[test]
fn a_table_without_a_name_and_an_unknown_statement() {
    let mut db = server();
    let nameless = Statement::Create(CreateStmt {
        relation: None,
        table_elts: vec![],
        constraints: vec![],
        inh_relations: vec![],
        partbound: false,
        if_not_exists: false,
    });
    assert!(matches!(apply_statement(&mut db, &nameless), Err(DdlError::Parse(_))));
    let other = |kind: &str, shown: &str| Statement::Other { kind: text(kind), text: text(shown) };
    let unknown = other("CreatePlangStmt", "CREATE LANGUAGE");
    assert!(matches!(
        apply_statement(&mut db, &unknown),
        Err(DdlError::UnsupportedDdl(m)) if m == "CREATE LANGUAGE"
    ));
    let before = snapshot(&db);
    for kind in ["GrantStmt", "SelectStmt", "CommentStmt", "DoStmt", "CreateAmStmt"] {
        apply_statement(&mut db, &other(kind, "shown")).unwrap();
    }
    assert_eq!(snapshot(&db), before);
}

#[test]
fn a_column_of_an_unknown_type() {
    let mut db = server();
    apply_statement(&mut db, &table("t", vec![column("a", "nosuch", vec![])])).unwrap();
    assert_eq!(columns_of(&db, "t"), vec![(text("a"), 1, 705, false)]);
}

#[test]
fn statements_stop_at_the_first_error() {
    let mut db = server();
    let list = vec![users(), users(), orders()];
    assert!(apply_statements(&mut db, &list).is_err());
    assert!(db.resolve_table(None, "users").is_some());
    assert!(db.resolve_table(None, "orders").is_none());
}

#[test]
fn foreign_keys_are_recorded_and_checked() {
    let mut db = server();
    apply_all(&mut db, vec![users(), orders()]);
    let users_oid = relid(&db, "users");
    let seed = db.to_seed();
    let key = seed.pg_constraint.iter().find(|k| k.contype == ConType::ForeignKey).unwrap();
    assert_eq!(key.confrelid, Some(users_oid));
    assert_eq!(key.confkey, vec![1]);
    assert_eq!(key.conkey, vec![2]);

    // The referenced column must be a key, and of the same type.
    let mut fk = constraint(ConstrType::Foreign);
    fk.pktable = Some(rel("users"));
    fk.pk_attrs = vec![text("name")];
    let bad = table("bad", vec![column("u", "text", vec![fk])]);
    assert!(apply_statement(&mut db, &bad).is_err());
    let mut fk = constraint(ConstrType::Foreign);
    fk.pktable = Some(rel("users"));
    let worse = table("worse", vec![column("u", "text", vec![fk])]);
    assert!(apply_statement(&mut db, &worse).is_err());
    let mut fk = constraint(ConstrType::Foreign);
    fk.pktable = Some(rel("nosuch"));
    let missing = table("missing", vec![column("u", "text", vec![fk])]);
    assert!(apply_statement(&mut db, &missing).is_err());
}

#[test]
fn checks_must_not_call_volatile_functions() {
    let mut db = server();
    let call = Node::FuncCall(Box::new(FuncCall {
        funcname: vec![text("random")],
        args: vec![],
        agg_order: vec![],
        agg_filter: None,
        over: None,
        agg_star: false,
    }));
    let mut check = constraint(ConstrType::Check);
    check.raw_expr = Some(Box::new(call));
    let e = apply_statement(&mut db, &table("t", vec![column("a", "int4", vec![check])]));
    assert!(e.is_err());
}

#[test]
fn checks_must_be_boolean() {
    let mut db = server();
    let mut check = constraint(ConstrType::Check);
    check.raw_expr = Some(Box::new(column_ref("a")));
    let e = apply_statement(&mut db, &table("t", vec![column("a", "int4", vec![check])]));
    assert!(e.is_err());
    let mut check = constraint(ConstrType::Check);
    check.raw_expr = Some(Box::new(Node::AConst(ConstValue::Boolean)));
    apply_statement(&mut db, &table("u", vec![column("a", "int4", vec![check])])).unwrap();
}

#[test]
fn children_get_the_columns_of_their_parents() {
    let mut db = server();
    apply_all(&mut db, vec![users()]);
    let child = Statement::Create(CreateStmt {
        relation: Some(rel("admins")),
        table_elts: vec![
            TableElt::Column(column("level", "int4", vec![])),
            TableElt::Column(column("name", "text", vec![])),
        ],
        constraints: vec![],
        inh_relations: vec![rel("users")],
        partbound: false,
        if_not_exists: false,
    });
    apply_statement(&mut db, &child).unwrap();
    let names: Vec<(String, i16)> =
        columns_of(&db, "admins").into_iter().map(|c| (c.0, c.1)).collect();
    assert_eq!(
        names,
        vec![(text("level"), 1), (text("name"), 2), (text("id"), 3), (text("email"), 4)]
    );
    // A column that the parent loses is lost by the child.
    apply_all(&mut db, vec![alter("users", cmd(AlterTableType::DropColumn, "email"))]);
    assert!(columns_of(&db, "admins").iter().all(|c| c.0 != "email"));
}

// ── ALTER TABLE ─────────────────────────────────────────────────────────────

#[test]
fn columns_are_added_behind_the_others() {
    let mut db = server();
    apply_all(&mut db, vec![users()]);
    let mut add = cmd(AlterTableType::AddColumn, "");
    add.def = AlterDef::Column(column("age", "int4", vec![]));
    apply_all(&mut db, vec![alter("users", add)]);
    assert_eq!(columns_of(&db, "users")[3], (text("age"), 4, 23, false));

    let mut again = cmd(AlterTableType::AddColumn, "");
    again.def = AlterDef::Column(column("age", "int4", vec![]));
    let e = apply_statement(&mut db, &alter("users", again)).unwrap_err();
    assert_eq!(e.message(), "column \"age\" of relation already exists");
    let mut skip = cmd(AlterTableType::AddColumn, "");
    skip.def = AlterDef::Column(column("age", "int4", vec![]));
    skip.missing_ok = true;
    apply_statement(&mut db, &alter("users", skip)).unwrap();
}

#[test]
fn columns_are_dropped() {
    let mut db = server();
    apply_all(&mut db, vec![users()]);
    apply_all(&mut db, vec![alter("users", cmd(AlterTableType::DropColumn, "name"))]);
    let names: Vec<String> = columns_of(&db, "users").into_iter().map(|c| c.0).collect();
    assert_eq!(names, vec!["id", "email"]);
    assert!(apply_statement(&mut db, &alter("users", cmd(AlterTableType::DropColumn, "name")))
        .is_err());
    let mut skip = cmd(AlterTableType::DropColumn, "name");
    skip.missing_ok = true;
    apply_statement(&mut db, &alter("users", skip)).unwrap();
}

#[test]
fn not_null_is_set_and_dropped() {
    let mut db = server();
    apply_all(&mut db, vec![users()]);
    apply_all(&mut db, vec![alter("users", cmd(AlterTableType::SetNotNull, "email"))]);
    assert!(columns_of(&db, "users")[2].3);
    apply_all(&mut db, vec![alter("users", cmd(AlterTableType::DropNotNull, "email"))]);
    assert!(!columns_of(&db, "users")[2].3);
    assert!(apply_statement(&mut db, &alter("users", cmd(AlterTableType::SetNotNull, "x")))
        .is_err());
}

#[test]
fn a_column_that_a_foreign_key_refers_to_stays() {
    let mut db = server();
    apply_all(&mut db, vec![users(), orders()]);
    let before = snapshot(&db);
    let e = apply_statement(&mut db, &alter("users", cmd(AlterTableType::DropColumn, "id")));
    assert!(matches!(e, Err(DdlError::DependencyError(_))), "{:?}", e);
    assert_eq!(snapshot(&db), before);
}

#[test]
fn constraints_are_added_and_dropped_by_name() {
    let mut db = server();
    apply_all(&mut db, vec![users()]);
    let mut unique = constraint(ConstrType::Unique);
    unique.conname = text("users_email_key");
    unique.keys = vec![text("email")];
    let mut add = cmd(AlterTableType::AddConstraint, "");
    add.def = AlterDef::Constraint(unique);
    apply_all(&mut db, vec![alter("users", add)]);
    let kinds: Vec<ConType> = db.to_seed().pg_constraint.iter().map(|k| k.contype).collect();
    assert!(kinds.contains(&ConType::Unique));
    apply_all(&mut db, vec![alter("users", cmd(AlterTableType::DropConstraint, "users_email_key"))]);
    let kinds: Vec<ConType> = db.to_seed().pg_constraint.iter().map(|k| k.contype).collect();
    assert!(!kinds.contains(&ConType::Unique));
    assert!(apply_statement(
        &mut db,
        &alter("users", cmd(AlterTableType::DropConstraint, "users_email_key"))
    )
    .is_err());
}

#[test]
fn the_type_of_a_column_changes() {
    let mut db = server();
    apply_all(&mut db, vec![users()]);
    let mut change = cmd(AlterTableType::AlterColumnType, "email");
    change.def = AlterDef::Column(column("email", "text", vec![]));
    apply_all(&mut db, vec![alter("users", change)]);
    assert_eq!(columns_of(&db, "users")[2].2, 25);
}

// ── Views ───────────────────────────────────────────────────────────────────

fn with_views() -> PgCatalog {
    let mut db = server();
    apply_all(
        &mut db,
        vec![
            users(),
            view("v", "users", &["id", "email"], vec![raw("id", 20), raw("email", 1043)]),
            view("w", "v", &["id"], vec![raw("id", 20)]),
        ],
    );
    db
}

#[test]
fn a_view_records_what_it_reads() {
    let db = with_views();
    let users_oid = relid(&db, "users");
    let v = relid(&db, "v");
    let w = relid(&db, "w");
    assert_eq!(db.get_class(v).unwrap().relkind, RelKind::View);
    assert_eq!(find_dependent_views(&db, users_oid), vec![v]);
    assert_eq!(find_dependent_views(&db, v), vec![w]);
    assert_eq!(find_views_depending_on_column(&db, users_oid, "email"), vec![v]);
    assert!(find_views_depending_on_column(&db, users_oid, "name").is_empty());
    let body = db.view_body(v).unwrap();
    assert_eq!(body.ast, vec![1, 2, 3]);
    assert!(body.bindings.contains(&AstBinding::Relation(users_oid)));
    assert!(body.bindings.contains(&AstBinding::Column(users_oid, 3)));
}

#[test]
fn order_and_repetition_do_not_change_dependencies() {
    let refs = |columns: &[&str]| {
        let mut db = server();
        let types: Vec<RawColumn> =
            columns.iter().enumerate().map(|(i, _)| raw(&format!("c{i}"), 20)).collect();
        apply_all(&mut db, vec![users(), view("v", "users", columns, types)]);
        let v = relid(&db, "v");
        let mut deps: Vec<(u32, i16)> = vec![];
        for d in db.to_seed().pg_depend {
            if d.objid == v && d.classid == d.refclassid && d.refobjid == relid(&db, "users") {
                deps.push((d.refobjid - relid(&db, "users"), d.refobjsubid));
            }
        }
        deps
    };
    let deps = derive_deps_from_bindings(&vec![
        AstBinding::Column(9, 2),
        AstBinding::Type(25),
        AstBinding::Column(9, 1),
        AstBinding::Relation(7),
        AstBinding::Unresolved,
        AstBinding::Relation(3),
        AstBinding::Column(9, 2),
        AstBinding::Relation(7),
    ]);
    assert_eq!(deps.column_refs, vec![(9, 1), (9, 2)]);
    assert_eq!(deps.relation_refs, vec![3, 7]);
    assert_eq!(deps.type_refs, vec![25]);
    assert!(deps.function_refs.is_empty());
    let once = refs(&["id", "email"]);
    assert_eq!(once, vec![(0, 1), (0, 3), (0, 0)]);
    assert_eq!(refs(&["email", "id"]), once);
    assert_eq!(refs(&["email", "id", "email", "email"]), once);
}

#[test]
fn names_of_types_are_looked_up_under_their_catalog_names() {
    let db = server();
    for (written, oid) in [
        ("integer", 23),
        ("int", 23),
        ("serial", 23),
        ("int4", 23),
        ("bigint", 20),
        ("bigserial", 20),
        ("int8", 20),
        ("double precision", 701),
        ("double", 701),
        ("float8", 701),
        ("boolean", 16),
        ("bool", 16),
        ("character varying", 1043),
        ("varchar", 1043),
        ("text", 25),
    ] {
        assert_eq!(resolve_type_name(&ty(written), &db), Some(oid));
        let name = normalize_type_name(written);
        assert_eq!(normalize_type_name(name), name);
    }
    assert_eq!(resolve_type_name(&ty("INTEGER"), &db), None);
}

#[test]
fn a_relation_that_a_view_reads_stays_without_cascade() {
    let mut db = with_views();
    let before = snapshot(&db);
    let e = apply_statement(&mut db, &drop_of(ObjectType::Table, "users", false, false))
        .unwrap_err();
    assert!(matches!(e, DdlError::DependencyError(_)));
    assert_eq!(snapshot(&db), before);
}

#[test]
fn cascade_takes_the_readers_of_readers() {
    let mut db = with_views();
    apply_all(&mut db, vec![drop_of(ObjectType::Table, "users", false, true)]);
    for name in ["users", "v", "w", "users_pkey"] {
        assert_eq!(db.resolve_table(None, name), None, "{}", name);
    }
    assert_eq!(db.resolve_type_by_name(None, "users"), None);
    assert_eq!(db.resolve_type_by_name(None, "_users"), None);
    assert!(db.to_seed().pg_depend.is_empty());
}

#[test]
fn a_column_that_a_view_reads_stays_without_cascade() {
    let mut db = with_views();
    let before = snapshot(&db);
    let e = apply_statement(&mut db, &alter("users", cmd(AlterTableType::DropColumn, "email")));
    assert!(matches!(e, Err(DdlError::DependencyError(_))));
    assert_eq!(snapshot(&db), before);
    let mut cascade = cmd(AlterTableType::DropColumn, "email");
    cascade.cascade = true;
    apply_statement(&mut db, &alter("users", cascade)).unwrap();
    assert_eq!(db.resolve_table(None, "v"), None);
    assert_eq!(db.resolve_table(None, "w"), None);
    assert_eq!(columns_of(&db, "users").len(), 2);
}

#[test]
fn the_type_of_a_column_that_a_view_reads_stays_without_cascade() {
    for (new_type, reason) in [
        ("text", "depend on it (hint"),
        ("int4", "and the new type is not binary coercible with the old one (hint"),
    ] {
        let mut db = with_views();
        let before = snapshot(&db);
        let change = |cascade: bool| {
            let mut change = cmd(AlterTableType::AlterColumnType, "email");
            change.def = AlterDef::Column(column("email", new_type, vec![]));
            change.cascade = cascade;
            alter("users", change)
        };
        let e = apply_statement(&mut db, &change(false)).unwrap_err();
        assert!(matches!(&e, DdlError::DependencyError(_)));
        assert!(e.message().starts_with("cannot alter type of column users.email because view(s)"));
        assert!(e.message().contains(reason), "{}", e.message());
        assert_eq!(snapshot(&db), before);
        // With CASCADE the readers go, and their readers.
        apply_statement(&mut db, &change(true)).unwrap();
        assert_eq!(db.resolve_table(None, "v"), None);
        assert_eq!(db.resolve_table(None, "w"), None);
        let wanted = db.resolve_type_by_name(None, new_type).unwrap();
        assert_eq!(columns_of(&db, "users")[2].2, wanted);
    }
}

#[test]
fn a_view_is_read_again() {
    let mut db = with_views();
    let v = relid(&db, "v");
    reanalyze_view(&mut db, v, &Ok(vec![raw("id", 20), raw("email", 25)])).unwrap();
    assert_eq!(columns_of(&db, "v")[1].2, 25);
    let gone = Err(AnalyzeError::UndefinedColumn(text("column \"email\" does not exist")));
    let e = reanalyze_view(&mut db, v, &gone).unwrap_err();
    assert_eq!(
        e.message(),
        "column \"email\" does not exist (while analyzing view 'public.v')"
    );
}

#[test]
fn a_view_whose_query_is_wrong() {
    let mut db = server();
    let bad = Statement::View(ViewStmt {
        view: Some(rel("v")),
        aliases: vec![],
        query: Some(StoredQuery {
            node: Some(Box::new(select("nosuch", &["a"]))),
            analysis: Err(AnalyzeError::UndefinedTable(text("relation \"nosuch\" does not exist"))),
            ast: vec![],
        }),
        replace: false,
    });
    let e = apply_statement(&mut db, &bad).unwrap_err();
    assert!(matches!(e, DdlError::ViewAnalysis { .. }));
    assert_eq!(db.resolve_table(None, "v"), None);
}

#[test]
fn the_query_of_a_view_follows_new_names() {
    let mut db = with_views();
    let v = relid(&db, "v");
    apply_all(
        &mut db,
        vec![
            rename_of(ObjectType::Table, "users", "", "people"),
            rename_of(ObjectType::Column, "people", "email", "mail"),
        ],
    );
    let bindings = db.view_body(v).unwrap().bindings.clone();
    let mut query = select("users", &["id", "email"]);
    apply_view_bindings(&mut query, &bindings, &db);
    let text_of = format!("{:?}", query);
    assert!(text_of.contains("\"people\""));
    assert!(text_of.contains("\"mail\""));
    assert!(!text_of.contains("\"users\""));
    assert!(!text_of.contains("\"email\""));
}

#[test]
fn there_is_one_binding_for_each_name() {
    let mut db = server();
    apply_all(&mut db, vec![users()]);
    let users_oid = relid(&db, "users");
    let bindings = collect_view_bindings(&select("users", &["id", "nosuch"]), &db);
    assert_eq!(
        bindings,
        vec![
            AstBinding::Relation(users_oid),
            AstBinding::Column(users_oid, 1),
            AstBinding::Unresolved,
        ]
    );
}

// ── RENAME and SET SCHEMA ───────────────────────────────────────────────────

#[test]
fn a_renamed_table_keeps_its_oid() {
    let mut db = server();
    apply_all(&mut db, vec![users()]);
    let oid = relid(&db, "users");
    apply_all(&mut db, vec![rename_of(ObjectType::Table, "users", "", "people")]);
    assert_eq!(db.resolve_table(None, "people"), Some(oid));
    assert_eq!(db.resolve_table(None, "users"), None);
    assert!(db.resolve_type_by_name(None, "people").is_some());
    assert!(db.resolve_type_by_name(None, "_people").is_some());
    assert_eq!(db.resolve_type_by_name(None, "users"), None);
    let e = apply_statement(&mut db, &rename_of(ObjectType::Table, "users", "", "x"));
    assert!(matches!(e, Err(DdlError::TableNotFound(_))));
}

#[test]
fn a_table_moves_to_another_schema() {
    let mut db = server();
    apply_all(
        &mut db,
        vec![
            users(),
            Statement::CreateSchema(CreateSchemaStmt {
                schemaname: text("app"),
                schema_elts: vec![],
            }),
            Statement::AlterObjectSchema(AlterObjectSchemaStmt {
                object_type: ObjectType::Table,
                relation: Some(rel("users")),
                object: ObjectRef::Other,
                newschema: text("app"),
                missing_ok: false,
            }),
        ],
    );
    assert_eq!(db.resolve_table(None, "users"), None);
    assert_eq!(db.resolve_table(Some("app"), "users"), Some(100_001));
}

// ── Types ───────────────────────────────────────────────────────────────────

fn labels(db: &PgCatalog, name: &str) -> Vec<String> {
    let oid = db.resolve_type_by_name(None, name).unwrap();
    db.labels_of(oid).into_iter().map(|l| l.enumlabel).collect()
}

fn add_label(name: &str, new: &str, neighbor: &str, after: bool) -> Statement {
    Statement::AlterEnum(AlterEnumStmt {
        names: vec![text(name)],
        new_val: text(new),
        new_val_neighbor: text(neighbor),
        new_val_is_after: after,
        skip_if_new_val_exists: false,
    })
}

#[test]
fn labels_of_an_enum_keep_their_order() {
    let mut db = server();
    let make = Statement::CreateEnum(CreateEnumStmt {
        names: vec![text("mood")],
        vals: vec![Node::Text(text("sad")), Node::Text(text("happy"))],
    });
    apply_all(&mut db, vec![make]);
    assert_eq!(labels(&db, "mood"), vec!["sad", "happy"]);
    let oid = db.resolve_type_by_name(None, "mood").unwrap();
    let array = db.array_type_of(oid).unwrap();
    assert_eq!(db.resolve_type_by_name(None, "_mood"), Some(array));
    assert_eq!(db.element_of(array), Some(oid));

    apply_all(
        &mut db,
        vec![
            add_label("mood", "ok", "happy", false),
            add_label("mood", "great", "", false),
            add_label("mood", "fine", "ok", true),
        ],
    );
    assert_eq!(labels(&db, "mood"), vec!["sad", "ok", "fine", "happy", "great"]);
    let e = apply_statement(&mut db, &add_label("mood", "ok", "", false)).unwrap_err();
    assert_eq!(e.message(), "enum label \"ok\" already exists");
    let e = apply_statement(&mut db, &add_label("nosuch", "x", "", false));
    assert!(matches!(e, Err(DdlError::TypeNotFound(_))));
}

#[test]
fn domains_and_composite_types() {
    let mut db = server();
    apply_all(
        &mut db,
        vec![
            Statement::CreateDomain(CreateDomainStmt {
                domainname: vec![text("email")],
                target: Some(ty("text")),
                constraints: vec![constraint(ConstrType::NotNull)],
            }),
            Statement::CompositeType(CompositeTypeStmt {
                typevar: Some(rel("point2")),
                coldeflist: vec![column("x", "int4", vec![]), column("y", "int4", vec![])],
            }),
        ],
    );
    let email = db.resolve_type_by_name(None, "email").unwrap();
    assert_eq!(db.unwrap_domain(email), 25);
    assert!(db.get_type(email).unwrap().typnotnull);
    let point = db.resolve_type_by_name(None, "point2").unwrap();
    let fields: Vec<String> =
        db.composite_fields(point).unwrap().into_iter().map(|a| a.attname).collect();
    assert_eq!(fields, vec!["x", "y"]);
}

fn bad_modifier(ty_name: &str) -> TypeName {
    TypeName { typmod: Err(DdlError::Parse(text("invalid type modifier"))), ..ty(ty_name) }
}

#[test]
fn a_modifier_that_is_none_is_refused() {
    let mut db = server();
    apply_all(&mut db, vec![users()]);
    let before = snapshot(&db);
    let bad = |ty_name: &str| ColumnDef {
        target: Some(bad_modifier(ty_name)),
        ..column("c", ty_name, vec![])
    };
    let mut retype = cmd(AlterTableType::AlterColumnType, "email");
    retype.def = AlterDef::Column(bad("varchar"));
    let mut add = cmd(AlterTableType::AddColumn, "");
    add.def = AlterDef::Column(bad("varchar"));
    for statement in [
        table("t", vec![bad("varchar")]),
        alter("users", retype),
        alter("users", add),
        Statement::CreateDomain(CreateDomainStmt {
            domainname: vec![text("d")],
            target: Some(bad_modifier("text")),
            constraints: vec![],
        }),
        Statement::CompositeType(CompositeTypeStmt {
            typevar: Some(rel("p")),
            coldeflist: vec![column("x", "int4", vec![]), bad("text")],
        }),
    ] {
        let e = apply_statement(&mut db, &statement).unwrap_err();
        assert_eq!(e.message(), "invalid type modifier");
        assert_eq!(snapshot(&db), before);
    }
    // The type of this field is not known, so its modifier is not looked at.
    apply_all(
        &mut db,
        vec![Statement::CompositeType(CompositeTypeStmt {
            typevar: Some(rel("p")),
            coldeflist: vec![column("x", "int4", vec![]), bad("nosuch")],
        })],
    );
    let p = db.resolve_type_by_name(None, "p").unwrap();
    assert_eq!(db.composite_fields(p).unwrap().len(), 1);
}

#[test]
fn a_column_is_added_to_a_view() {
    let mut db = with_views();
    let mut add = cmd(AlterTableType::AddColumnToView, "");
    add.def = AlterDef::Column(column("extra", "text", vec![]));
    apply_all(&mut db, vec![alter("v", add)]);
    let names: Vec<String> = columns_of(&db, "v").into_iter().map(|c| c.0).collect();
    assert_eq!(names, vec!["id", "email", "extra"]);
}

#[test]
fn a_type_in_use_stays() {
    let mut db = server();
    apply_all(
        &mut db,
        vec![
            Statement::CreateEnum(CreateEnumStmt {
                names: vec![text("mood")],
                vals: vec![Node::Text(text("sad"))],
            }),
            table("t", vec![column("m", "mood", vec![]), column("n", "int4", vec![])]),
        ],
    );
    let before = snapshot(&db);
    assert!(apply_statement(&mut db, &drop_of(ObjectType::Type, "mood", false, false)).is_err());
    assert_eq!(snapshot(&db), before);
    apply_all(&mut db, vec![drop_of(ObjectType::Type, "mood", false, true)]);
    assert_eq!(db.resolve_type_by_name(None, "mood"), None);
    assert_eq!(columns_of(&db, "t").len(), 1);
}

// ── Routines, sequences, indexes, schemas ───────────────────────────────────

fn function(name: &str, args: &[&str], result: &str, replace: bool) -> Statement {
    Statement::CreateFunction(CreateFunctionStmt {
        funcname: vec![text(name)],
        parameters: args
            .iter()
            .map(|a| FunctionParameter {
                name: text(""),
                arg_type: Some(ty(a)),
                mode: FunctionParameterMode::In,
            })
            .collect(),
        return_type: Some(ty(result)),
        options: vec![],
        is_procedure: false,
        replace,
    })
}

#[test]
fn functions_are_listed_under_their_names() {
    let mut db = server();
    apply_all(
        &mut db,
        vec![function("f", &["int4"], "text", false), function("f", &["text"], "text", false)],
    );
    assert_eq!(db.find_functions(None, "f").len(), 2);
    let e = apply_statement(&mut db, &function("f", &["int4"], "text", false)).unwrap_err();
    assert_eq!(e.message(), "function \"f\" already exists with same argument types");
    apply_statement(&mut db, &function("f", &["int4"], "text", true)).unwrap();
    assert_eq!(db.find_functions(None, "f").len(), 2);
    let e = apply_statement(&mut db, &function("f", &["int4"], "int4", true)).unwrap_err();
    assert_eq!(e.message(), "cannot change return type of existing function");
}

#[test]
fn functions_are_dropped_by_their_arguments() {
    let mut db = server();
    apply_all(
        &mut db,
        vec![function("f", &["int4"], "text", false), function("f", &["text"], "text", false)],
    );
    let gone = Statement::Drop(DropStmt {
        remove_type: ObjectType::Function,
        objects: vec![ObjectRef::WithArgs(ObjectWithArgs {
            objname: vec![text("f")],
            objargs: vec![Some(ty("int4"))],
            args_unspecified: false,
        })],
        missing_ok: false,
        cascade: false,
    });
    apply_statement(&mut db, &gone).unwrap();
    assert_eq!(db.find_functions(None, "f").len(), 1);
    assert!(apply_statement(&mut db, &gone).is_err());
}

#[test]
fn aggregates_return_what_their_final_function_returns() {
    let mut db = server();
    apply_all(&mut db, vec![function("fin", &["int4"], "text", false)]);
    let define = |name: &str, with_final: bool| {
        let mut definition = vec![DefElem {
            defname: text("stype"),
            arg: DefArg::TypeName(ty("int4")),
        }];
        if with_final {
            definition.push(DefElem { defname: text("finalfunc"), arg: DefArg::TypeName(ty("fin")) });
        }
        Statement::Define(DefineStmt {
            kind: ObjectType::Aggregate,
            defnames: vec![text(name)],
            args: vec![DefineArg::List(vec![DefineArg::Parameter(FunctionParameter {
                name: text(""),
                arg_type: Some(ty("int4")),
                mode: FunctionParameterMode::In,
            })])],
            definition,
            if_not_exists: false,
        })
    };
    apply_all(&mut db, vec![define("a", false), define("b", true)]);
    let seed = db.to_seed();
    let result = |name: &str| seed.pg_proc.iter().find(|p| p.proname == name).unwrap().prorettype;
    assert_eq!(result("a"), 23);
    assert_eq!(result("b"), 25);
}

#[test]
fn operators_return_what_their_function_returns() {
    let mut db = server();
    apply_all(
        &mut db,
        vec![
            function("cat", &["text", "text"], "text", false),
            Statement::Define(DefineStmt {
                kind: ObjectType::Operator,
                defnames: vec![text("+++")],
                args: vec![],
                definition: vec![
                    DefElem { defname: text("leftarg"), arg: DefArg::TypeName(ty("text")) },
                    DefElem { defname: text("rightarg"), arg: DefArg::TypeName(ty("text")) },
                    DefElem { defname: text("procedure"), arg: DefArg::TypeName(ty("cat")) },
                ],
                if_not_exists: false,
            }),
        ],
    );
    let o = db.find_operator("+++", Some(25), 25).unwrap();
    assert_eq!(o.oprresult, Some(25));
}

#[test]
fn sequences_are_relations() {
    let mut db = server();
    let make = |if_not_exists: bool| {
        Statement::CreateSeq(CreateSeqStmt { sequence: Some(rel("s")), if_not_exists })
    };
    apply_all(&mut db, vec![make(false), make(true)]);
    assert_eq!(db.get_class(relid(&db, "s")).unwrap().relkind, RelKind::Sequence);
    assert!(apply_statement(&mut db, &make(false)).is_err());
    let before = snapshot(&db);
    let change = |name: &str| {
        Statement::AlterSeq(AlterSeqStmt { sequence: Some(rel(name)), missing_ok: false })
    };
    apply_statement(&mut db, &change("s")).unwrap();
    let e = apply_statement(&mut db, &change("t")).unwrap_err();
    assert_eq!(e.message(), "relation \"t\" does not exist");
    assert_eq!(snapshot(&db), before);

    let oid = relid(&db, "s");
    apply_all(&mut db, vec![rename_of(ObjectType::Sequence, "s", "", "counter")]);
    assert_eq!(db.resolve_table(None, "s"), None);
    assert_eq!(relid(&db, "counter"), oid);

    apply_all(&mut db, vec![users()]);
    let e = apply_statement(&mut db, &change("users")).unwrap_err();
    assert_eq!(e.message(), "\"users\" is not a sequence");
    apply_all(&mut db, vec![drop_of(ObjectType::Sequence, "counter", false, false)]);
    assert_eq!(db.resolve_table(None, "counter"), None);
}

#[test]
fn a_unique_index_is_a_unique_constraint() {
    let mut db = server();
    apply_all(&mut db, vec![users()]);
    let index = |unique: bool, has_where: bool, expr: Option<Box<Node>>| {
        Statement::Index(IndexStmt {
            idxname: text(""),
            relation: Some(rel("users")),
            index_params: vec![IndexElem {
                name: if expr.is_some() { text("") } else { text("email") },
                expr,
            }],
            has_where,
            unique,
        })
    };
    let count = |db: &PgCatalog| {
        db.to_seed().pg_constraint.iter().filter(|k| k.contype == ConType::Unique).count()
    };
    apply_all(&mut db, vec![index(false, false, None), index(true, true, None)]);
    assert_eq!(count(&db), 0);
    apply_all(&mut db, vec![index(true, false, None)]);
    assert_eq!(count(&db), 1);
    let seed = db.to_seed();
    let key = seed.pg_constraint.iter().find(|k| k.contype == ConType::Unique).unwrap();
    assert_eq!(key.conname, "users_email_key");
    assert_eq!(key.conkey, vec![3]);
    let call = Node::FuncCall(Box::new(FuncCall {
        funcname: vec![text("random")],
        args: vec![],
        agg_order: vec![],
        agg_filter: None,
        over: None,
        agg_star: false,
    }));
    assert!(apply_statement(&mut db, &index(false, false, Some(Box::new(call)))).is_err());
}

#[test]
fn schemas_are_made_and_dropped() {
    let mut db = server();
    apply_all(
        &mut db,
        vec![
            Statement::CreateSchema(CreateSchemaStmt {
                schemaname: text("app"),
                schema_elts: vec![],
            }),
            Statement::Create(CreateStmt {
                relation: Some(rel_in("app", "t")),
                table_elts: vec![TableElt::Column(column("a", "int4", vec![]))],
                constraints: vec![],
                inh_relations: vec![],
                partbound: false,
                if_not_exists: false,
            }),
        ],
    );
    assert!(db.resolve_table(Some("app"), "t").is_some());
    assert!(apply_statement(&mut db, &drop_text(ObjectType::Schema, "app", false, false)).is_err());
    apply_statement(&mut db, &drop_text(ObjectType::Schema, "app", false, true)).unwrap();
    assert_eq!(db.namespace_oid("app"), None);
    assert!(apply_statement(&mut db, &drop_text(ObjectType::Schema, "app", false, false)).is_err());
    apply_statement(&mut db, &drop_text(ObjectType::Schema, "app", true, false)).unwrap();
}

#[test]
fn missing_relations_are_skipped_where_that_is_written() {
    let mut db = server();
    let before = snapshot(&db);
    apply_statement(&mut db, &drop_of(ObjectType::Table, "t", true, false)).unwrap();
    let e = apply_statement(&mut db, &drop_of(ObjectType::Table, "t", false, false)).unwrap_err();
    assert_eq!(e.message(), "table \"t\" does not exist");
    assert_eq!(snapshot(&db), before);
}

// ── Extensions ──────────────────────────────────────────────────────────────

fn registry() -> Vec<ExtensionDef> {
    vec![ExtensionDef {
        name: text("fuzzy"),
        default_version: text("1.1"),
        versions: vec![
            ExtensionVersion {
                version: text("1.0"),
                from: None,
                script: vec![function("near", &["text"], "text", false)],
            },
            ExtensionVersion {
                version: text("1.1"),
                from: Some(text("1.0")),
                script: vec![function("far", &["text"], "text", false)],
            },
            ExtensionVersion {
                version: text("1.2"),
                from: Some(text("1.1")),
                script: vec![function("wide", &["text"], "text", false)],
            },
        ],
    }]
}

fn create_extension(name: &str, if_not_exists: bool) -> Statement {
    Statement::CreateExtension(CreateExtensionStmt {
        extname: text(name),
        if_not_exists,
        options: vec![],
        registry: registry(),
    })
}

fn update_extension(name: &str, version: &str) -> Statement {
    Statement::AlterExtension(AlterExtensionStmt {
        extname: text(name),
        options: vec![DefElem { defname: text("new_version"), arg: DefArg::Text(text(version)) }],
        registry: registry(),
    })
}

#[test]
fn extensions_are_installed_upgraded_and_dropped() {
    let mut db = server();
    apply_all(&mut db, vec![create_extension("fuzzy", false)]);
    assert_eq!(db.search_path, vec![2200]);
    assert_eq!(db.find_functions(None, "near").len(), 1);
    assert_eq!(db.find_functions(None, "far").len(), 1);
    assert_eq!(db.find_functions(None, "wide").len(), 0);
    apply_all(&mut db, vec![create_extension("fuzzy", true)]);
    let e = apply_statement(&mut db, &create_extension("fuzzy", false)).unwrap_err();
    assert_eq!(e.message(), "extension \"fuzzy\" already exists");

    apply_all(&mut db, vec![update_extension("fuzzy", "1.2")]);
    assert_eq!(db.find_functions(None, "wide").len(), 1);
    assert!(apply_statement(&mut db, &update_extension("fuzzy", "9")).is_err());

    apply_all(&mut db, vec![drop_text(ObjectType::Extension, "fuzzy", false, false)]);
    for name in ["near", "far", "wide"] {
        assert_eq!(db.find_functions(None, name).len(), 0);
    }
}

#[test]
fn unknown_extensions() {
    let mut db = server();
    let e = apply_statement(&mut db, &create_extension("nosuch", false)).unwrap_err();
    assert!(matches!(e, DdlError::ExtensionError(m) if m.starts_with("unknown extension 'nosuch'")));
    let e = apply_statement(&mut db, &update_extension("fuzzy", "1.1")).unwrap_err();
    assert!(matches!(e, DdlError::ExtensionError(m) if m == "extension 'fuzzy' is not installed"));
}

// ── What every statement keeps ──────────────────────────────────────────────

#[test]
fn a_catalog_comes_back_after_statements() {
    let mut db = with_views();
    apply_all(
        &mut db,
        vec![
            create_extension("fuzzy", false),
            rename_of(ObjectType::Table, "users", "", "people"),
            drop_text(ObjectType::Extension, "fuzzy", false, false),
        ],
    );
    let stored = snapshot(&db);
    let again = PgCatalog::from_seed(db.to_seed());
    assert_eq!(snapshot(&again), stored);
    assert_eq!(relid(&again, "people"), relid(&db, "people"));
    assert_eq!(columns_of(&again, "people"), columns_of(&db, "people"));
}

#[test]
fn oids_are_given_out_once() {
    let mut db = server();
    let start = db.next_oid;
    apply_all(&mut db, vec![users()]);
    let behind = db.next_oid;
    assert!(start < behind);
    let first = relid(&db, "users");
    assert!(start <= first && first < behind);
    apply_all(&mut db, vec![drop_of(ObjectType::Table, "users", false, false)]);
    assert!(behind <= db.next_oid);
    apply_all(&mut db, vec![users()]);
    assert!(relid(&db, "users") >= behind);
    // A refused statement takes none back.
    let now = db.next_oid;
    assert!(apply_statement(&mut db, &users()).is_err());
    assert!(now <= db.next_oid);
}

#[test]
fn a_query_can_be_forgotten() {
    let mut db = with_views();
    let v = relid(&db, "v");
    let w = relid(&db, "w");
    db.clear_view_body(v);
    assert!(db.view_body(v).is_none());
    assert!(db.view_body(w).is_some());
    assert!(db.view_body(relid(&db, "users")).is_none());
}

#[test]
fn names_without_a_schema_are_in_the_first_of_the_path() {
    let db = server();
    let name = range_var_key(&rel("users"), &db);
    assert_eq!((name.schema.as_str(), name.name.as_str()), ("public", "users"));
    let name = range_var_key(&rel_in("app", "users"), &db);
    assert_eq!((name.schema.as_str(), name.name.as_str()), ("app", "users"));
}

#[test]
fn an_index_leaves_with_the_constraint_of_its_own_table() {
    let mut db = server();
    let mut key = constraint(ConstrType::Unique);
    key.conname = text("k");
    apply_all(
        &mut db,
        vec![
            table("a", vec![column("x", "int4", vec![key])]),
            table("b", vec![column("y", "int4", vec![])]),
            Statement::Index(IndexStmt {
                idxname: text("k"),
                relation: Some(rel("b")),
                index_params: vec![IndexElem { name: text("y"), expr: None }],
                has_where: false,
                unique: true,
            }),
        ],
    );
    let owners = |db: &PgCatalog| -> Vec<u32> {
        db.to_seed().pg_constraint.iter().map(|k| k.conrelid).collect()
    };
    assert_eq!(owners(&db), vec![relid(&db, "a"), relid(&db, "b")]);
    apply_all(&mut db, vec![drop_of(ObjectType::Index, "k", false, false)]);
    assert_eq!(db.resolve_table(None, "k"), None);
    assert_eq!(owners(&db), vec![relid(&db, "b")]);
}
