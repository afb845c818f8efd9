use cubos_sql::error::AnalyzeError;
use cubos_sql::query::{
    analysis_input, analyze, expression_query, predicate_query, AnalyzedColumn, InferredParam,
};

fn inferred(n: usize) -> Vec<InferredParam> {
    (0..n).map(|i| InferredParam { type_oid: 100 + i as u32, nullable: false }).collect()
}

fn column(name: &str) -> AnalyzedColumn {
    AnalyzedColumn { name: name.to_string(), type_oid: 23, nullable: true }
}

#[test]
fn a_template_without_spreads_is_analyzed_as_rewritten() {
    let input = analysis_input("SELECT $a, $b? , $c!").unwrap();
    assert_eq!(input.sql, "SELECT $1, $2 , $3");
    assert_eq!(input.nullability, vec![None, Some(true), Some(false)]);
}

#[test]
fn spreads_become_one_row_of_placeholders() {
    let input =
        analysis_input("INSERT INTO \"né\" VALUES $..it { a, b? }, ($x), $..more { c }").unwrap();
    assert_eq!(input.sql, "INSERT INTO \"né\" VALUES ($2, $3), ($1), ($4)");
    assert_eq!(input.nullability, vec![None, None, Some(true), None]);
}

#[test]
fn a_spread_without_fields_leaves_nothing() {
    let input = analysis_input("INSERT INTO t VALUES $..items").unwrap();
    assert_eq!(input.sql, "INSERT INTO t VALUES ");
    assert!(input.nullability.is_empty());
}

#[test]
fn what_is_written_wins_over_what_is_inferred() {
    let mut infos = inferred(3);
    infos[0].nullable = true;
    infos[2].nullable = true;
    let q = analyze("SELECT $a, $b?, $c!", Ok((vec![column("x")], infos))).unwrap();
    let seen: Vec<(&str, u32, bool)> =
        q.params.iter().map(|p| (p.name.as_str(), p.type_oid, p.nullable)).collect();
    assert_eq!(seen, vec![("a", 100, true), ("b", 101, true), ("c", 102, false)]);
    assert_eq!(q.sql, "SELECT $1, $2, $3");
    assert_eq!(q.params[1].sql_offsets, vec![13]);
    assert_eq!(q.columns[0].name, "x");
}

#[test]
fn fields_of_spreads_get_the_types_behind_the_parameters() {
    let sql = "INSERT INTO t VALUES ($x), $..items { a, b? }, $..more";
    let q = analyze(sql, Ok((vec![], inferred(3)))).unwrap();
    assert_eq!(q.params[0].type_oid, 100);
    let fields = q.spreads[0].fields.as_ref().unwrap();
    assert_eq!((fields[0].type_oid, fields[0].nullable), (101, false));
    assert_eq!((fields[1].type_oid, fields[1].nullable), (102, true));
    assert_eq!(q.spreads[0].offset, "INSERT INTO t VALUES ($1), ".len());
    assert!(q.spreads[1].fields.is_none());
}

#[test]
fn rust_types_stand_for_the_types_of_the_server() {
    let columns = vec![
        AnalyzedColumn { name: "id".to_string(), type_oid: 20, nullable: false },
        AnalyzedColumn { name: "name".to_string(), type_oid: 25, nullable: false },
        AnalyzedColumn { name: "mood".to_string(), type_oid: 100_007, nullable: false },
    ];
    let infos = vec![InferredParam { type_oid: 20, nullable: false }];
    let q = analyze("SELECT id, name, mood FROM users WHERE id = $id", Ok((columns, infos))).unwrap();
    assert_eq!(q.sql, "SELECT id, name, mood FROM users WHERE id = $1");
    assert_eq!(q.columns[0].rust_type(), Some("i64"));
    assert_eq!(q.columns[1].rust_type(), Some("String"));
    assert_eq!(q.columns[2].rust_type(), None);
    assert_eq!(q.params[0].rust_type(), Some("i64"));
    let infos = vec![InferredParam { type_oid: 2950, nullable: false }];
    let q = analyze("INSERT INTO t VALUES $..rows { id }", Ok((vec![], infos))).unwrap();
    assert_eq!(q.spreads[0].fields.as_ref().unwrap()[0].rust_type(), Some("uuid::Uuid"));
}

#[test]
fn the_number_of_placeholders_must_agree() {
    let e = analyze("SELECT $a, $b", Ok((vec![], inferred(1)))).unwrap_err();
    assert_eq!(
        e,
        AnalyzeError::Internal(
            "analyzer param count (1) does not match lexer placeholder count (2) \
             for SQL: SELECT $1, $2"
                .to_string()
        )
    );
}

#[test]
fn an_error_of_the_lexer_comes_first() {
    let failed = Err(AnalyzeError::Invalid("later".to_string()));
    assert!(matches!(analyze("SELECT 'x", failed), Err(AnalyzeError::Lex(_))));
    assert!(matches!(analysis_input("SELECT /* x"), Err(AnalyzeError::Lex(_))));
    let failed = Err(AnalyzeError::Invalid("later".to_string()));
    assert_eq!(
        analyze("SELECT 1", failed).unwrap_err(),
        AnalyzeError::Invalid("later".to_string())
    );
}

#[test]
fn queries_around_expressions() {
    assert_eq!(expression_query("lower(a)"), "SELECT lower(a)");
    assert_eq!(predicate_query("a > 1"), "SELECT 1 WHERE a > 1");
}
