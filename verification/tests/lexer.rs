use cubos_sql::lexer::{lex, LexError};

#[test]
fn no_params() {
    let out = lex("SELECT 1").unwrap();
    assert_eq!(out.sql, "SELECT 1");
    assert!(out.params.is_empty());
    assert!(out.spreads.is_empty());
}

#[test]
fn single_param() {
    let out = lex("SELECT * FROM users WHERE id = $id").unwrap();
    assert_eq!(out.sql, "SELECT * FROM users WHERE id = $1");
    assert_eq!(out.params.len(), 1);
    assert_eq!(out.params[0].name, "id");
}

#[test]
fn multiple_params() {
    let out = lex("INSERT INTO t (a, b, c) VALUES ($a, $b, $c)").unwrap();
    assert_eq!(out.sql, "INSERT INTO t (a, b, c) VALUES ($1, $2, $3)");
    assert_eq!(out.params.len(), 3);
    assert_eq!(out.params[0].name, "a");
    assert_eq!(out.params[1].name, "b");
    assert_eq!(out.params[2].name, "c");
}

#[test]
fn repeated_param_is_deduplicated() {
    let out = lex("SELECT * FROM t WHERE a = $x AND b = $x").unwrap();
    assert_eq!(out.sql, "SELECT * FROM t WHERE a = $1 AND b = $1");
    // params has only one entry for "x"
    assert_eq!(out.params.len(), 1);
    assert_eq!(out.params[0].name, "x");
}

#[test]
fn repeated_param_mixed_with_others() {
    let out = lex("SELECT $a, $b, $a, $c, $b").unwrap();
    assert_eq!(out.sql, "SELECT $1, $2, $1, $3, $2");
    assert_eq!(out.params.len(), 3);
    assert_eq!(out.params[0].name, "a");
    assert_eq!(out.params[1].name, "b");
    assert_eq!(out.params[2].name, "c");
}

#[test]
fn param_in_string_literal_ignored() {
    let out = lex("SELECT '$falso' FROM t WHERE id = $id").unwrap();
    assert_eq!(out.sql, "SELECT '$falso' FROM t WHERE id = $1");
    assert_eq!(out.params.len(), 1);
    assert_eq!(out.params[0].name, "id");
}

#[test]
fn param_in_line_comment_ignored() {
    let out = lex("SELECT 1 -- $comentario\nWHERE id = $id").unwrap();
    assert_eq!(out.params.len(), 1);
    assert_eq!(out.params[0].name, "id");
}

#[test]
fn param_in_block_comment_ignored() {
    let out = lex("SELECT /* $comentario */ 1 WHERE id = $id").unwrap();
    assert_eq!(out.params.len(), 1);
    assert_eq!(out.params[0].name, "id");
}

#[test]
fn param_in_dollar_quote_ignored() {
    let out = lex("SELECT $$body $falso$$ WHERE id = $id").unwrap();
    assert_eq!(out.params.len(), 1);
    assert_eq!(out.params[0].name, "id");
}

#[test]
fn param_in_tagged_dollar_quote_ignored() {
    let out = lex("SELECT $fn$body $falso$fn$ WHERE id = $id").unwrap();
    assert_eq!(out.params.len(), 1);
    assert_eq!(out.params[0].name, "id");
}

#[test]
fn param_in_quoted_identifier_ignored() {
    let out = lex("SELECT \"$coluna\" FROM t WHERE id = $id").unwrap();
    assert_eq!(out.params.len(), 1);
    assert_eq!(out.params[0].name, "id");
}

#[test]
fn string_with_escape() {
    let out = lex("SELECT 'it''s $falso' FROM t WHERE id = $id").unwrap();
    assert_eq!(out.params.len(), 1);
    assert_eq!(out.params[0].name, "id");
    assert!(out.sql.contains("'it''s $falso'"));
}

#[test]
fn spread_without_fields() {
    let out = lex("INSERT INTO t VALUES $..items").unwrap();
    assert!(out.params.is_empty());
    assert_eq!(out.spreads.len(), 1);
    assert_eq!(out.spreads[0].name, "items");
    assert_eq!(out.spreads[0].fields, None);
    // Spread is removed from output SQL
    assert_eq!(out.sql, "INSERT INTO t VALUES ");
    assert_eq!(out.spreads[0].offset, out.sql.len());
}

#[test]
fn spread_with_fields() {
    let out = lex("INSERT INTO t VALUES $..items { name, email, age }").unwrap();
    assert_eq!(out.spreads.len(), 1);
    assert_eq!(out.spreads[0].name, "items");
    assert_eq!(
        out.spreads[0].fields,
        Some(vec!["name".into(), "email".into(), "age".into()])
    );
    assert_eq!(out.sql, "INSERT INTO t VALUES ");
}

#[test]
fn spread_offset_after_param() {
    let out = lex("INSERT INTO t (org) VALUES ($org), $..items { name }").unwrap();
    assert_eq!(out.params.len(), 1);
    assert_eq!(out.params[0].name, "org");
    assert_eq!(out.spreads.len(), 1);
    assert_eq!(out.spreads[0].name, "items");
    // $org becomes $1, then spread is removed
    assert_eq!(out.sql, "INSERT INTO t (org) VALUES ($1), ");
    assert_eq!(out.spreads[0].offset, out.sql.len());
}

#[test]
fn multiple_spreads() {
    let out = lex("INSERT INTO t VALUES $..a { x }, $..b { y }").unwrap();
    assert_eq!(out.spreads.len(), 2);
    assert_eq!(out.spreads[0].name, "a");
    assert_eq!(out.spreads[1].name, "b");
    // Both spreads removed, offsets mark insertion points
    assert_eq!(out.sql, "INSERT INTO t VALUES , ");
    assert!(out.spreads[0].offset < out.spreads[1].offset);
}

#[test]
fn native_pg_placeholder_preserved() {
    let out = lex("SELECT * FROM t WHERE id = $1 AND name = $2").unwrap();
    assert_eq!(out.sql, "SELECT * FROM t WHERE id = $1 AND name = $2");
    assert!(out.params.is_empty());
}

#[test]
fn unclosed_string_error() {
    let err = lex("SELECT 'unclosed").unwrap_err();
    assert!(matches!(err, LexError::UnclosedString { .. }));
}

#[test]
fn unclosed_block_comment_error() {
    let err = lex("SELECT /* unclosed").unwrap_err();
    assert!(matches!(err, LexError::UnclosedBlockComment { .. }));
}

#[test]
fn nullable_param() {
    let out = lex("SELECT * FROM t WHERE age = $age?").unwrap();
    assert_eq!(out.sql, "SELECT * FROM t WHERE age = $1");
    assert_eq!(out.params.len(), 1);
    assert_eq!(out.params[0].name, "age");
    assert_eq!(out.params[0].nullable, Some(true));
}

#[test]
fn force_not_null_param() {
    let out = lex("SELECT * FROM t WHERE age = $age!").unwrap();
    assert_eq!(out.sql, "SELECT * FROM t WHERE age = $1");
    assert_eq!(out.params.len(), 1);
    assert_eq!(out.params[0].name, "age");
    assert_eq!(out.params[0].nullable, Some(false));
}

#[test]
fn non_nullable_param_default() {
    let out = lex("SELECT * FROM t WHERE id = $id").unwrap();
    assert_eq!(out.params.len(), 1);
    assert_eq!(out.params[0].name, "id");
    assert_eq!(out.params[0].nullable, None);
}

#[test]
fn mixed_nullable_params() {
    let out = lex("SELECT * FROM t WHERE id = $id AND age = $age? AND name = $name").unwrap();
    assert_eq!(
        out.sql,
        "SELECT * FROM t WHERE id = $1 AND age = $2 AND name = $3"
    );
    assert_eq!(out.params.len(), 3);
    assert_eq!(out.params[0].name, "id");
    assert_eq!(out.params[0].nullable, None);
    assert_eq!(out.params[1].name, "age");
    assert_eq!(out.params[1].nullable, Some(true));
    assert_eq!(out.params[2].name, "name");
    assert_eq!(out.params[2].nullable, None);
}

#[test]
fn mixed_all_three_annotations() {
    let out = lex("SELECT * FROM t WHERE a = $a AND b = $b? AND c = $c!").unwrap();
    assert_eq!(
        out.sql,
        "SELECT * FROM t WHERE a = $1 AND b = $2 AND c = $3"
    );
    assert_eq!(out.params.len(), 3);
    assert_eq!(out.params[0].nullable, None); // $a — auto
    assert_eq!(out.params[1].nullable, Some(true)); // $b? — force nullable
    assert_eq!(out.params[2].nullable, Some(false)); // $c! — force non-null
}

#[test]
fn nullable_param_deduplicated() {
    let out = lex("SELECT * FROM t WHERE a = $x? OR b = $x?").unwrap();
    assert_eq!(out.sql, "SELECT * FROM t WHERE a = $1 OR b = $1");
    assert_eq!(out.params.len(), 1);
    assert_eq!(out.params[0].name, "x");
    assert_eq!(out.params[0].nullable, Some(true));
}

#[test]
fn spread_with_nullable_fields() {
    let out = lex("INSERT INTO t VALUES $..items { name, email?, age }").unwrap();
    assert_eq!(out.spreads.len(), 1);
    let fields = out.spreads[0].fields.as_ref().unwrap();
    assert_eq!(fields.len(), 3);
    assert_eq!(fields[0].name, "name");
    assert!(!fields[0].nullable);
    assert_eq!(fields[1].name, "email");
    assert!(fields[1].nullable);
    assert_eq!(fields[2].name, "age");
    assert!(!fields[2].nullable);
}

#[test]
fn spread_all_nullable_fields() {
    let out = lex("INSERT INTO t VALUES $..items { a?, b? }").unwrap();
    let fields = out.spreads[0].fields.as_ref().unwrap();
    assert_eq!(fields.len(), 2);
    assert!(fields[0].nullable);
    assert!(fields[1].nullable);
}

#[test]
fn lexed_text_is_lexed_to_itself() {
    for sql in [
        "SELECT * FROM t WHERE id = $id AND name = $name? OR id = $id!",
        "SELECT $a?$b, '$c' || $$ $d $$ || $tag$ $e $tag$ -- $f",
        "SELECT $..$a, $...1, $.x, 1-$b, 2/$c /* $d /* */ */ \"$e\"\"\"$f",
        "$a?$b!$",
    ] {
        let out = lex(sql).unwrap();
        assert!(out.spreads.is_empty());
        let again = lex(&out.sql).unwrap();
        assert_eq!(again.sql, out.sql);
        assert!(again.params.is_empty());
        assert!(again.spreads.is_empty());
    }
    assert_eq!(lex("$a?$b!$").unwrap().sql, "$1$2$");
}

#[test]
fn text_that_a_spread_stood_in_may_not_be_lexed_again() {
    let out = lex("SELECT 1 /$..x* 2").unwrap();
    assert_eq!(out.sql, "SELECT 1 /* 2");
    assert!(matches!(lex(&out.sql), Err(LexError::UnclosedBlockComment { .. })));
}
