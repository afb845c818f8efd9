use cubos_sql::diagnostic::{render, RawError, SourceSpan};

#[test]
fn renders_single_primary_with_hint() {
    let sql = "SELECT *\nFROM userz\nWHERE id = 1";
    let start = sql.find("userz").unwrap();
    let span = SourceSpan::new(start, start + "userz".len());
    let raw =
        RawError::undefined_table("userz", Some(span), Some("did you mean \"users\"?".into()));
    let rendered = render(&raw.pg_message(), &raw, sql);

    let expected = "\
relation \"userz\" does not exist
  ╭────
2 │ FROM userz
  ·      ──┬──
  ·        ╰─ relation does not exist
  ╰────
  help: did you mean \"users\"?
";
    assert_eq!(rendered, expected);
}

#[test]
fn renders_without_span_is_flat() {
    let sql = "SELECT 1";
    let raw = RawError::undefined_table("x", None, None);
    let rendered = render(&raw.pg_message(), &raw, sql);
    assert_eq!(rendered, "relation \"x\" does not exist\n");
}

#[test]
fn renders_flat_with_hint_only() {
    let sql = "SELECT 1";
    let raw = RawError::undefined_table("x", None, Some("did you mean \"users\"?".into()));
    let rendered = render(&raw.pg_message(), &raw, sql);
    assert_eq!(
        rendered,
        "relation \"x\" does not exist\n  help: did you mean \"users\"?\n"
    );
}

#[test]
fn renders_behind_a_parameter_at_its_own_place() {
    // The span speaks of the rewritten text, where `$name` is shorter.
    let sql = "SELECT $name FROM userz";
    let rewritten = "SELECT $1 FROM userz";
    let start = rewritten.find("userz").unwrap();
    let span = SourceSpan::new(start, start + "userz".len());
    let raw = RawError::undefined_table("userz", Some(span), None);
    let rendered = render(&raw.pg_message(), &raw, sql);
    let expected = "\
relation \"userz\" does not exist
  ╭────
1 │ SELECT $name FROM userz
  ·                   ──┬──
  ·                     ╰─ relation does not exist
  ╰────
";
    assert_eq!(rendered, expected);
}
