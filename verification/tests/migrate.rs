use cubos_sql::failure::Error;
use cubos_sql::migrate::{
    plan, revert, run, status, status_query, Action, AppliedRow, Event, Migration,
    MigrationSource, MigrationsConfig, Task,
};

fn migration(name: &str, down: Option<&str>, no_transaction: bool) -> Migration {
    Migration {
        name: name.to_string(),
        sql: format!("-- up {}", name),
        down_sql: down.map(|s| s.to_string()),
        no_transaction,
    }
}

fn source() -> MigrationSource {
    MigrationSource {
        list: vec![
            migration("0001_a", Some("DROP TABLE a"), false),
            migration("0002_b", None, true),
            migration("0003_c", Some("DROP TABLE c"), false),
        ],
    }
}

fn names(list: &[&str]) -> Vec<String> {
    list.iter().map(|s| s.to_string()).collect()
}

fn message(action: Action) -> (String, Option<String>) {
    match action {
        Action::Finish { outcome: Err(e), warning } => (e.message(), warning),
        other => panic!("not an error: {:?}", other),
    }
}

#[test]
fn default_settings() {
    let config = MigrationsConfig::default();
    assert_eq!(config.table, "public._migrations");
    assert_eq!(config.lock_id, 713705);
    assert!(config.use_transaction);
}

#[test]
fn pending_migrations_are_planned_in_order() {
    let config = MigrationsConfig::default();
    let jobs = plan(&source(), &names(&["0001_a"]), &config, &Task::Run).unwrap();
    let planned: Vec<(&str, bool)> =
        jobs.iter().map(|j| (j.name.as_str(), j.in_transaction)).collect();
    assert_eq!(planned, vec![("0002_b", false), ("0003_c", true)]);
}

#[test]
fn transactions_can_be_switched_off() {
    let config = MigrationsConfig {
        table: "m".to_string(),
        lock_id: 1,
        use_transaction: false,
    };
    let jobs = plan(&source(), &names(&[]), &config, &Task::Run).unwrap();
    assert!(jobs.iter().all(|j| !j.in_transaction));
    assert_eq!(jobs.len(), 3);
}

#[test]
fn a_run_without_errors() {
    let config = MigrationsConfig::default();
    let source = source();
    let (mut session, first) = run();
    assert!(matches!(first, Action::CheckConfig));
    assert!(matches!(session.step(&source, &config, Event::Done), Action::EnsureTable(sql)
        if sql.starts_with("CREATE TABLE IF NOT EXISTS public._migrations (")));
    assert!(matches!(
        session.step(&source, &config, Event::Done),
        Action::AcquireLock(713705)
    ));
    assert!(matches!(session.step(&source, &config, Event::Done),
        Action::ListApplied(sql) if sql == "SELECT name FROM public._migrations"));
    // The second migration is pending and asks for no transaction.
    assert!(matches!(
        session.step(&source, &config, Event::Names(names(&["0001_a"]))),
        Action::Execute(sql) if sql == "-- up 0002_b"
    ));
    assert!(matches!(
        session.step(&source, &config, Event::Done),
        Action::Record { sql, name }
            if sql == "INSERT INTO public._migrations (name) VALUES ($1)" && name == "0002_b"
    ));
    assert!(matches!(session.step(&source, &config, Event::Done), Action::Begin));
    assert!(matches!(
        session.step(&source, &config, Event::Done),
        Action::Execute(sql) if sql == "-- up 0003_c"
    ));
    assert!(matches!(
        session.step(&source, &config, Event::Done),
        Action::Record { name, .. } if name == "0003_c"
    ));
    assert!(matches!(session.step(&source, &config, Event::Done), Action::Commit));
    assert!(matches!(
        session.step(&source, &config, Event::Done),
        Action::ReleaseLock(713705)
    ));
    assert!(matches!(
        session.step(&source, &config, Event::Done),
        Action::Finish { outcome: Ok(done), warning: None }
            if done == names(&["0002_b", "0003_c"])
    ));
}

#[test]
fn nothing_pending_gives_an_empty_list() {
    let config = MigrationsConfig::default();
    let source = source();
    let (mut session, _) = run();
    session.step(&source, &config, Event::Done);
    session.step(&source, &config, Event::Done);
    session.step(&source, &config, Event::Done);
    assert!(matches!(
        session.step(&source, &config, Event::Names(names(&["0001_a", "0002_b", "0003_c"]))),
        Action::ReleaseLock(_)
    ));
    assert!(matches!(
        session.step(&source, &config, Event::Done),
        Action::Finish { outcome: Ok(done), warning: None } if done.is_empty()
    ));
}

#[test]
fn a_failing_migration_releases_the_lock() {
    let config = MigrationsConfig::default();
    let source = source();
    let (mut session, _) = run();
    session.step(&source, &config, Event::Done);
    session.step(&source, &config, Event::Done);
    session.step(&source, &config, Event::Done);
    session.step(&source, &config, Event::Names(names(&["0001_a"])));
    assert!(matches!(
        session.step(&source, &config, Event::Failed("syntax error".to_string())),
        Action::ReleaseLock(_)
    ));
    let (text, warning) = message(session.step(&source, &config, Event::Done));
    assert_eq!(text, "migration error: failed to apply migration 0002_b: syntax error");
    assert_eq!(warning, None);
}

#[test]
fn the_first_error_is_kept_where_the_lock_stays() {
    let config = MigrationsConfig::default();
    let source = source();
    let (mut session, _) = run();
    session.step(&source, &config, Event::Done);
    session.step(&source, &config, Event::Done);
    session.step(&source, &config, Event::Done);
    session.step(&source, &config, Event::Failed("gone".to_string()));
    let (text, warning) =
        message(session.step(&source, &config, Event::Failed("closed".to_string())));
    assert_eq!(text, "database error: gone");
    assert_eq!(
        warning.unwrap(),
        "cubos_sql: failed to release advisory lock: database error: closed"
    );
}

#[test]
fn a_lock_that_stays_is_an_error_after_success() {
    let config = MigrationsConfig::default();
    let source = source();
    let (mut session, _) = run();
    session.step(&source, &config, Event::Done);
    session.step(&source, &config, Event::Done);
    session.step(&source, &config, Event::Done);
    session.step(&source, &config, Event::Names(names(&["0001_a", "0002_b", "0003_c"])));
    let (text, _) = message(session.step(&source, &config, Event::Failed("closed".to_string())));
    assert_eq!(text, "database error: closed");
}

#[test]
fn without_the_lock_nothing_is_released() {
    let config = MigrationsConfig::default();
    let source = source();
    let (mut session, _) = run();
    session.step(&source, &config, Event::Done);
    session.step(&source, &config, Event::Done);
    let (text, _) = message(session.step(&source, &config, Event::Failed("busy".to_string())));
    assert_eq!(text, "database error: busy");
}

#[test]
fn wrong_settings_end_the_session() {
    let config = MigrationsConfig::default();
    let source = source();
    for (mut session, first) in [run(), revert("0001_a", false)] {
        assert!(matches!(first, Action::CheckConfig));
        let (text, warning) =
            message(session.step(&source, &config, Event::Failed("bad table name".to_string())));
        assert_eq!(text, "migration error: bad table name");
        assert_eq!(warning, None);
    }
}

/// Runs a session against a list of applied names; gives what it executed and returned.
fn drive(applied: &mut Vec<String>) -> (Vec<String>, Vec<String>) {
    let config = MigrationsConfig::default();
    let source = source();
    let mut executed = Vec::new();
    let (mut session, mut action) = run();
    loop {
        let event = match action {
            Action::Finish { outcome, .. } => return (executed, outcome.unwrap()),
            Action::ListApplied(_) => Event::Names(applied.clone()),
            Action::Execute(sql) => {
                executed.push(sql);
                Event::Done
            }
            Action::Record { name, .. } => {
                applied.push(name);
                Event::Done
            }
            _ => Event::Done,
        };
        action = session.step(&source, &config, event);
    }
}

#[test]
fn a_second_run_does_nothing() {
    let mut applied = names(&["0002_b"]);
    let (executed, done) = drive(&mut applied);
    assert_eq!(executed, names(&["-- up 0001_a", "-- up 0003_c"]));
    assert_eq!(done, names(&["0001_a", "0003_c"]));
    assert_eq!(applied, names(&["0002_b", "0001_a", "0003_c"]));
    assert_eq!(drive(&mut applied), (vec![], vec![]));
}

#[test]
fn reverting_what_is_not_applied() {
    let config = MigrationsConfig::default();
    let task = Task::Revert { name: "0001_a".to_string(), force: false };
    let e = plan(&source(), &names(&[]), &config, &task).unwrap_err();
    assert_eq!(e.message(), "migration error: migration '0001_a' is not applied");
}

#[test]
fn reverting_what_is_not_in_the_source() {
    let config = MigrationsConfig::default();
    let task = Task::Revert { name: "0009_x".to_string(), force: true };
    let e = plan(&source(), &names(&["0009_x"]), &config, &task).unwrap_err();
    assert_eq!(e.message(), "migration error: migration '0009_x' not found in source");
}

#[test]
fn reverting_without_a_down_file() {
    let config = MigrationsConfig::default();
    let task = Task::Revert { name: "0002_b".to_string(), force: false };
    let e = plan(&source(), &names(&["0002_b"]), &config, &task).unwrap_err();
    assert_eq!(
        e.message(),
        "migration error: migration '0002_b' has no down file (0002_b.down.sql). \
         Use force to remove the record without running SQL."
    );
    let task = Task::Revert { name: "0002_b".to_string(), force: true };
    let jobs = plan(&source(), &names(&["0002_b"]), &config, &task).unwrap();
    assert_eq!(jobs.len(), 1);
    assert!(jobs[0].sql.is_none());
}

#[test]
fn reverting_runs_the_down_file_and_removes_the_record() {
    let config = MigrationsConfig::default();
    let source = source();
    let (mut session, _) = revert("0003_c", false);
    session.step(&source, &config, Event::Done);
    session.step(&source, &config, Event::Done);
    session.step(&source, &config, Event::Done);
    assert!(matches!(
        session.step(&source, &config, Event::Names(names(&["0003_c"]))),
        Action::Begin
    ));
    assert!(matches!(
        session.step(&source, &config, Event::Done),
        Action::Execute(sql) if sql == "DROP TABLE c"
    ));
    assert!(matches!(
        session.step(&source, &config, Event::Done),
        Action::Record { sql, name }
            if sql == "DELETE FROM public._migrations WHERE name = $1" && name == "0003_c"
    ));
    assert!(matches!(session.step(&source, &config, Event::Done), Action::Commit));
    session.step(&source, &config, Event::Done);
    assert!(matches!(
        session.step(&source, &config, Event::Done),
        Action::Finish { outcome: Ok(_), .. }
    ));
}

#[test]
fn a_failing_down_file() {
    let config = MigrationsConfig::default();
    let source = source();
    let (mut session, _) = revert("0001_a", false);
    session.step(&source, &config, Event::Done);
    session.step(&source, &config, Event::Done);
    session.step(&source, &config, Event::Done);
    session.step(&source, &config, Event::Names(names(&["0001_a"])));
    session.step(&source, &config, Event::Done);
    session.step(&source, &config, Event::Failed("in use".to_string()));
    let (text, _) = message(session.step(&source, &config, Event::Done));
    assert_eq!(text, "migration error: failed to revert migration 0001_a: in use");
}

#[test]
fn status_of_every_migration() {
    let rows = vec![AppliedRow { name: "0002_b".to_string(), applied_at: 77 }];
    let list = status(&source(), &rows);
    let seen: Vec<(&str, bool, Option<i64>)> =
        list.iter().map(|s| (s.name.as_str(), s.applied, s.applied_at)).collect();
    assert_eq!(
        seen,
        vec![("0001_a", false, None), ("0002_b", true, Some(77)), ("0003_c", false, None)]
    );
    assert_eq!(status_query("m"), "SELECT name, applied_at FROM m ORDER BY name");
}

#[test]
fn messages_of_errors() {
    let all = vec![
        (Error::Database("x".into()), "database error: x"),
        (Error::Migration("x".into()), "migration error: x"),
        (Error::Io("x".into()), "io error: x"),
        (Error::Pool("x".into()), "pool error: x"),
        (Error::NoRows, "query returned no rows"),
        (Error::Deserialize("x".into()), "deserialization error: x"),
        (Error::Serialize("x".into()), "serialization error: x"),
    ];
    for (e, text) in all {
        assert_eq!(e.message(), text);
    }
}
