//! Migrations: which are pending, in what order they are applied, and what is done
//! when one fails.

use crate::failure::{failure_text, Error, ErrorView};
use crate::text::{concat2, concat3, concat4, concat5, same_text};
use vstd::prelude::*;

verus! {

// ── Migrations ──────────────────────────────────────────────────────────────

/// A migration.
#[derive(Debug)]
pub struct Migration {
    /// The name, for example `0001_create_users`.
    pub name: String,
    /// What applies it.
    pub sql: String,
    /// What reverts it, where it can be reverted.
    pub down_sql: Option<String>,
    /// Whether it asks not to be run in a transaction.
    pub no_transaction: bool,
}

#[verifier::ext_equal]
pub struct MigrationView {
    pub name: Seq<char>,
    pub sql: Seq<char>,
    pub down_sql: Option<Seq<char>>,
    pub no_transaction: bool,
}

impl View for Migration {
    type V = MigrationView;

    open spec fn view(&self) -> MigrationView {
        MigrationView {
            name: self.name@,
            sql: self.sql@,
            down_sql: match self.down_sql {
                Some(s) => Some(s@),
                None => None,
            },
            no_transaction: self.no_transaction,
        }
    }
}

/// The migrations of a project, in the order of their versions.
#[derive(Debug)]
pub struct MigrationSource {
    pub list: Vec<Migration>,
}

impl View for MigrationSource {
    type V = Seq<MigrationView>;

    open spec fn view(&self) -> Seq<MigrationView> {
        self.list@.map_values(|m: Migration| m@)
    }
}

/// The position of the first migration with this name, from position `i` on.
pub open spec fn migration_position(
    list: Seq<MigrationView>,
    name: Seq<char>,
    i: int,
) -> Option<int>
    decreases list.len() - i,
{
    if i >= list.len() {
        None
    } else if list[i].name == name {
        Some(i)
    } else {
        migration_position(list, name, i + 1)
    }
}

impl MigrationSource {
    /// The migrations, in the order of their versions.
    pub fn migrations(&self) -> (r: &Vec<Migration>)
        ensures
            r == &self.list,
    {
        &self.list
    }

    /// The position of the migration with this name.
    pub fn find(&self, name: &str) -> (r: Option<usize>)
        ensures
            match r {
                Some(i) => i < self@.len() && migration_position(self@, name@, 0) == Some(i as int),
                None => migration_position(self@, name@, 0) is None,
            },
    {
        let mut i: usize = 0;
        while i < self.list.len()
            invariant
                i <= self.list@.len(),
                migration_position(self@, name@, 0) == migration_position(self@, name@, i as int),
            decreases self.list.len() - i,
        {
            if same_text(&self.list[i].name, name) {
                return Some(i);
            }
            i = i + 1;
        }
        None
    }
}

/// How migrations are recorded and run.
#[derive(Debug)]
pub struct MigrationsConfig {
    /// The table that records which migrations are applied.
    pub table: String,
    /// The number of the advisory lock.
    pub lock_id: i64,
    /// Whether migrations are run in transactions.
    pub use_transaction: bool,
}

#[verifier::ext_equal]
pub struct ConfigView {
    pub table: Seq<char>,
    pub lock_id: i64,
    pub use_transaction: bool,
}

impl View for MigrationsConfig {
    type V = ConfigView;

    open spec fn view(&self) -> ConfigView {
        ConfigView {
            table: self.table@,
            lock_id: self.lock_id,
            use_transaction: self.use_transaction,
        }
    }
}

impl Default for MigrationsConfig {
    fn default() -> (r: MigrationsConfig)
        ensures
            r@ == (ConfigView {
                table: "public._migrations"@,
                lock_id: 713705,
                use_transaction: true,
            }),
    {
        MigrationsConfig {
            table: "public._migrations".to_string(),
            lock_id: 713705,
            use_transaction: true,
        }
    }
}

// ── Texts ───────────────────────────────────────────────────────────────────

/// The statement that makes the table of records where it is missing.
pub open spec fn table_text(table: Seq<char>) -> Seq<char> {
    "CREATE TABLE IF NOT EXISTS "@ + table
        + " (\n            name       TEXT PRIMARY KEY,\n            applied_at TIMESTAMPTZ NOT NULL DEFAULT now()\n        );"@
}

/// The query for the names of the migrations that are applied.
pub open spec fn names_text(table: Seq<char>) -> Seq<char> {
    "SELECT name FROM "@ + table
}

/// The query for the migrations that are applied and when.
pub fn status_query(table: &str) -> (r: String)
    ensures
        r@ == "SELECT name, applied_at FROM "@ + table@ + " ORDER BY name"@,
{
    concat3("SELECT name, applied_at FROM ", table, " ORDER BY name")
}

// ── Status ──────────────────────────────────────────────────────────────────

/// Whether a migration is applied, and when it was.
#[derive(Debug, Clone)]
pub struct MigrationStatus {
    pub name: String,
    pub applied: bool,
    /// Microseconds since the beginning of 1970 in universal time.
    pub applied_at: Option<i64>,
}

/// The record of a migration that is applied.
#[derive(Debug)]
pub struct AppliedRow {
    pub name: String,
    pub applied_at: i64,
}

/// When the migration with this name was applied, by the last of the first `n`
/// records.
pub open spec fn applied_at(rows: Seq<AppliedRow>, name: Seq<char>, n: int) -> Option<i64>
    decreases n,
{
    if n <= 0 {
        None
    } else if rows[n - 1].name@ == name {
        Some(rows[n - 1].applied_at)
    } else {
        applied_at(rows, name, n - 1)
    }
}

fn find_applied_at(rows: &Vec<AppliedRow>, name: &str) -> (r: Option<i64>)
    ensures
        r == applied_at(rows@, name@, rows@.len() as int),
{
    let mut i: usize = rows.len();
    while i > 0
        invariant
            i <= rows@.len(),
            applied_at(rows@, name@, rows@.len() as int) == applied_at(rows@, name@, i as int),
        decreases i,
    {
        if same_text(&rows[i - 1].name, name) {
            return Some(rows[i - 1].applied_at);
        }
        i = i - 1;
    }
    None
}

/// The status of every migration, in the order of their versions.
pub fn status(source: &MigrationSource, rows: &Vec<AppliedRow>) -> (r: Vec<MigrationStatus>)
    ensures
        r@.len() == source@.len(),
        forall|i: int|
            0 <= i < source@.len() ==> (#[trigger] r@[i]).name@ == source@[i].name
                && r@[i].applied_at == applied_at(rows@, source@[i].name, rows@.len() as int)
                && r@[i].applied == r@[i].applied_at.is_some(),
{
    let mut r: Vec<MigrationStatus> = Vec::new();
    let mut i: usize = 0;
    while i < source.list.len()
        invariant
            i <= source.list@.len(),
            r@.len() == i,
            forall|k: int|
                0 <= k < i ==> (#[trigger] r@[k]).name@ == source@[k].name && r@[k].applied_at
                    == applied_at(rows@, source@[k].name, rows@.len() as int) && r@[k].applied
                    == r@[k].applied_at.is_some(),
        decreases source.list.len() - i,
    {
        let m: &Migration = &source.list[i];
        let at: Option<i64> = find_applied_at(rows, &m.name);
        r.push(
            MigrationStatus {
                name: m.name.as_str().to_owned(),
                applied: at.is_some(),
                applied_at: at,
            },
        );
        i = i + 1;
    }
    r
}

// ── Plans ───────────────────────────────────────────────────────────────────

/// One change of the database: what is executed, where anything is, and the
/// migration whose record changes.
#[derive(Debug)]
pub struct Job {
    pub name: String,
    pub sql: Option<String>,
    pub in_transaction: bool,
}

#[verifier::ext_equal]
pub struct JobView {
    pub name: Seq<char>,
    pub sql: Option<Seq<char>>,
    pub in_transaction: bool,
}

impl View for Job {
    type V = JobView;

    open spec fn view(&self) -> JobView {
        JobView {
            name: self.name@,
            sql: match self.sql {
                Some(s) => Some(s@),
                None => None,
            },
            in_transaction: self.in_transaction,
        }
    }
}

/// The values of a list of jobs.
pub open spec fn job_views(v: Seq<Job>) -> Seq<JobView> {
    v.map_values(|j: Job| j@)
}

/// The values of a list of names.
pub open spec fn name_views(v: Seq<String>) -> Seq<Seq<char>> {
    v.map_values(|s: String| s@)
}

/// What applies a migration.
pub open spec fn job_of(m: MigrationView, config: ConfigView) -> JobView {
    JobView {
        name: m.name,
        sql: Some(m.sql),
        in_transaction: config.use_transaction && !m.no_transaction,
    }
}

/// What applies those of the first `n` migrations that are not applied yet, in their
/// order.
pub open spec fn pending(
    list: Seq<MigrationView>,
    applied: Seq<Seq<char>>,
    config: ConfigView,
    n: int,
) -> Seq<JobView>
    decreases n,
{
    if n <= 0 {
        Seq::empty()
    } else if applied.contains(list[n - 1].name) {
        pending(list, applied, config, n - 1)
    } else {
        pending(list, applied, config, n - 1).push(job_of(list[n - 1], config))
    }
}

/// What is to be done.
#[derive(Debug)]
pub enum Task {
    /// Apply every pending migration.
    Run,
    /// Revert one migration. With `force`, one that cannot be reverted only loses its
    /// record.
    Revert { name: String, force: bool },
}

pub enum TaskView {
    Run,
    Revert { name: Seq<char>, force: bool },
}

impl View for Task {
    type V = TaskView;

    open spec fn view(&self) -> TaskView {
        match *self {
            Task::Run => TaskView::Run,
            Task::Revert { name, force } => TaskView::Revert { name: name@, force },
        }
    }
}

/// What reverts one migration: it must be applied and known, and have a statement
/// that reverts it, unless only its record is to be removed.
pub open spec fn reversal(
    list: Seq<MigrationView>,
    applied: Seq<Seq<char>>,
    config: ConfigView,
    name: Seq<char>,
    force: bool,
) -> Result<Seq<JobView>, ErrorView> {
    if !applied.contains(name) {
        Err(ErrorView::Migration("migration '"@ + name + "' is not applied"@))
    } else {
        match migration_position(list, name, 0) {
            None => Err(ErrorView::Migration("migration '"@ + name + "' not found in source"@)),
            Some(i) => match list[i].down_sql {
                Some(down) => Ok(
                    seq![
                        JobView {
                            name,
                            sql: Some(down),
                            in_transaction: config.use_transaction && !list[i].no_transaction,
                        },
                    ],
                ),
                None => if force {
                    Ok(seq![JobView { name, sql: None, in_transaction: false }])
                } else {
                    Err(
                        ErrorView::Migration(
                            "migration '"@ + name + "' has no down file ("@ + name
                                + ".down.sql). Use force to remove the record without running SQL."@,
                        ),
                    )
                },
            },
        }
    }
}

/// What a task comes to, given the migrations that are applied.
pub open spec fn planned(
    list: Seq<MigrationView>,
    applied: Seq<Seq<char>>,
    config: ConfigView,
    task: TaskView,
) -> Result<Seq<JobView>, ErrorView> {
    match task {
        TaskView::Run => Ok(pending(list, applied, config, list.len() as int)),
        TaskView::Revert { name, force } => reversal(list, applied, config, name, force),
    }
}

fn is_listed(names: &Vec<String>, name: &str) -> (r: bool)
    ensures
        r == name_views(names@).contains(name@),
{
    let ghost all = name_views(names@);
    let mut i: usize = 0;
    while i < names.len()
        invariant
            all == name_views(names@),
            i <= names@.len(),
            forall|k: int| 0 <= k < i ==> (#[trigger] all[k]) != name@,
        decreases names.len() - i,
    {
        if same_text(&names[i], name) {
            proof {
                assert(all[i as int] == name@);
            }
            return true;
        }
        i = i + 1;
    }
    false
}

fn plan_run(
    source: &MigrationSource,
    applied: &Vec<String>,
    config: &MigrationsConfig,
) -> (r: Vec<Job>)
    ensures
        job_views(r@) == pending(source@, name_views(applied@), config@, source@.len() as int),
{
    let mut r: Vec<Job> = Vec::new();
    let mut i: usize = 0;
    proof {
        assert(job_views(r@) =~= Seq::empty());
    }
    while i < source.list.len()
        invariant
            i <= source.list@.len(),
            job_views(r@) == pending(source@, name_views(applied@), config@, i as int),
        decreases source.list.len() - i,
    {
        let m: &Migration = &source.list[i];
        if !is_listed(applied, &m.name) {
            let ghost before = job_views(r@);
            let job: Job = Job {
                name: m.name.as_str().to_owned(),
                sql: Some(m.sql.as_str().to_owned()),
                in_transaction: config.use_transaction && !m.no_transaction,
            };
            r.push(job);
            proof {
                assert(job@ == job_of(m@, config@));
                assert(job_views(r@) =~= before.push(job@));
            }
        }
        i = i + 1;
    }
    r
}

/// The outcome of planning, as a mathematical value.
pub open spec fn plan_outcome(r: Result<Vec<Job>, Error>) -> Result<Seq<JobView>, ErrorView> {
    match r {
        Ok(v) => Ok(job_views(v@)),
        Err(e) => Err(e@),
    }
}

fn plan_revert(
    source: &MigrationSource,
    applied: &Vec<String>,
    config: &MigrationsConfig,
    name: &str,
    force: bool,
) -> (r: Result<Vec<Job>, Error>)
    ensures
        plan_outcome(r) == reversal(source@, name_views(applied@), config@, name@, force),
{
    if !is_listed(applied, name) {
        return Err(Error::Migration(concat3("migration '", name, "' is not applied")));
    }
    let i: usize = match source.find(name) {
        Some(i) => i,
        None => return Err(Error::Migration(concat3("migration '", name, "' not found in source"))),
    };
    let m: &Migration = &source.list[i];
    let mut jobs: Vec<Job> = Vec::new();
    match &m.down_sql {
        Some(down) => {
            let job: Job = Job {
                name: name.to_owned(),
                sql: Some(down.as_str().to_owned()),
                in_transaction: config.use_transaction && !m.no_transaction,
            };
            jobs.push(job);
            proof {
                assert(job_views(jobs@) =~= seq![job@]);
            }
            Ok(jobs)
        },
        None => {
            if !force {
                return Err(
                    Error::Migration(
                        concat5(
                            "migration '",
                            name,
                            "' has no down file (",
                            name,
                            ".down.sql). Use force to remove the record without running SQL.",
                        ),
                    ),
                );
            }
            let job: Job = Job { name: name.to_owned(), sql: None, in_transaction: false };
            jobs.push(job);
            proof {
                assert(job_views(jobs@) =~= seq![job@]);
            }
            Ok(jobs)
        },
    }
}

/// What a task comes to, given the names of the migrations that are applied.
pub fn plan(
    source: &MigrationSource,
    applied: &Vec<String>,
    config: &MigrationsConfig,
    task: &Task,
) -> (r: Result<Vec<Job>, Error>)
    ensures
        plan_outcome(r) == planned(source@, name_views(applied@), config@, task@),
{
    match task {
        Task::Run => Ok(plan_run(source, applied, config)),
        Task::Revert { name, force } => plan_revert(source, applied, config, name, *force),
    }
}

// ── Sessions ────────────────────────────────────────────────────────────────

/// What is waited for.
#[derive(Debug)]
pub enum Phase {
    /// The settings are being checked.
    Checking,
    /// The table of records is being made.
    Ensuring,
    /// The lock is being acquired.
    Locking,
    /// The names of the applied migrations are being read.
    Listing,
    /// A transaction for a job is being begun.
    Beginning(usize),
    /// A job is being executed.
    Executing(usize),
    /// The record of a job is being changed.
    Recording(usize),
    /// The transaction of a job is being committed.
    Committing(usize),
    /// The lock is being released, after an error or after none.
    Releasing(Option<Error>),
    Finished,
}

#[verifier::ext_equal]
pub enum PhaseView {
    Checking,
    Ensuring,
    Locking,
    Listing,
    Beginning(int),
    Executing(int),
    Recording(int),
    Committing(int),
    Releasing(Option<ErrorView>),
    Finished,
}

impl View for Phase {
    type V = PhaseView;

    open spec fn view(&self) -> PhaseView {
        match *self {
            Phase::Checking => PhaseView::Checking,
            Phase::Ensuring => PhaseView::Ensuring,
            Phase::Locking => PhaseView::Locking,
            Phase::Listing => PhaseView::Listing,
            Phase::Beginning(k) => PhaseView::Beginning(k as int),
            Phase::Executing(k) => PhaseView::Executing(k as int),
            Phase::Recording(k) => PhaseView::Recording(k as int),
            Phase::Committing(k) => PhaseView::Committing(k as int),
            Phase::Releasing(Some(e)) => PhaseView::Releasing(Some(e@)),
            Phase::Releasing(None) => PhaseView::Releasing(None),
            Phase::Finished => PhaseView::Finished,
        }
    }
}

/// What came of an action.
#[derive(Debug)]
pub enum Event {
    /// The action succeeded.
    Done,
    /// The names of the applied migrations.
    Names(Vec<String>),
    /// The action failed; what was said of it.
    Failed(String),
}

pub enum EventView {
    Done,
    Names(Seq<Seq<char>>),
    Failed(Seq<char>),
}

impl View for Event {
    type V = EventView;

    open spec fn view(&self) -> EventView {
        match *self {
            Event::Done => EventView::Done,
            Event::Names(v) => EventView::Names(name_views(v@)),
            Event::Failed(m) => EventView::Failed(m@),
        }
    }
}

/// What is to be done next.
#[derive(Debug)]
pub enum Action {
    /// Check the settings. Where they are wrong, nothing is sent to the database.
    CheckConfig,
    /// Execute a statement outside of any transaction.
    EnsureTable(String),
    AcquireLock(i64),
    /// Read names by this query.
    ListApplied(String),
    Begin,
    /// Execute statements, in the transaction where one is open.
    Execute(String),
    /// Execute a statement with the name of a migration as its parameter.
    Record { sql: String, name: String },
    Commit,
    ReleaseLock(i64),
    /// Nothing; the outcome, and what is to be reported beside it.
    Finish { outcome: Result<Vec<String>, Error>, warning: Option<String> },
}

#[verifier::ext_equal]
pub enum ActionView {
    CheckConfig,
    EnsureTable(Seq<char>),
    AcquireLock(i64),
    ListApplied(Seq<char>),
    Begin,
    Execute(Seq<char>),
    Record { sql: Seq<char>, name: Seq<char> },
    Commit,
    ReleaseLock(i64),
    Finish { outcome: Result<Seq<Seq<char>>, ErrorView>, warning: Option<Seq<char>> },
}

impl View for Action {
    type V = ActionView;

    open spec fn view(&self) -> ActionView {
        match *self {
            Action::CheckConfig => ActionView::CheckConfig,
            Action::EnsureTable(s) => ActionView::EnsureTable(s@),
            Action::AcquireLock(n) => ActionView::AcquireLock(n),
            Action::ListApplied(s) => ActionView::ListApplied(s@),
            Action::Begin => ActionView::Begin,
            Action::Execute(s) => ActionView::Execute(s@),
            Action::Record { sql, name } => ActionView::Record { sql: sql@, name: name@ },
            Action::Commit => ActionView::Commit,
            Action::ReleaseLock(n) => ActionView::ReleaseLock(n),
            Action::Finish { outcome, warning } => ActionView::Finish {
                outcome: match outcome {
                    Ok(v) => Ok(name_views(v@)),
                    Err(e) => Err(e@),
                },
                warning: match warning {
                    Some(w) => Some(w@),
                    None => None,
                },
            },
        }
    }
}

/// A task that is being done.
#[derive(Debug)]
pub struct Session {
    pub task: Task,
    pub phase: Phase,
    pub jobs: Vec<Job>,
    /// The names of the migrations whose jobs are done.
    pub done: Vec<String>,
}

#[verifier::ext_equal]
pub struct SessionView {
    pub task: TaskView,
    pub phase: PhaseView,
    pub jobs: Seq<JobView>,
    pub done: Seq<Seq<char>>,
}

impl View for Session {
    type V = SessionView;

    open spec fn view(&self) -> SessionView {
        SessionView {
            task: self.task@,
            phase: self.phase@,
            jobs: job_views(self.jobs@),
            done: name_views(self.done@),
        }
    }
}

/// Whether the phase speaks of a job that there is.
pub open spec fn phase_valid(s: SessionView) -> bool {
    match s.phase {
        PhaseView::Beginning(k) => 0 <= k < s.jobs.len(),
        PhaseView::Executing(k) => 0 <= k < s.jobs.len(),
        PhaseView::Recording(k) => 0 <= k < s.jobs.len(),
        PhaseView::Committing(k) => 0 <= k < s.jobs.len(),
        _ => true,
    }
}

/// The statement that changes the record of a migration.
pub open spec fn record_text(task: TaskView, table: Seq<char>) -> Seq<char> {
    match task {
        TaskView::Run => "INSERT INTO "@ + table + " (name) VALUES ($1)"@,
        TaskView::Revert { .. } => "DELETE FROM "@ + table + " WHERE name = $1"@,
    }
}

/// What is said where the statements of a job failed.
pub open spec fn job_error(task: TaskView, name: Seq<char>, said: Seq<char>) -> ErrorView {
    ErrorView::Migration(
        (match task {
            TaskView::Run => "failed to apply migration "@,
            TaskView::Revert { .. } => "failed to revert migration "@,
        }) + name + ": "@ + said,
    )
}

/// The session that goes on with job `k`, or releases the lock behind the last one.
pub open spec fn job_begun(
    s: SessionView,
    config: ConfigView,
    k: int,
) -> (SessionView, ActionView) {
    if k < s.jobs.len() {
        match s.jobs[k].sql {
            None => (
                SessionView { phase: PhaseView::Recording(k), ..s },
                ActionView::Record {
                    sql: record_text(s.task, config.table),
                    name: s.jobs[k].name,
                },
            ),
            Some(sql) => if s.jobs[k].in_transaction {
                (SessionView { phase: PhaseView::Beginning(k), ..s }, ActionView::Begin)
            } else {
                (SessionView { phase: PhaseView::Executing(k), ..s }, ActionView::Execute(sql))
            },
        }
    } else {
        (
            SessionView { phase: PhaseView::Releasing(None), ..s },
            ActionView::ReleaseLock(config.lock_id),
        )
    }
}

/// The session that releases the lock after an error.
pub open spec fn given_up(s: SessionView, config: ConfigView, e: ErrorView) -> (
    SessionView,
    ActionView,
) {
    (
        SessionView { phase: PhaseView::Releasing(Some(e)), ..s },
        ActionView::ReleaseLock(config.lock_id),
    )
}

/// The session that ends.
pub open spec fn ended(
    s: SessionView,
    outcome: Result<Seq<Seq<char>>, ErrorView>,
    warning: Option<Seq<char>>,
) -> (SessionView, ActionView) {
    (
        SessionView { phase: PhaseView::Finished, ..s },
        ActionView::Finish { outcome, warning },
    )
}

/// The session after a job is done.
pub open spec fn job_done(s: SessionView, config: ConfigView, k: int) -> (SessionView, ActionView) {
    job_begun(SessionView { done: s.done.push(s.jobs[k].name), ..s }, config, k + 1)
}

/// What follows what came of an action.
pub open spec fn stepped(
    s: SessionView,
    list: Seq<MigrationView>,
    config: ConfigView,
    event: EventView,
) -> (SessionView, ActionView) {
    match s.phase {
        PhaseView::Checking => match event {
            EventView::Failed(m) => ended(s, Err(ErrorView::Migration(m)), None),
            _ => (
                SessionView { phase: PhaseView::Ensuring, ..s },
                ActionView::EnsureTable(table_text(config.table)),
            ),
        },
        PhaseView::Ensuring => match event {
            EventView::Failed(m) => ended(s, Err(ErrorView::Database(m)), None),
            _ => (
                SessionView { phase: PhaseView::Locking, ..s },
                ActionView::AcquireLock(config.lock_id),
            ),
        },
        PhaseView::Locking => match event {
            EventView::Failed(m) => ended(s, Err(ErrorView::Database(m)), None),
            _ => (
                SessionView { phase: PhaseView::Listing, ..s },
                ActionView::ListApplied(names_text(config.table)),
            ),
        },
        PhaseView::Listing => match event {
            EventView::Failed(m) => given_up(s, config, ErrorView::Database(m)),
            EventView::Names(names) => match planned(list, names, config, s.task) {
                Ok(jobs) => job_begun(SessionView { jobs, ..s }, config, 0),
                Err(e) => given_up(s, config, e),
            },
            EventView::Done => match planned(list, Seq::empty(), config, s.task) {
                Ok(jobs) => job_begun(SessionView { jobs, ..s }, config, 0),
                Err(e) => given_up(s, config, e),
            },
        },
        PhaseView::Beginning(k) => match event {
            EventView::Failed(m) => given_up(s, config, ErrorView::Database(m)),
            _ => (
                SessionView { phase: PhaseView::Executing(k), ..s },
                ActionView::Execute(
                    match s.jobs[k].sql {
                        Some(sql) => sql,
                        None => Seq::empty(),
                    },
                ),
            ),
        },
        PhaseView::Executing(k) => match event {
            EventView::Failed(m) => given_up(s, config, job_error(s.task, s.jobs[k].name, m)),
            _ => (
                SessionView { phase: PhaseView::Recording(k), ..s },
                ActionView::Record {
                    sql: record_text(s.task, config.table),
                    name: s.jobs[k].name,
                },
            ),
        },
        PhaseView::Recording(k) => match event {
            EventView::Failed(m) => given_up(s, config, ErrorView::Database(m)),
            _ => if s.jobs[k].in_transaction {
                (SessionView { phase: PhaseView::Committing(k), ..s }, ActionView::Commit)
            } else {
                job_done(s, config, k)
            },
        },
        PhaseView::Committing(k) => match event {
            EventView::Failed(m) => given_up(s, config, ErrorView::Database(m)),
            _ => job_done(s, config, k),
        },
        PhaseView::Releasing(first) => match (first, event) {
            (None, EventView::Failed(m)) => ended(s, Err(ErrorView::Database(m)), None),
            (None, _) => ended(s, Ok(s.done), None),
            (Some(e), EventView::Failed(m)) => ended(
                s,
                Err(e),
                Some(
                    "cubos_sql: failed to release advisory lock: "@ + failure_text(
                        ErrorView::Database(m),
                    ),
                ),
            ),
            (Some(e), _) => ended(s, Err(e), None),
        },
        PhaseView::Finished => ended(s, Ok(s.done), None),
    }
}

/// The session at its start, and what is to be done first.
pub open spec fn started(task: TaskView) -> (SessionView, ActionView) {
    (
        SessionView { task, phase: PhaseView::Checking, jobs: Seq::empty(), done: Seq::empty() },
        ActionView::CheckConfig,
    )
}

fn write_record(task: &Task, table: &str) -> (r: String)
    ensures
        r@ == record_text(task@, table@),
{
    match task {
        Task::Run => concat3("INSERT INTO ", table, " (name) VALUES ($1)"),
        Task::Revert { .. } => concat3("DELETE FROM ", table, " WHERE name = $1"),
    }
}

impl Session {
    fn begin(task: Task) -> (r: (Session, Action))
        ensures
            (r.0@, r.1@) == started(task@),
    {
        let s: Session = Session {
            task,
            phase: Phase::Checking,
            jobs: Vec::new(),
            done: Vec::new(),
        };
        proof {
            assert(job_views(s.jobs@) =~= Seq::empty());
            assert(name_views(s.done@) =~= Seq::empty());
        }
        (s, Action::CheckConfig)
    }

    fn give_up(&mut self, config: &MigrationsConfig, e: Error) -> (r: Action)
        ensures
            (final(self)@, r@) == given_up(old(self)@, config@, e@),
    {
        self.phase = Phase::Releasing(Some(e));
        Action::ReleaseLock(config.lock_id)
    }

    fn end(&mut self, outcome: Result<Vec<String>, Error>, warning: Option<String>) -> (r: Action)
        ensures
            (final(self)@, r@) == ended(
                old(self)@,
                match outcome {
                    Ok(v) => Ok(name_views(v@)),
                    Err(e) => Err(e@),
                },
                match warning {
                    Some(w) => Some(w@),
                    None => None,
                },
            ),
    {
        self.phase = Phase::Finished;
        Action::Finish { outcome, warning }
    }

    fn begin_job(&mut self, config: &MigrationsConfig, k: usize) -> (r: Action)
        ensures
            (final(self)@, r@) == job_begun(old(self)@, config@, k as int),
            phase_valid(final(self)@),
    {
        if k < self.jobs.len() {
            let name: String = self.jobs[k].name.as_str().to_owned();
            let sql: Option<String> = match &self.jobs[k].sql {
                Some(s) => Some(s.as_str().to_owned()),
                None => None,
            };
            proof {
                assert(job_views(self.jobs@)[k as int] == self.jobs@[k as int]@);
            }
            match sql {
                None => {
                    self.phase = Phase::Recording(k);
                    Action::Record { sql: write_record(&self.task, &config.table), name }
                },
                Some(sql) => {
                    if self.jobs[k].in_transaction {
                        self.phase = Phase::Beginning(k);
                        Action::Begin
                    } else {
                        self.phase = Phase::Executing(k);
                        Action::Execute(sql)
                    }
                },
            }
        } else {
            self.phase = Phase::Releasing(None);
            Action::ReleaseLock(config.lock_id)
        }
    }

    fn finish_job(&mut self, config: &MigrationsConfig, k: usize) -> (r: Action)
        requires
            k < old(self).jobs@.len(),
        ensures
            (final(self)@, r@) == job_done(old(self)@, config@, k as int),
            phase_valid(final(self)@),
    {
        let ghost before = name_views(self.done@);
        let count: usize = self.jobs.len();
        proof {
            assert(k < count);
        }
        let name: String = self.jobs[k].name.as_str().to_owned();
        self.done.push(name);
        proof {
            assert(name_views(self.done@) =~= before.push(name@));
            assert(job_views(self.jobs@)[k as int] == self.jobs@[k as int]@);
        }
        self.begin_job(config, k + 1)
    }

    /// What is to be done after an action.
    pub fn step(
        &mut self,
        source: &MigrationSource,
        config: &MigrationsConfig,
        event: Event,
    ) -> (r: Action)
        requires
            phase_valid(old(self)@),
        ensures
            (final(self)@, r@) == stepped(old(self)@, source@, config@, event@),
            phase_valid(final(self)@),
    {
        let mut phase: Phase = Phase::Finished;
        std::mem::swap(&mut phase, &mut self.phase);
        match phase {
            Phase::Checking => match event {
                Event::Failed(m) => self.end(Err(Error::Migration(m)), None),
                _ => {
                    self.phase = Phase::Ensuring;
                    Action::EnsureTable(
                        concat3(
                            "CREATE TABLE IF NOT EXISTS ",
                            &config.table,
                            " (\n            name       TEXT PRIMARY KEY,\n            applied_at TIMESTAMPTZ NOT NULL DEFAULT now()\n        );",
                        ),
                    )
                },
            },
            Phase::Ensuring => match event {
                Event::Failed(m) => self.end(Err(Error::Database(m)), None),
                _ => {
                    self.phase = Phase::Locking;
                    Action::AcquireLock(config.lock_id)
                },
            },
            Phase::Locking => match event {
                Event::Failed(m) => self.end(Err(Error::Database(m)), None),
                _ => {
                    self.phase = Phase::Listing;
                    Action::ListApplied(concat2("SELECT name FROM ", &config.table))
                },
            },
            Phase::Listing => {
                let names: Vec<String> = match event {
                    Event::Failed(m) => return self.give_up(config, Error::Database(m)),
                    Event::Names(names) => names,
                    Event::Done => {
                        let none: Vec<String> = Vec::new();
                        proof {
                            assert(name_views(none@) =~= Seq::empty());
                        }
                        none
                    },
                };
                match plan(source, &names, config, &self.task) {
                    Ok(jobs) => {
                        self.jobs = jobs;
                        self.begin_job(config, 0)
                    },
                    Err(e) => self.give_up(config, e),
                }
            },
            Phase::Beginning(k) => match event {
                Event::Failed(m) => self.give_up(config, Error::Database(m)),
                _ => {
                    proof {
                        assert(job_views(self.jobs@)[k as int] == self.jobs@[k as int]@);
                    }
                    let sql: String = match &self.jobs[k].sql {
                        Some(s) => s.as_str().to_owned(),
                        None => {
                            let none: String = String::new();
                            proof {
                                assert(none@ =~= Seq::empty());
                            }
                            none
                        },
                    };
                    self.phase = Phase::Executing(k);
                    Action::Execute(sql)
                },
            },
            Phase::Executing(k) => {
                proof {
                    assert(job_views(self.jobs@)[k as int] == self.jobs@[k as int]@);
                }
                let name: String = self.jobs[k].name.as_str().to_owned();
                match event {
                    Event::Failed(m) => {
                        let said: String = match &self.task {
                            Task::Run => concat4("failed to apply migration ", &name, ": ", &m),
                            Task::Revert { .. } => concat4(
                                "failed to revert migration ",
                                &name,
                                ": ",
                                &m,
                            ),
                        };
                        self.give_up(config, Error::Migration(said))
                    },
                    _ => {
                        self.phase = Phase::Recording(k);
                        Action::Record { sql: write_record(&self.task, &config.table), name }
                    },
                }
            },
            Phase::Recording(k) => match event {
                Event::Failed(m) => self.give_up(config, Error::Database(m)),
                _ => {
                    proof {
                        assert(job_views(self.jobs@)[k as int] == self.jobs@[k as int]@);
                    }
                    if self.jobs[k].in_transaction {
                        self.phase = Phase::Committing(k);
                        Action::Commit
                    } else {
                        self.finish_job(config, k)
                    }
                },
            },
            Phase::Committing(k) => match event {
                Event::Failed(m) => self.give_up(config, Error::Database(m)),
                _ => self.finish_job(config, k),
            },
            Phase::Releasing(first) => match first {
                None => match event {
                    Event::Failed(m) => self.end(Err(Error::Database(m)), None),
                    _ => {
                        let done: Vec<String> = copy_names(&self.done);
                        self.end(Ok(done), None)
                    },
                },
                Some(e) => match event {
                    Event::Failed(m) => {
                        let text: String = Error::Database(m).message();
                        self.end(
                            Err(e),
                            Some(
                                concat2("cubos_sql: failed to release advisory lock: ", &text),
                            ),
                        )
                    },
                    _ => self.end(Err(e), None),
                },
            },
            Phase::Finished => {
                let done: Vec<String> = copy_names(&self.done);
                self.end(Ok(done), None)
            },
        }
    }
}

fn copy_names(v: &Vec<String>) -> (r: Vec<String>)
    ensures
        name_views(r@) == name_views(v@),
{
    let mut r: Vec<String> = Vec::new();
    let mut i: usize = 0;
    while i < v.len()
        invariant
            i <= v@.len(),
            r@.len() == i,
            forall|k: int| 0 <= k < i ==> (#[trigger] r@[k])@ == v@[k]@,
        decreases v.len() - i,
    {
        r.push(v[i].as_str().to_owned());
        i = i + 1;
    }
    proof {
        assert(name_views(r@) =~= name_views(v@));
    }
    r
}

/// A session that applies every pending migration, and what is to be done first.
pub fn run() -> (r: (Session, Action))
    ensures
        (r.0@, r.1@) == started(TaskView::Run),
        phase_valid(r.0@),
{
    Session::begin(Task::Run)
}

/// A session that reverts one migration, and what is to be done first.
pub fn revert(name: &str, force: bool) -> (r: (Session, Action))
    ensures
        (r.0@, r.1@) == started(TaskView::Revert { name: name@, force }),
        phase_valid(r.0@),
{
    Session::begin(Task::Revert { name: name.to_owned(), force })
}

// ── Laws ────────────────────────────────────────────────────────────────────

/// The names of jobs.
pub open spec fn job_names(jobs: Seq<JobView>) -> Seq<Seq<char>> {
    jobs.map_values(|j: JobView| j.name)
}

/// No migration that is applied already is applied again, and one that is not is
/// among those that are applied.
pub proof fn law_pending_are_those_not_applied(
    list: Seq<MigrationView>,
    applied: Seq<Seq<char>>,
    config: ConfigView,
    n: int,
)
    requires
        0 <= n <= list.len(),
    ensures
        forall|k: int|
            0 <= k < pending(list, applied, config, n).len() ==> !applied.contains(
                (#[trigger] pending(list, applied, config, n)[k]).name,
            ),
        forall|i: int|
            0 <= i < n && !applied.contains((#[trigger] list[i]).name) ==> pending(
                list,
                applied,
                config,
                n,
            ).contains(job_of(list[i], config)),
    decreases n,
{
    if n > 0 {
        law_pending_are_those_not_applied(list, applied, config, n - 1);
        let before = pending(list, applied, config, n - 1);
        let all = pending(list, applied, config, n);
        assert forall|i: int| 0 <= i < n && !applied.contains(
            (#[trigger] list[i]).name,
        ) implies all.contains(job_of(list[i], config)) by {
            if i < n - 1 {
                assert(before.contains(job_of(list[i], config)));
                let k = choose|k: int| 0 <= k < before.len() && before[k] == job_of(list[i], config);
                assert(all[k] == before[k]);
            } else {
                assert(all[all.len() - 1] == job_of(list[i], config));
            }
        }
    }
}

/// Migrations are applied in the order of their versions: of two that are pending,
/// the one that comes first in the source comes first.
pub proof fn law_pending_keep_their_order(
    list: Seq<MigrationView>,
    applied: Seq<Seq<char>>,
    config: ConfigView,
    n: int,
    a: int,
    b: int,
) -> (r: (int, int))
    requires
        0 <= a < b < pending(list, applied, config, n).len(),
        0 <= n <= list.len(),
    ensures
        0 <= r.0 < r.1 < n,
        pending(list, applied, config, n)[a] == job_of(list[r.0], config),
        pending(list, applied, config, n)[b] == job_of(list[r.1], config),
    decreases n,
{
    let before = pending(list, applied, config, n - 1);
    if applied.contains(list[n - 1].name) {
        law_pending_keep_their_order(list, applied, config, n - 1, a, b)
    } else if b < before.len() {
        law_pending_keep_their_order(list, applied, config, n - 1, a, b)
    } else {
        (lemma_pending_place(list, applied, config, n - 1, a), n - 1)
    }
}

proof fn lemma_pending_place(
    list: Seq<MigrationView>,
    applied: Seq<Seq<char>>,
    config: ConfigView,
    n: int,
    a: int,
) -> (r: int)
    requires
        0 <= a < pending(list, applied, config, n).len(),
        0 <= n <= list.len(),
    ensures
        0 <= r < n,
        pending(list, applied, config, n)[a] == job_of(list[r], config),
    decreases n,
{
    let before = pending(list, applied, config, n - 1);
    if applied.contains(list[n - 1].name) {
        lemma_pending_place(list, applied, config, n - 1, a)
    } else if a < before.len() {
        lemma_pending_place(list, applied, config, n - 1, a)
    } else {
        n - 1
    }
}

/// Whether the lock is held in a phase, as far as the session knows.
pub open spec fn lock_held(phase: PhaseView) -> bool {
    match phase {
        PhaseView::Checking => false,
        PhaseView::Ensuring => false,
        PhaseView::Locking => false,
        PhaseView::Finished => false,
        _ => true,
    }
}

/// A session that holds the lock ends only by releasing it: what follows any answer
/// is another phase in which the lock is held, or the lock was being released. The
/// database is asked to release it when, and only when, the session comes to that
/// phase.
pub proof fn law_lock_is_released(
    s: SessionView,
    list: Seq<MigrationView>,
    config: ConfigView,
    event: EventView,
)
    requires
        lock_held(s.phase),
    ensures
        ({
            let (t, action) = stepped(s, list, config, event);
            &&& lock_held(t.phase) || s.phase is Releasing
            &&& s.phase is Releasing ==> t.phase is Finished && action is Finish
            &&& s.phase !is Releasing ==> (t.phase is Releasing <==> action
                == ActionView::ReleaseLock(config.lock_id))
        }),
{
}

/// An error is what the session ends with, whether or not the lock can be released.
pub proof fn law_first_error_is_reported(
    s: SessionView,
    list: Seq<MigrationView>,
    config: ConfigView,
    event: EventView,
    e: ErrorView,
)
    requires
        s.phase == PhaseView::Releasing(Some(e)),
    ensures
        stepped(s, list, config, event).1 matches ActionView::Finish { outcome, .. } && outcome
            == Err::<Seq<Seq<char>>, ErrorView>(e),
{
}

/// After a failure no further job is begun and no name is added to those that are
/// done.
pub proof fn law_failure_ends_the_work(
    s: SessionView,
    list: Seq<MigrationView>,
    config: ConfigView,
    said: Seq<char>,
)
    ensures
        ({
            let (t, action) = stepped(s, list, config, EventView::Failed(said));
            &&& t.done == s.done
            &&& t.phase is Releasing || t.phase is Finished
            &&& action is ReleaseLock || action is Finish
        }),
{
}

/// The session after `n` actions that all succeed.
pub open spec fn succeeded(
    s: SessionView,
    list: Seq<MigrationView>,
    config: ConfigView,
    n: nat,
) -> SessionView
    decreases n,
{
    if n == 0 {
        s
    } else {
        stepped(
            succeeded(s, list, config, (n - 1) as nat),
            list,
            config,
            EventView::Done,
        ).0
    }
}

proof fn lemma_succeeded_twice(
    s: SessionView,
    list: Seq<MigrationView>,
    config: ConfigView,
    a: nat,
    b: nat,
)
    ensures
        succeeded(succeeded(s, list, config, a), list, config, b) == succeeded(
            s,
            list,
            config,
            a + b,
        ),
    decreases b,
{
    if b > 0 {
        lemma_succeeded_twice(s, list, config, a, (b - 1) as nat);
    }
}

/// Where every action succeeds, a session that has come to job `k` does that job and
/// all behind it, in their order, and releases the lock: its list of what is done is
/// then longer by the names of these jobs.
pub proof fn law_all_jobs_are_done(
    s: SessionView,
    list: Seq<MigrationView>,
    config: ConfigView,
    k: int,
) -> (n: nat)
    requires
        0 <= k <= s.jobs.len(),
    ensures
        succeeded(job_begun(s, config, k).0, list, config, n) == (SessionView {
            phase: PhaseView::Releasing(None),
            done: s.done + job_names(s.jobs.skip(k)),
            ..s
        }),
    decreases s.jobs.len() - k,
{
    let first = job_begun(s, config, k).0;
    if k == s.jobs.len() {
        assert(s.done + job_names(s.jobs.skip(k)) =~= s.done);
        0
    } else {
        let job = s.jobs[k];
        let after = SessionView { done: s.done.push(job.name), ..s };
        reveal_with_fuel(succeeded, 5);
        let used: nat = match job.sql {
            None => if job.in_transaction {
                2
            } else {
                1
            },
            Some(_) => if job.in_transaction {
                4
            } else {
                2
            },
        };
        assert(succeeded(first, list, config, used) == job_begun(after, config, k + 1).0);
        let rest = law_all_jobs_are_done(after, list, config, k + 1);
        lemma_succeeded_twice(first, list, config, used, rest);
        assert(after.done + job_names(s.jobs.skip(k + 1)) =~= s.done + job_names(s.jobs.skip(k)));
        used + rest
    }
}

/// A migration that is not applied is not reverted: the database is asked for nothing
/// but to release the lock.
pub proof fn law_only_applied_are_reverted(
    s: SessionView,
    list: Seq<MigrationView>,
    config: ConfigView,
    names: Seq<Seq<char>>,
    name: Seq<char>,
    force: bool,
)
    requires
        s.phase is Listing,
        s.task == (TaskView::Revert { name, force }),
        !names.contains(name),
    ensures
        stepped(s, list, config, EventView::Names(names)).1 == ActionView::ReleaseLock(
            config.lock_id,
        ),
{
}

/// Where a migration has nothing that reverts it, the record goes only if that is
/// forced, and nothing is executed.
pub proof fn law_forced_revert_executes_nothing(
    list: Seq<MigrationView>,
    applied: Seq<Seq<char>>,
    config: ConfigView,
    name: Seq<char>,
    i: int,
)
    requires
        applied.contains(name),
        migration_position(list, name, 0) == Some(i),
        list[i].down_sql is None,
    ensures
        reversal(list, applied, config, name, false) is Err,
        reversal(list, applied, config, name, true) == Ok::<Seq<JobView>, ErrorView>(
            seq![JobView { name, sql: None, in_transaction: false }],
        ),
{
}

/// Where the settings are wrong, the session ends with that error and asks nothing of
/// the database.
pub proof fn law_wrong_settings_end_the_session(
    task: TaskView,
    list: Seq<MigrationView>,
    config: ConfigView,
    said: Seq<char>,
)
    ensures
        started(task).1 == ActionView::CheckConfig,
        stepped(started(task).0, list, config, EventView::Failed(said)).1 == (ActionView::Finish {
            outcome: Err(ErrorView::Migration(said)),
            warning: None,
        }),
{
}

/// The names of migrations.
pub open spec fn migration_names(list: Seq<MigrationView>) -> Seq<Seq<char>> {
    list.map_values(|m: MigrationView| m.name)
}

/// What a run applies are the names of the source that are not applied yet, in the
/// order of the source.
pub proof fn law_missing_names_are_pending(
    list: Seq<MigrationView>,
    applied: Seq<Seq<char>>,
    config: ConfigView,
    n: int,
)
    requires
        0 <= n <= list.len(),
    ensures
        job_names(pending(list, applied, config, n)) == migration_names(list.take(n)).filter(
            |name: Seq<char>| !applied.contains(name),
        ),
    decreases n,
{
    reveal(Seq::filter);
    let missing = |name: Seq<char>| !applied.contains(name);
    let names = migration_names(list.take(n));
    if n > 0 {
        law_missing_names_are_pending(list, applied, config, n - 1);
        assert(names.drop_last() =~= migration_names(list.take(n - 1)));
        assert(names.last() == list[n - 1].name);
        let before = pending(list, applied, config, n - 1);
        if !applied.contains(list[n - 1].name) {
            assert(job_names(before.push(job_of(list[n - 1], config))) =~= job_names(before).push(
                list[n - 1].name,
            ));
        }
    } else {
        assert(job_names(pending(list, applied, config, n)) =~= names.filter(missing));
    }
}

proof fn lemma_nothing_pending(
    list: Seq<MigrationView>,
    applied: Seq<Seq<char>>,
    config: ConfigView,
    n: int,
)
    requires
        0 <= n <= list.len(),
        forall|i: int| 0 <= i < n ==> applied.contains((#[trigger] list[i]).name),
    ensures
        pending(list, applied, config, n) == Seq::<JobView>::empty(),
    decreases n,
{
    if n > 0 {
        assert(applied.contains(list[n - 1].name));
        lemma_nothing_pending(list, applied, config, n - 1);
    }
}

/// A run whose actions all succeed applies what is missing; a second run, which finds
/// those names beside the earlier ones, has nothing to do: it executes nothing, releases
/// the lock and ends with an empty list.
pub proof fn law_second_run_does_nothing(
    list: Seq<MigrationView>,
    applied: Seq<Seq<char>>,
    config: ConfigView,
    first: SessionView,
    second: SessionView,
) -> (n: nat)
    requires
        first.phase is Listing,
        first.task is Run,
        first.done == Seq::<Seq<char>>::empty(),
        second.phase is Listing,
        second.task is Run,
        second.done == Seq::<Seq<char>>::empty(),
    ensures
        ({
            let begun = stepped(first, list, config, EventView::Names(applied)).0;
            let last = succeeded(begun, list, config, n);
            let known = applied + last.done;
            let (again, action) = stepped(second, list, config, EventView::Names(known));
            &&& last.phase == PhaseView::Releasing(None)
            &&& last.done == migration_names(list).filter(
                |name: Seq<char>| !applied.contains(name),
            )
            &&& action == ActionView::ReleaseLock(config.lock_id)
            &&& stepped(again, list, config, EventView::Done).1 == (ActionView::Finish {
                outcome: Ok(Seq::<Seq<char>>::empty()),
                warning: None,
            })
        }),
{
    let size = list.len() as int;
    let jobs = pending(list, applied, config, size);
    let s = SessionView { jobs, ..first };
    let n = law_all_jobs_are_done(s, list, config, 0);
    law_missing_names_are_pending(list, applied, config, size);
    assert(list.take(size) =~= list);
    assert(jobs.skip(0) =~= jobs);
    let done = first.done + job_names(jobs);
    assert(done =~= job_names(jobs));
    let known = applied + done;
    assert forall|i: int| 0 <= i < size implies known.contains((#[trigger] list[i]).name) by {
        let name = list[i].name;
        if applied.contains(name) {
            let k = choose|k: int| 0 <= k < applied.len() && applied[k] == name;
            assert(known[k] == name);
        } else {
            law_pending_are_those_not_applied(list, applied, config, size);
            let job = job_of(list[i], config);
            assert(jobs.contains(job));
            let k = choose|k: int| 0 <= k < jobs.len() && jobs[k] == job;
            assert(job_names(jobs)[k] == name);
            assert(known[applied.len() + k] == name);
        }
    }
    lemma_nothing_pending(list, known, config, size);
    n
}

} // verus!
