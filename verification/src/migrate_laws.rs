//! What a migration does to the database, step by step.

use crate::failure::ErrorView;
use crate::migrate::{
    applied_at, job_begun, migration_position, pending, planned, stepped, ActionView, AppliedRow,
    ConfigView, EventView, MigrationView, PhaseView, SessionView, TaskView,
};
use vstd::prelude::*;

verus! {

/// The pending migrations are just those that are not applied, each with its own statements,
/// and in a transaction where the settings say so and the migration does not forbid it.
pub proof fn law_pending_jobs_are_the_missing_migrations(
    list: Seq<MigrationView>,
    applied: Seq<Seq<char>>,
    config: ConfigView,
    k: int,
) -> (i: int)
    requires
        planned(list, applied, config, TaskView::Run) matches Ok(jobs) && 0 <= k < jobs.len(),
    ensures
        0 <= i < list.len(),
        !applied.contains(list[i].name),
        ({
            let job = planned(list, applied, config, TaskView::Run)->Ok_0[k];
            &&& job.name == list[i].name
            &&& job.sql == Some(list[i].sql)
            &&& job.in_transaction <==> config.use_transaction && !list[i].no_transaction
        }),
{
    lemma_job(list, applied, config, list.len() as int, k)
}

proof fn lemma_job(
    list: Seq<MigrationView>,
    applied: Seq<Seq<char>>,
    config: ConfigView,
    n: int,
    k: int,
) -> (i: int)
    requires
        0 <= n <= list.len(),
        0 <= k < pending(list, applied, config, n).len(),
    ensures
        0 <= i < n,
        !applied.contains(list[i].name),
        ({
            let job = pending(list, applied, config, n)[k];
            &&& job.name == list[i].name
            &&& job.sql == Some(list[i].sql)
            &&& job.in_transaction <==> config.use_transaction && !list[i].no_transaction
        }),
    decreases n,
{
    let before = pending(list, applied, config, n - 1);
    if n > 0 && !applied.contains(list[n - 1].name) && k == before.len() {
        n - 1
    } else {
        lemma_job(list, applied, config, n - 1, k)
    }
}

proof fn lemma_position(list: Seq<MigrationView>, name: Seq<char>, from: int, k: int)
    requires
        0 <= from <= k <= list.len(),
        forall|j: int| from <= j < k ==> (#[trigger] list[j]).name != name,
        k < list.len() ==> list[k].name == name,
    ensures
        migration_position(list, name, from) == if k < list.len() {
            Some(k)
        } else {
            None
        },
    decreases k - from,
{
    if from < k {
        assert(list[from].name != name);
        lemma_position(list, name, from + 1, k);
    }
}

/// Reverting a migration executes the statement that reverts it, in a transaction as when it
/// is applied. Without such a statement it is refused, or removes just the record where that
/// is forced. A migration that is not applied, or not known, is refused.
pub proof fn law_reversal_executes_the_down_statement(
    list: Seq<MigrationView>,
    applied: Seq<Seq<char>>,
    config: ConfigView,
    name: Seq<char>,
    force: bool,
    k: int,
)
    requires
        0 <= k <= list.len(),
        forall|j: int| 0 <= j < k ==> (#[trigger] list[j]).name != name,
        k < list.len() ==> list[k].name == name,
    ensures
        ({
            let plan = planned(list, applied, config, TaskView::Revert { name, force });
            &&& !applied.contains(name) || k == list.len() ==> plan is Err
            &&& applied.contains(name) && k < list.len() ==> match list[k].down_sql {
                Some(down) => plan matches Ok(jobs) && jobs.len() == 1 && jobs[0].name == name
                    && jobs[0].sql == Some(down) && (jobs[0].in_transaction
                    <==> config.use_transaction && !list[k].no_transaction),
                None => (plan is Ok <==> force) && (plan matches Ok(jobs) ==> jobs.len() == 1
                    && jobs[0].name == name && jobs[0].sql is None),
            }
        }),
{
    lemma_position(list, name, 0, k);
}

/// A job in a transaction begins it, executes its statements, changes the record and commits,
/// in this order; one outside executes its statements and changes the record. The record is
/// inserted when a migration is applied, and deleted when it is reverted. Then the next job
/// follows, or the lock is released.
pub proof fn law_job_goes_through_its_steps(
    s: SessionView,
    list: Seq<MigrationView>,
    config: ConfigView,
    k: int,
    sql: Seq<char>,
)
    requires
        0 <= k < s.jobs.len(),
        s.jobs[k].sql == Some(sql),
    ensures
        ({
            let record = ActionView::Record {
                sql: match s.task {
                    TaskView::Run => "INSERT INTO "@ + config.table + " (name) VALUES ($1)"@,
                    TaskView::Revert { .. } => "DELETE FROM "@ + config.table
                        + " WHERE name = $1"@,
                },
                name: s.jobs[k].name,
            };
            let begun = job_begun(s, config, k);
            &&& s.jobs[k].in_transaction ==> begun.1 == ActionView::Begin && stepped(
                begun.0,
                list,
                config,
                EventView::Done,
            ).1 == ActionView::Execute(sql)
            &&& !s.jobs[k].in_transaction ==> begun.1 == ActionView::Execute(sql)
            &&& stepped(
                SessionView { phase: PhaseView::Executing(k), ..s },
                list,
                config,
                EventView::Done,
            ).1 == record
            &&& s.jobs[k].in_transaction ==> stepped(
                SessionView { phase: PhaseView::Recording(k), ..s },
                list,
                config,
                EventView::Done,
            ).1 == ActionView::Commit
            &&& begun.0.jobs == s.jobs && begun.0.done == s.done
        }),
        ({
            let done = SessionView {
                phase: if s.jobs[k].in_transaction {
                    PhaseView::Committing(k)
                } else {
                    PhaseView::Recording(k)
                },
                ..s
            };
            let (after, action) = stepped(done, list, config, EventView::Done);
            &&& after.done == s.done.push(s.jobs[k].name)
            &&& after.jobs == s.jobs
            &&& k + 1 == s.jobs.len() ==> action == ActionView::ReleaseLock(config.lock_id)
            &&& k + 1 < s.jobs.len() && s.jobs[k + 1].sql is Some
                && !s.jobs[k + 1].in_transaction ==> action == ActionView::Execute(
                s.jobs[k + 1].sql->0,
            )
            &&& k + 1 < s.jobs.len() && s.jobs[k + 1].sql is Some && s.jobs[k + 1].in_transaction
                ==> action == ActionView::Begin
        }),
{
}

/// Whatever fails while the lock is held, the lock is released next, and the failure of the
/// statements of a migration names it.
pub proof fn law_failure_releases_the_lock(
    s: SessionView,
    list: Seq<MigrationView>,
    config: ConfigView,
    said: Seq<char>,
)
    requires
        s.phase is Listing || s.phase is Beginning || s.phase is Executing || s.phase is Recording
            || s.phase is Committing,
    ensures
        stepped(s, list, config, EventView::Failed(said)).1 == ActionView::ReleaseLock(
            config.lock_id,
        ),
        stepped(s, list, config, EventView::Failed(said)).0.phase matches PhaseView::Releasing(
            Some(e),
        ) && (s.phase matches PhaseView::Executing(k) ==> e == ErrorView::Migration(
            (match s.task {
                TaskView::Run => "failed to apply migration "@,
                TaskView::Revert { .. } => "failed to revert migration "@,
            }) + s.jobs[k].name + ": "@ + said,
        )) && (!(s.phase is Executing) ==> e == ErrorView::Database(said)),
{
}

/// A session checks the settings, makes the table of records, takes the lock and lists what
/// is applied, in this order, before any job.
pub proof fn law_session_begins_in_order(
    s: SessionView,
    list: Seq<MigrationView>,
    config: ConfigView,
)
    ensures
        s.phase is Checking ==> (stepped(s, list, config, EventView::Done).1 is EnsureTable
            && stepped(s, list, config, EventView::Done).0.phase is Ensuring),
        s.phase is Ensuring ==> (stepped(s, list, config, EventView::Done).1
            == ActionView::AcquireLock(config.lock_id) && stepped(
            s,
            list,
            config,
            EventView::Done,
        ).0.phase is Locking),
        s.phase is Locking ==> (stepped(s, list, config, EventView::Done).1
            == ActionView::ListApplied("SELECT name FROM "@ + config.table) && stepped(
            s,
            list,
            config,
            EventView::Done,
        ).0.phase is Listing),
{
}

/// A migration was applied when the last record of its name says.
pub proof fn law_last_record_says_when(rows: Seq<AppliedRow>, name: Seq<char>, n: int, k: int)
    requires
        0 <= n <= rows.len(),
    ensures
        0 <= k < n && rows[k].name@ == name && (forall|j: int|
            k < j < n ==> (#[trigger] rows[j]).name@ != name) ==> applied_at(rows, name, n) == Some(
            rows[k].applied_at,
        ),
        (forall|j: int| 0 <= j < n ==> (#[trigger] rows[j]).name@ != name) ==> applied_at(
            rows,
            name,
            n,
        ) is None,
    decreases n,
{
    if n > 0 {
        law_last_record_says_when(rows, name, n - 1, k);
        assert(rows[n - 1] == rows[n - 1]);
    }
}

} // verus!
