//! A model of the store, and what the transactions of this library do to it.
//!
//! The store holds four tables. Readers see what has been committed; a
//! transaction works on a copy of its own, which replaces what readers see when
//! it commits and is dropped when it rolls back or its commit fails. The model
//! is mathematics only: it states what the library expects of the store, and
//! the laws below hold of every store that behaves like it.

use crate::db::{delete_spec, insert_spec};
use crate::error::CrudError;
use crate::job::{BinView, CodeView, JobView, TaskView};
use crate::row::JobRowView;
use crate::tx::{ActionView, Outcome, Phase, StatementView, TxView};
use vstd::prelude::*;

verus! {

/// The rows of the four tables, each payload row with the identifier of its job.
pub struct Tables {
    pub jobs: Seq<JobRowView>,
    pub tasks: Seq<(u128, TaskView)>,
    pub codes: Seq<(u128, CodeView)>,
    pub bins: Seq<(u128, BinView)>,
}

/// The store: what readers see, and the working copy of the open transaction.
pub struct Store {
    pub visible: Tables,
    pub pending: Option<Tables>,
}

/// Holds of the rows of the job `job_id`.
pub open spec fn is_job(job_id: u128) -> spec_fn(JobRowView) -> bool {
    |row: JobRowView| row.job_id == job_id
}

/// Holds of the payload rows of the job `job_id`.
pub open spec fn belongs_to<A>(job_id: u128) -> spec_fn((u128, A)) -> bool {
    |row: (u128, A)| row.0 == job_id
}

/// Holds of the rows of all jobs but those that `user_id` calls `job_name`.
pub open spec fn not_named(user_id: u128, job_name: Seq<char>) -> spec_fn(JobRowView) -> bool {
    |row: JobRowView| !(row.user_id == user_id && row.job_name == job_name)
}

/// Holds of the payload rows of all jobs but those that, in `tables`,
/// `user_id` calls `job_name`.
pub open spec fn outlives<A>(tables: Tables, user_id: u128, job_name: Seq<char>) -> spec_fn(
    (u128, A),
) -> bool {
    |row: (u128, A)| !tables.names_job(user_id, job_name, row.0)
}

impl Tables {
    /// Whether a job of this owner goes by this name.
    pub open spec fn has_job_named(self, user_id: u128, job_name: Seq<char>) -> bool {
        exists|i: int|
            0 <= i < self.jobs.len() && (#[trigger] self.jobs[i]).user_id == user_id
                && self.jobs[i].job_name == job_name
    }

    /// Whether `job_id` is the identifier of a job of this owner that goes by
    /// this name.
    pub open spec fn names_job(self, user_id: u128, job_name: Seq<char>, job_id: u128) -> bool {
        exists|i: int|
            0 <= i < self.jobs.len() && (#[trigger] self.jobs[i]).user_id == user_id
                && self.jobs[i].job_name == job_name && self.jobs[i].job_id == job_id
    }

    /// How many rows of the table of jobs carry this identifier.
    pub open spec fn count_jobs(self, job_id: u128) -> nat {
        self.jobs.filter(is_job(job_id)).len()
    }

    /// How many payload rows, over the three tables, belong to this job.
    pub open spec fn count_payloads(self, job_id: u128) -> nat {
        self.tasks.filter(belongs_to(job_id)).len() + self.codes.filter(belongs_to(job_id)).len()
            + self.bins.filter(belongs_to(job_id)).len()
    }

    /// The tables without the jobs of this owner that go by this name, and
    /// without the payload rows of those jobs.
    pub open spec fn delete(self, user_id: u128, job_name: Seq<char>) -> Tables {
        Tables {
            jobs: self.jobs.filter(not_named(user_id, job_name)),
            tasks: self.tasks.filter(outlives(self, user_id, job_name)),
            codes: self.codes.filter(outlives(self, user_id, job_name)),
            bins: self.bins.filter(outlives(self, user_id, job_name)),
        }
    }

    /// The tables after one statement.
    pub open spec fn execute(self, statement: StatementView) -> Tables {
        match statement {
            StatementView::InsertJob(row) => Tables { jobs: self.jobs.push(row), ..self },
            StatementView::InsertTask { job_id, task } => Tables {
                tasks: self.tasks.push((job_id, task)),
                ..self
            },
            StatementView::InsertCode { job_id, code } => Tables {
                codes: self.codes.push((job_id, code)),
                ..self
            },
            StatementView::InsertBin { job_id, bin } => Tables {
                bins: self.bins.push((job_id, bin)),
                ..self
            },
            StatementView::DeleteJob { user_id, job_name } => self.delete(user_id, job_name),
        }
    }

    /// The tables after the statements, one after the other.
    pub open spec fn execute_all(self, statements: Seq<StatementView>) -> Tables
        decreases statements.len(),
    {
        if statements.len() == 0 {
            self
        } else {
            self.execute_all(statements.drop_last()).execute(statements.last())
        }
    }
}

impl Store {
    /// The store after an action with the given outcome. A statement that fails
    /// changes nothing; a commit that fails drops the working copy, as a
    /// rollback does.
    pub open spec fn step(self, action: ActionView, outcome: Outcome) -> Store {
        match action {
            ActionView::Begin => if outcome == Outcome::Succeeded {
                Store { pending: Some(self.visible), ..self }
            } else {
                self
            },
            ActionView::Execute(statement) => match self.pending {
                Some(tables) => if outcome == Outcome::Succeeded {
                    Store { pending: Some(tables.execute(statement)), ..self }
                } else {
                    self
                },
                None => self,
            },
            ActionView::Commit => match self.pending {
                Some(tables) => if outcome == Outcome::Succeeded {
                    Store { visible: tables, pending: None }
                } else {
                    Store { pending: None, ..self }
                },
                None => self,
            },
            ActionView::Rollback => Store { pending: None, ..self },
            ActionView::Finish(_) => self,
        }
    }
}

/// The transaction and the store after the actions that the transaction asks
/// for have met the outcomes, one after the other.
pub open spec fn run(tx: TxView, store: Store, outcomes: Seq<Outcome>) -> (TxView, Store)
    decreases outcomes.len(),
{
    if outcomes.len() == 0 {
        (tx, store)
    } else {
        run(tx.advance(outcomes[0]), store.step(tx.action(), outcomes[0]), outcomes.drop_first())
    }
}

/// How the store stands to a transaction that started on the tables `start`:
/// readers see `start` until the commit, and all statements at once after it;
/// the working copy holds `start` with the statements executed so far.
pub open spec fn in_step(tx: TxView, store: Store, start: Tables) -> bool {
    &&& tx.wf()
    &&& match tx.phase {
        Phase::Init => store.visible == start && store.pending is None,
        Phase::Running(next) => store.visible == start && store.pending == Some(
            start.execute_all(tx.statements.take(next as int)),
        ),
        Phase::Committing => store.visible == start && store.pending == Some(
            start.execute_all(tx.statements),
        ),
        Phase::RollingBack => store.visible == start,
        Phase::Done => store.visible == start.execute_all(tx.statements) && store.pending is None,
        Phase::Failed(_) => store.visible == start && store.pending is None,
    }
}

/// One action keeps the store in step with the transaction.
proof fn lemma_step_in_step(tx: TxView, store: Store, start: Tables, outcome: Outcome)
    requires
        in_step(tx, store, start),
    ensures
        in_step(tx.advance(outcome), store.step(tx.action(), outcome), start),
        tx.advance(outcome).statements == tx.statements,
        tx.advance(outcome).failure == tx.failure,
{
    match tx.phase {
        Phase::Init => {
            assert(tx.statements.take(0).len() == 0);
            assert(start.execute_all(tx.statements.take(0)) == start);
            if tx.statements.len() == 0 {
                assert(start.execute_all(tx.statements) == start);
            }
        },
        Phase::Running(next) => {
            let longer = tx.statements.take(next + 1);
            assert(longer.drop_last() =~= tx.statements.take(next as int));
            assert(longer.last() == tx.statements[next as int]);
            assert(start.execute_all(longer) == start.execute_all(
                tx.statements.take(next as int),
            ).execute(tx.statements[next as int]));
            if next + 1 == tx.statements.len() {
                assert(longer =~= tx.statements);
            }
        },
        _ => {},
    }
}

/// Atomicity. Whatever the store reports, a transaction that starts on a store
/// without an open transaction shows readers either nothing of its statements
/// or, once it is done, all of them; and when it has ended, no working copy is
/// left behind.
pub proof fn lemma_run_atomic(tx: TxView, store: Store, outcomes: Seq<Outcome>)
    requires
        tx.phase == Phase::Init,
        tx.statements.len() <= usize::MAX,
        store.pending is None,
    ensures
        ({
            let (end, after) = run(tx, store, outcomes);
            &&& end.statements == tx.statements
            &&& end.failure == tx.failure
            &&& end.phase is Done ==> after.visible == store.visible.execute_all(tx.statements)
            &&& !(end.phase is Done) ==> after.visible == store.visible
            &&& end.finished() ==> after.pending is None
        }),
{
    lemma_run_in_step(tx, store, store.visible, outcomes);
}

/// A run keeps the store in step with the transaction.
proof fn lemma_run_in_step(tx: TxView, store: Store, start: Tables, outcomes: Seq<Outcome>)
    requires
        in_step(tx, store, start),
    ensures
        in_step(run(tx, store, outcomes).0, run(tx, store, outcomes).1, start),
        run(tx, store, outcomes).0.statements == tx.statements,
        run(tx, store, outcomes).0.failure == tx.failure,
    decreases outcomes.len(),
{
    if outcomes.len() > 0 {
        lemma_step_in_step(tx, store, start, outcomes[0]);
        lemma_run_in_step(
            tx.advance(outcomes[0]),
            store.step(tx.action(), outcomes[0]),
            start,
            outcomes.drop_first(),
        );
    }
}

/// The position of the first outcome that is a failure; the number of outcomes
/// where none is.
pub open spec fn first_failure(outcomes: Seq<Outcome>) -> int
    decreases outcomes.len(),
{
    if outcomes.len() == 0 {
        0
    } else if outcomes[0] == Outcome::Failed {
        0
    } else {
        1 + first_failure(outcomes.drop_first())
    }
}

/// How many actions of a transaction that is on its way to the commit have
/// succeeded.
pub open spec fn progress(tx: TxView) -> int {
    match tx.phase {
        Phase::Init => 0,
        Phase::Running(next) => next + 1,
        Phase::Committing => tx.statements.len() as int + 1,
        _ => 0,
    }
}

/// The phase in which a transaction of `count` statements stands when, after
/// `done` actions that succeeded, it meets `outcomes`; `failure` is the error
/// that stands for a failed statement. It is done once the begin, every
/// statement and the commit have succeeded. It fails as a transaction where the
/// begin, the commit or a rollback fails, and with `failure` where a statement
/// fails and the rollback succeeds.
pub open spec fn phase_after(count: int, failure: CrudError, done: int, outcomes: Seq<Outcome>)
    -> Phase {
    let failed_at = first_failure(outcomes);
    let reached = done + failed_at;
    if reached >= count + 2 {
        Phase::Done
    } else if failed_at == outcomes.len() {
        if reached == 0 {
            Phase::Init
        } else if reached <= count {
            Phase::Running((reached - 1) as usize)
        } else {
            Phase::Committing
        }
    } else if reached == 0 || reached == count + 1 {
        Phase::Failed(CrudError::Transaction)
    } else if failed_at + 1 == outcomes.len() {
        Phase::RollingBack
    } else if outcomes[failed_at + 1] == Outcome::Failed {
        Phase::Failed(CrudError::Transaction)
    } else {
        Phase::Failed(failure)
    }
}

/// The first failure lies within the outcomes, and none lies before it.
pub proof fn lemma_first_failure(outcomes: Seq<Outcome>)
    ensures
        0 <= first_failure(outcomes) <= outcomes.len(),
        first_failure(outcomes) < outcomes.len() ==> outcomes[first_failure(outcomes)]
            == Outcome::Failed,
        forall|i: int|
            0 <= i < first_failure(outcomes) ==> #[trigger] outcomes[i] == Outcome::Succeeded,
    decreases outcomes.len(),
{
    if outcomes.len() > 0 && outcomes[0] != Outcome::Failed {
        let rest = outcomes.drop_first();
        lemma_first_failure(rest);
        assert forall|i: int| 0 <= i < first_failure(outcomes) implies #[trigger] outcomes[i]
            == Outcome::Succeeded by {
            if i > 0 {
                assert(outcomes[i] == rest[i - 1]);
            }
        }
    }
}

/// A transaction that has ended stays as it is.
pub proof fn lemma_run_finished(tx: TxView, store: Store, outcomes: Seq<Outcome>)
    requires
        tx.finished(),
    ensures
        run(tx, store, outcomes) == (tx, store),
    decreases outcomes.len(),
{
    if outcomes.len() > 0 {
        lemma_run_finished(tx, store, outcomes.drop_first());
    }
}

/// A transaction on its way to the commit stands, after any outcomes, in the
/// phase that `phase_after` gives.
proof fn lemma_run_phase_from(tx: TxView, store: Store, outcomes: Seq<Outcome>)
    requires
        tx.wf(),
        tx.phase is Init || tx.phase is Running || tx.phase is Committing,
    ensures
        run(tx, store, outcomes).0.phase == phase_after(
            tx.statements.len() as int,
            tx.failure,
            progress(tx),
            outcomes,
        ),
    decreases outcomes.len(),
{
    let count = tx.statements.len() as int;
    lemma_first_failure(outcomes);
    if outcomes.len() > 0 {
        let rest = outcomes.drop_first();
        let next_tx = tx.advance(outcomes[0]);
        let next_store = store.step(tx.action(), outcomes[0]);
        lemma_first_failure(rest);
        if outcomes[0] == Outcome::Succeeded {
            if tx.phase is Committing {
                lemma_run_finished(next_tx, next_store, rest);
            } else {
                lemma_run_phase_from(next_tx, next_store, rest);
            }
        } else if tx.phase is Running {
            assert(next_tx.phase == Phase::RollingBack);
            if rest.len() > 0 {
                assert(outcomes[1] == rest[0]);
                lemma_run_finished(
                    next_tx.advance(rest[0]),
                    next_store.step(next_tx.action(), rest[0]),
                    rest.drop_first(),
                );
            }
        } else {
            lemma_run_finished(next_tx, next_store, rest);
        }
    }
}

/// What becomes of a transaction: from its beginning it stands, after any
/// outcomes, in the phase that `phase_after` gives.
pub proof fn lemma_run_phase(tx: TxView, store: Store, outcomes: Seq<Outcome>)
    requires
        tx.phase == Phase::Init,
        tx.statements.len() <= usize::MAX,
    ensures
        run(tx, store, outcomes).0.phase == phase_after(
            tx.statements.len() as int,
            tx.failure,
            0,
            outcomes,
        ),
{
    lemma_run_phase_from(tx, store, outcomes);
}

/// A transaction is done exactly when the begin, each of its statements and
/// the commit have succeeded.
pub proof fn lemma_done_iff_all_succeeded(tx: TxView, store: Store, outcomes: Seq<Outcome>)
    requires
        tx.phase == Phase::Init,
        tx.statements.len() <= usize::MAX,
    ensures
        run(tx, store, outcomes).0.phase is Done <==> {
            &&& outcomes.len() >= tx.statements.len() + 2
            &&& forall|i: int|
                0 <= i < tx.statements.len() + 2 ==> #[trigger] outcomes[i] == Outcome::Succeeded
        },
{
    lemma_run_phase(tx, store, outcomes);
    lemma_first_failure(outcomes);
    let failed_at = first_failure(outcomes);
    if failed_at < tx.statements.len() + 2 && failed_at < outcomes.len() {
        assert(outcomes[failed_at] == Outcome::Failed);
    }
}

/// Filtering after a push: the new item stays where the predicate holds of it.
proof fn lemma_filter_push<A>(s: Seq<A>, item: A, pred: spec_fn(A) -> bool)
    ensures
        s.push(item).filter(pred) == if pred(item) {
            s.filter(pred).push(item)
        } else {
            s.filter(pred)
        },
{
    reveal(Seq::filter);
    assert(s.push(item).drop_last() =~= s);
}

/// Filtering keeps a sequence as it is where the predicate holds of every item.
proof fn lemma_filter_all<A>(s: Seq<A>, pred: spec_fn(A) -> bool)
    requires
        forall|i: int| 0 <= i < s.len() ==> pred(#[trigger] s[i]),
    ensures
        s.filter(pred) == s,
    decreases s.len(),
{
    reveal(Seq::filter);
    if s.len() > 0 {
        lemma_filter_all(s.drop_last(), pred);
        assert(s.drop_last().push(s.last()) =~= s);
    }
}

/// The insertion of a job is all or nothing. Let its identifier be fresh: no
/// row of the store carries it. Then, whatever the store reports, readers see
/// exactly one row of the job and exactly one row of its payload once the
/// transaction is done, and until then, or if it fails, what they saw before:
/// no job without its payload, and no payload without its job.
pub proof fn lemma_insert_all_or_nothing(
    job: JobView,
    user_id: u128,
    job_id: u128,
    now: int,
    store: Store,
    outcomes: Seq<Outcome>,
)
    requires
        insert_spec(job, user_id, job_id, now) is Ok,
        store.pending is None,
        store.visible.count_jobs(job_id) == 0,
        store.visible.count_payloads(job_id) == 0,
    ensures
        ({
            let tx = insert_spec(job, user_id, job_id, now).unwrap();
            let (end, after) = run(tx, store, outcomes);
            &&& end.phase is Done ==> after.visible.count_jobs(job_id) == 1
                && after.visible.count_payloads(job_id) == 1
            &&& !(end.phase is Done) ==> after.visible == store.visible
            &&& end.result() == Some(Ok::<(), CrudError>(())) <==> end.phase is Done
        }),
{
    let tx = insert_spec(job, user_id, job_id, now).unwrap();
    lemma_run_atomic(tx, store, outcomes);
    let first = tx.statements[0];
    let second = tx.statements[1];
    let start = store.visible;
    assert(tx.statements.drop_last() =~= seq![first]);
    assert(seq![first].drop_last() =~= Seq::<StatementView>::empty());
    assert(start.execute_all(seq![first].drop_last()) == start);
    assert(start.execute_all(seq![first]) == start.execute(first));
    assert(start.execute_all(tx.statements) == start.execute(first).execute(second));
    let row = first->InsertJob_0;
    lemma_filter_push(start.jobs, row, is_job(job_id));
    match second {
        StatementView::InsertTask { job_id: id, task } => {
            lemma_filter_push(start.tasks, (id, task), belongs_to(job_id));
        },
        StatementView::InsertCode { job_id: id, code } => {
            lemma_filter_push(start.codes, (id, code), belongs_to(job_id));
        },
        StatementView::InsertBin { job_id: id, bin } => {
            lemma_filter_push(start.bins, (id, bin), belongs_to(job_id));
        },
        _ => {},
    }
}

/// No orphan. Where the row of the job is inserted and the row of its payload
/// then fails, the transaction rolls back and ends in an error, an insertion
/// error if the rollback succeeds, and readers see what they saw before: no row
/// of the job.
pub proof fn lemma_payload_failure_leaves_no_orphan(
    job: JobView,
    user_id: u128,
    job_id: u128,
    now: int,
    store: Store,
    outcomes: Seq<Outcome>,
)
    requires
        insert_spec(job, user_id, job_id, now) is Ok,
        store.pending is None,
        outcomes.len() >= 4,
        outcomes[0] == Outcome::Succeeded,
        outcomes[1] == Outcome::Succeeded,
        outcomes[2] == Outcome::Failed,
    ensures
        ({
            let tx = insert_spec(job, user_id, job_id, now).unwrap();
            let (end, after) = run(tx, store, outcomes);
            &&& end.phase == if outcomes[3] == Outcome::Succeeded {
                Phase::Failed(CrudError::Insertion)
            } else {
                Phase::Failed(CrudError::Transaction)
            }
            &&& after.visible == store.visible
            &&& after.pending is None
        }),
{
    let tx = insert_spec(job, user_id, job_id, now).unwrap();
    lemma_run_atomic(tx, store, outcomes);
    lemma_run_phase(tx, store, outcomes);
    lemma_first_failure(outcomes);
    let failed_at = first_failure(outcomes);
    if failed_at < 2 {
        assert(outcomes[failed_at] == Outcome::Failed);
    }
    if failed_at > 2 {
        assert(outcomes[2] == Outcome::Succeeded);
    }
}

/// Deleting removes every job of the owner that goes by the name, and each
/// payload row of such a job.
pub proof fn lemma_delete_removes(tables: Tables, user_id: u128, job_name: Seq<char>)
    ensures
        !tables.delete(user_id, job_name).has_job_named(user_id, job_name),
        forall|job_id: u128| #[trigger]
            tables.names_job(user_id, job_name, job_id) ==> tables.delete(
                user_id,
                job_name,
            ).count_payloads(job_id) == 0,
{
    let after = tables.delete(user_id, job_name);
    tables.jobs.filter_lemma(not_named(user_id, job_name));
    assert forall|job_id: u128| #[trigger]
        tables.names_job(user_id, job_name, job_id) implies after.count_payloads(job_id) == 0 by {
        if after.tasks.filter(belongs_to(job_id)).len() > 0 {
            lemma_filter_member(after.tasks, belongs_to(job_id), 0);
            let found = after.tasks.filter(belongs_to(job_id))[0];
            lemma_filter_member_of(tables.tasks, outlives(tables, user_id, job_name), found);
        }
        if after.codes.filter(belongs_to(job_id)).len() > 0 {
            lemma_filter_member(after.codes, belongs_to(job_id), 0);
            let found = after.codes.filter(belongs_to(job_id))[0];
            lemma_filter_member_of(tables.codes, outlives(tables, user_id, job_name), found);
        }
        if after.bins.filter(belongs_to(job_id)).len() > 0 {
            lemma_filter_member(after.bins, belongs_to(job_id), 0);
            let found = after.bins.filter(belongs_to(job_id))[0];
            lemma_filter_member_of(tables.bins, outlives(tables, user_id, job_name), found);
        }
    }
}

/// What filtering keeps stood in the sequence.
proof fn lemma_filter_member<A>(s: Seq<A>, pred: spec_fn(A) -> bool, i: int)
    requires
        0 <= i < s.filter(pred).len(),
    ensures
        s.contains(s.filter(pred)[i]),
        pred(s.filter(pred)[i]),
    decreases s.len(),
{
    reveal(Seq::filter);
    if s.len() > 0 {
        let rest = s.drop_last();
        if pred(s.last()) && i == rest.filter(pred).len() {
            assert(s[s.len() - 1] == s.last());
        } else {
            lemma_filter_member(rest, pred, i);
            let k = choose|k: int| 0 <= k < rest.len() && rest[k] == rest.filter(pred)[i];
            assert(s[k] == rest[k]);
        }
    }
}

/// What stands in the filtered sequence meets the predicate.
proof fn lemma_filter_member_of<A>(s: Seq<A>, pred: spec_fn(A) -> bool, item: A)
    requires
        s.filter(pred).contains(item),
    ensures
        pred(item),
        s.contains(item),
{
    let i = choose|i: int| 0 <= i < s.filter(pred).len() && s.filter(pred)[i] == item;
    lemma_filter_member(s, pred, i);
}

/// Deleting a job that is not there changes nothing.
pub proof fn lemma_delete_absent(tables: Tables, user_id: u128, job_name: Seq<char>)
    requires
        !tables.has_job_named(user_id, job_name),
    ensures
        tables.delete(user_id, job_name) == tables,
{
    lemma_filter_all(tables.jobs, not_named(user_id, job_name));
    lemma_filter_all(tables.tasks, outlives(tables, user_id, job_name));
    lemma_filter_all(tables.codes, outlives(tables, user_id, job_name));
    lemma_filter_all(tables.bins, outlives(tables, user_id, job_name));
}

/// Deleting twice is deleting once.
pub proof fn lemma_delete_idempotent(tables: Tables, user_id: u128, job_name: Seq<char>)
    ensures
        tables.delete(user_id, job_name).delete(user_id, job_name) == tables.delete(
            user_id,
            job_name,
        ),
{
    lemma_delete_removes(tables, user_id, job_name);
    lemma_delete_absent(tables.delete(user_id, job_name), user_id, job_name);
}

/// The deletion of a job is all or nothing, and it succeeds whether or not the
/// job is there: once the transaction is done, readers see the tables without
/// the job and its payload; until then, or if it fails, what they saw before.
pub proof fn lemma_delete_all_or_nothing(
    user_id: u128,
    job_name: Seq<char>,
    store: Store,
    outcomes: Seq<Outcome>,
)
    requires
        store.pending is None,
    ensures
        ({
            let (end, after) = run(delete_spec(user_id, job_name), store, outcomes);
            &&& end.phase is Done ==> after.visible == store.visible.delete(user_id, job_name)
            &&& !(end.phase is Done) ==> after.visible == store.visible
            &&& end.phase is Done <==> outcomes.len() >= 3 && outcomes[0] == Outcome::Succeeded
                && outcomes[1] == Outcome::Succeeded && outcomes[2] == Outcome::Succeeded
        }),
{
    let tx = delete_spec(user_id, job_name);
    lemma_run_atomic(tx, store, outcomes);
    lemma_done_iff_all_succeeded(tx, store, outcomes);
    let start = store.visible;
    assert(tx.statements.drop_last() =~= Seq::<StatementView>::empty());
    assert(start.execute_all(tx.statements.drop_last()) == start);
    assert(start.execute_all(tx.statements) == start.execute(tx.statements[0]));
}

/// Whether two rows are jobs of one owner under one name.
pub open spec fn same_name(a: JobRowView, b: JobRowView) -> bool {
    a.user_id == b.user_id && a.job_name == b.job_name
}

/// Whether no owner has two jobs of one name among `jobs`.
pub open spec fn unique_names(jobs: Seq<JobRowView>) -> bool {
    forall|i: int, j: int| 0 <= i < j < jobs.len() ==> !same_name(jobs[i], jobs[j])
}

impl Store {
    /// Whether the store may report `outcome` of `action`. The one rule: the
    /// store takes the row of a job only where its owner has no job of that
    /// name yet; it fails the statement otherwise.
    pub open spec fn admits(self, action: ActionView, outcome: Outcome) -> bool {
        match (action, self.pending) {
            (ActionView::Execute(StatementView::InsertJob(row)), Some(tables)) => outcome
                == Outcome::Succeeded ==> !tables.has_job_named(row.user_id, row.job_name),
            _ => true,
        }
    }

    /// Whether no owner has two jobs of one name, neither in what readers see
    /// nor in the working copy.
    pub open spec fn unique_names(self) -> bool {
        &&& unique_names(self.visible.jobs)
        &&& self.pending matches Some(tables) ==> unique_names(tables.jobs)
    }
}

/// Whether the store may report the outcomes, one after the other, of the
/// actions that the transaction asks for.
pub open spec fn admitted(tx: TxView, store: Store, outcomes: Seq<Outcome>) -> bool
    decreases outcomes.len(),
{
    outcomes.len() == 0 || (store.admits(tx.action(), outcomes[0]) && admitted(
        tx.advance(outcomes[0]),
        store.step(tx.action(), outcomes[0]),
        outcomes.drop_first(),
    ))
}

/// Filtering keeps names unique.
proof fn lemma_filter_unique_names(jobs: Seq<JobRowView>, pred: spec_fn(JobRowView) -> bool)
    requires
        unique_names(jobs),
    ensures
        unique_names(jobs.filter(pred)),
    decreases jobs.len(),
{
    reveal(Seq::filter);
    if jobs.len() > 0 {
        let rest = jobs.drop_last();
        let kept = rest.filter(pred);
        assert(unique_names(rest)) by {
            assert forall|i: int, j: int| 0 <= i < j < rest.len() implies !same_name(
                rest[i],
                rest[j],
            ) by {
                assert(rest[i] == jobs[i] && rest[j] == jobs[j]);
            }
        }
        lemma_filter_unique_names(rest, pred);
        if pred(jobs.last()) {
            let all = kept.push(jobs.last());
            assert forall|i: int, j: int| 0 <= i < j < all.len() implies !same_name(
                all[i],
                all[j],
            ) by {
                if j == kept.len() {
                    lemma_filter_member(rest, pred, i);
                    let k = choose|k: int| 0 <= k < rest.len() && rest[k] == kept[i];
                    assert(jobs[k] == kept[i]);
                    assert(!same_name(jobs[k], jobs[jobs.len() - 1]));
                } else {
                    assert(all[i] == kept[i] && all[j] == kept[j]);
                }
            }
        }
    }
}

/// One admitted action keeps names unique.
proof fn lemma_step_unique_names(tx: TxView, store: Store, outcome: Outcome)
    requires
        tx.wf(),
        store.unique_names(),
        store.admits(tx.action(), outcome),
    ensures
        store.step(tx.action(), outcome).unique_names(),
{
    if let (ActionView::Execute(statement), Some(tables)) = (tx.action(), store.pending) {
        if outcome == Outcome::Succeeded {
            match statement {
                StatementView::InsertJob(row) => {
                    let jobs = tables.jobs.push(row);
                    assert forall|i: int, j: int| 0 <= i < j < jobs.len() implies !same_name(
                        jobs[i],
                        jobs[j],
                    ) by {
                        if j == tables.jobs.len() {
                            assert(jobs[i] == tables.jobs[i]);
                        } else {
                            assert(jobs[i] == tables.jobs[i] && jobs[j] == tables.jobs[j]);
                        }
                    }
                },
                StatementView::DeleteJob { user_id, job_name } => {
                    lemma_filter_unique_names(tables.jobs, not_named(user_id, job_name));
                },
                _ => {},
            }
        }
    }
}

/// Uniqueness of names. Let no owner have two jobs of one name, and let the
/// store take the row of a job only where its owner has none of that name yet.
/// Then, whatever the transaction, no owner has two jobs of one name after it.
pub proof fn lemma_names_stay_unique(tx: TxView, store: Store, outcomes: Seq<Outcome>)
    requires
        tx.wf(),
        store.unique_names(),
        admitted(tx, store, outcomes),
    ensures
        run(tx, store, outcomes).1.unique_names(),
    decreases outcomes.len(),
{
    if outcomes.len() > 0 {
        lemma_step_unique_names(tx, store, outcomes[0]);
        let next = tx.advance(outcomes[0]);
        assert(next.wf()) by {
            if tx.phase is Running {
                assert(next.statements == tx.statements);
            }
        }
        lemma_names_stay_unique(
            next,
            store.step(tx.action(), outcomes[0]),
            outcomes.drop_first(),
        );
    }
}

/// A second job under a name that its owner has in use is not stored: the
/// store fails the row, the transaction rolls back, and it ends in an
/// insertion error, or in a transaction error where the rollback fails.
pub proof fn lemma_duplicate_name_is_refused(
    job: JobView,
    user_id: u128,
    job_id: u128,
    now: int,
    store: Store,
    outcomes: Seq<Outcome>,
)
    requires
        insert_spec(job, user_id, job_id, now) is Ok,
        store.pending is None,
        store.visible.has_job_named(user_id, job.name),
        admitted(insert_spec(job, user_id, job_id, now).unwrap(), store, outcomes),
    ensures
        ({
            let (end, after) = run(
                insert_spec(job, user_id, job_id, now).unwrap(),
                store,
                outcomes,
            );
            &&& !(end.phase is Done)
            &&& after.visible == store.visible
            &&& outcomes.len() >= 3 && outcomes[0] == Outcome::Succeeded ==> end.phase
                == if outcomes[2] == Outcome::Succeeded {
                Phase::Failed(CrudError::Insertion)
            } else {
                Phase::Failed(CrudError::Transaction)
            }
        }),
{
    let tx = insert_spec(job, user_id, job_id, now).unwrap();
    lemma_run_atomic(tx, store, outcomes);
    lemma_run_phase(tx, store, outcomes);
    lemma_first_failure(outcomes);
    lemma_done_iff_all_succeeded(tx, store, outcomes);
    if outcomes.len() >= 2 && outcomes[0] == Outcome::Succeeded {
        let second = tx.advance(outcomes[0]);
        let begun = store.step(tx.action(), outcomes[0]);
        let rest = outcomes.drop_first();
        assert(admitted(second, begun, rest));
        assert(begun.pending == Some(store.visible));
        assert(begun.admits(second.action(), rest[0]));
        assert(outcomes[1] == rest[0]);
        assert(outcomes[1] == Outcome::Failed);
        let failed_at = first_failure(outcomes);
        if failed_at > 1 {
            assert(outcomes[1] == Outcome::Succeeded);
        }
        assert(failed_at == 1);
    }
}

} // verus!
