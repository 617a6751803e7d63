//! The workflows that store, delete and read jobs.
//!
//! Storing a job writes its row and the row of its one payload as a unit;
//! deleting removes the job and, with it, its payload. Each workflow is
//! prepared here and then runs as a transaction, one action at a time.

use crate::error::CrudError;
use crate::ident::{is_version4, parse_str, uuid_of};
use crate::job::{clone_text, Bin, Code, Job, JobStatus, JobView, Payload, PayloadView, Task};
use crate::row::{due_rows, rows_view, select_due, JobRow, JobRowView};
use crate::schedule::{clock, parse_spec, Schedule, Time, MAX_INSTANT, MIN_INSTANT};
use crate::text::tokens;
use crate::tx::{statements_view, Statement, StatementView, Tx, TxView};
use vstd::prelude::*;

verus! {

/// The workflows on one job description.
pub struct DB {
    /// The job that the workflows are about; deleting reads its name only.
    pub job: Job,
}

/// The row of the job `job` of the owner `user_id`, stored under `job_id` at
/// the instant `now`: scheduled, with its next run computed from its schedule.
/// A job without a schedule, or with one that does not parse, is not valid.
pub open spec fn job_row_spec(job: JobView, user_id: u128, job_id: u128, now: int) -> Result<
    JobRowView,
    CrudError,
> {
    match job.schedule {
        None => Err(CrudError::Validation),
        Some(expression) => match parse_spec(tokens(expression), now) {
            Err(_) => Err(CrudError::Validation),
            Ok(schedule) => Ok(
                JobRowView {
                    user_id,
                    job_id,
                    job_name: job.name,
                    job_description: job.description,
                    job_type: job.kind(),
                    job_interval: match schedule.time {
                        Time::Integer(seconds) => Some(seconds),
                        Time::Timestamp(_) => None,
                    },
                    next_run_at: Some(schedule.next_run_spec(now) as i128),
                    created_at: None,
                    runs: 0,
                    error_count: 0,
                    job_status: JobStatus::Scheduled,
                },
            ),
        },
    }
}

/// The statement that stores `payload` for the job `job_id`.
pub open spec fn payload_statement(job_id: u128, payload: PayloadView) -> StatementView {
    match payload {
        PayloadView::Task(task) => StatementView::InsertTask { job_id, task },
        PayloadView::Code(code) => StatementView::InsertCode { job_id, code },
        PayloadView::Bin(bin) => StatementView::InsertBin { job_id, bin },
    }
}

/// The transaction that stores the job `job`: the row of the job, then the row
/// of its payload. A job that carries no payload, or more than one, is not
/// valid. A statement that fails stands for a failed insertion.
pub open spec fn insert_spec(job: JobView, user_id: u128, job_id: u128, now: int) -> Result<
    TxView,
    CrudError,
> {
    match job.payload() {
        None => Err(CrudError::Validation),
        Some(payload) => match job_row_spec(job, user_id, job_id, now) {
            Err(error) => Err(error),
            Ok(row) => Ok(
                TxView::new(
                    seq![StatementView::InsertJob(row), payload_statement(job_id, payload)],
                    CrudError::Insertion,
                ),
            ),
        },
    }
}

/// The transaction that deletes the job that `user_id` calls `job_name`. A
/// statement that fails stands for a failed transaction.
pub open spec fn delete_spec(user_id: u128, job_name: Seq<char>) -> TxView {
    TxView::new(seq![StatementView::DeleteJob { user_id, job_name }], CrudError::Transaction)
}

/// Whether `r` is what preparing the insertion of `job` gives for this
/// identifier and this instant.
pub open spec fn is_insert(
    r: Result<Tx, CrudError>,
    job: JobView,
    user_id: u128,
    job_id: u128,
    now: int,
) -> bool {
    match r {
        Ok(tx) => insert_spec(job, user_id, job_id, now) == Ok::<TxView, CrudError>(tx@),
        Err(error) => insert_spec(job, user_id, job_id, now) == Err::<TxView, CrudError>(error),
    }
}

impl DB {
    /// Workflows on an empty description.
    pub fn new() -> (db: DB)
        ensures
            db.job@ == Job::default_view(),
    {
        DB { job: Job::default() }
    }

    /// The same workflows on the description `job`.
    pub fn job(self, job: Job) -> (db: DB)
        ensures
            db.job == job,
    {
        let mut db = self;
        db.job = job;
        db
    }

    /// The statement that stores `task` for the job `job_id`.
    pub fn task(&self, job_id: u128, task: &Task) -> (r: Statement)
        ensures
            r@ == payload_statement(job_id, PayloadView::Task(task@)),
    {
        Statement::InsertTask { job_id, task: task.copy() }
    }

    /// The statement that stores `code` for the job `job_id`.
    pub fn code(&self, job_id: u128, code: &Code) -> (r: Statement)
        ensures
            r@ == payload_statement(job_id, PayloadView::Code(code@)),
    {
        Statement::InsertCode { job_id, code: code.copy() }
    }

    /// The statement that stores `bin` for the job `job_id`.
    pub fn bin(&self, job_id: u128, bin: &Bin) -> (r: Statement)
        ensures
            r@ == payload_statement(job_id, PayloadView::Bin(bin@)),
    {
        Statement::InsertBin { job_id, bin: bin.copy() }
    }

    /// The row of the job, for the owner `user_id`, under the identifier
    /// `job_id`, at the instant `now`: the schedule is parsed at `now`, and the
    /// next run is computed from `now`.
    pub fn insert_inner(&self, user_id: u128, job_id: u128, now: i128) -> (r: Result<
        JobRow,
        CrudError,
    >)
        requires
            MIN_INSTANT <= now <= MAX_INSTANT,
        ensures
            match r {
                Ok(row) => job_row_spec(self.job@, user_id, job_id, now as int) == Ok::<
                    JobRowView,
                    CrudError,
                >(row@),
                Err(error) => job_row_spec(self.job@, user_id, job_id, now as int) == Err::<
                    JobRowView,
                    CrudError,
                >(error),
            },
    {
        let expression = match &self.job.schedule {
            Some(expression) => expression,
            None => {
                return Err(CrudError::Validation);
            },
        };
        let schedule = match Schedule::new().parse_at(expression.as_str(), now) {
            Ok(schedule) => schedule,
            Err(_) => {
                return Err(CrudError::Validation);
            },
        };
        let next_run = schedule.next_run_at(now);
        let job_interval = match schedule.time {
            Time::Integer(seconds) => Some(seconds),
            Time::Timestamp(_) => None,
        };
        Ok(
            JobRow {
                user_id,
                job_id,
                job_name: self.job.name.clone(),
                job_description: clone_text(&self.job.description),
                job_type: self.job.kind(),
                job_interval,
                next_run_at: Some(next_run),
                created_at: None,
                runs: 0,
                error_count: 0,
                job_status: JobStatus::Scheduled,
            },
        )
    }

    /// Prepares the insertion of the job, for the owner `user_id`, under the
    /// identifier `job_id`, at the instant `now`.
    pub fn insert_at(&self, user_id: u128, job_id: u128, now: i128) -> (r: Result<Tx, CrudError>)
        requires
            MIN_INSTANT <= now <= MAX_INSTANT,
        ensures
            is_insert(r, self.job@, user_id, job_id, now as int),
    {
        let payload = match self.job.payload() {
            Some(payload) => payload,
            None => {
                return Err(CrudError::Validation);
            },
        };
        let row = match self.insert_inner(user_id, job_id, now) {
            Ok(row) => row,
            Err(error) => {
                return Err(error);
            },
        };
        let second = match &payload {
            Payload::Task(task) => self.task(job_id, task),
            Payload::Code(code) => self.code(job_id, code),
            Payload::Bin(bin) => self.bin(job_id, bin),
        };
        let statements = vec![Statement::InsertJob(row), second];
        assert(statements_view(statements@) =~= seq![
            StatementView::InsertJob(row@),
            payload_statement(job_id, payload@),
        ]);
        Ok(Tx::new(statements, CrudError::Insertion))
    }

    /// Prepares the insertion of the job for the owner whose identifier
    /// `user_id` spells, under a fresh random identifier, at the instant that
    /// the clock reports. A text that spells no identifier is not valid.
    pub fn insert(&self, user_id: &str) -> (r: Result<Tx, CrudError>)
        ensures
            match uuid_of(user_id@) {
                None => r matches Err(error) && error == CrudError::Validation,
                Some(owner) => exists|job_id: u128, now: int|
                    is_version4(job_id) && MIN_INSTANT <= now <= MAX_INSTANT
                        && #[trigger] is_insert(r, self.job@, owner, job_id, now),
            },
    {
        let owner = match parse_str(user_id) {
            Some(owner) => owner,
            None => {
                return Err(CrudError::Validation);
            },
        };
        let job_id = self.job.gen_uuid();
        let now = clock();
        let r = self.insert_at(owner, job_id, now);
        assert(is_insert(r, self.job@, owner, job_id, now as int));
        r
    }

    /// Prepares the deletion of the job that the owner `user_id` calls by the
    /// name of the description.
    pub fn delete_of(&self, user_id: u128) -> (tx: Tx)
        ensures
            tx@ == delete_spec(user_id, self.job@.name),
    {
        let statements = vec![
            Statement::DeleteJob { user_id, job_name: self.job.name.clone() },
        ];
        assert(statements_view(statements@) =~= seq![
            StatementView::DeleteJob { user_id, job_name: self.job@.name },
        ]);
        Tx::new(statements, CrudError::Transaction)
    }

    /// Prepares the deletion of the job that the owner whose identifier
    /// `user_id` spells calls by the name of the description. A text that spells
    /// no identifier is not valid.
    pub fn delete(&self, user_id: String) -> (r: Result<Tx, CrudError>)
        ensures
            match uuid_of(user_id@) {
                None => r matches Err(error) && error == CrudError::Validation,
                Some(owner) => r matches Ok(tx) && tx@ == delete_spec(owner, self.job@.name),
            },
    {
        match parse_str(user_id.as_str()) {
            Some(owner) => Ok(self.delete_of(owner)),
            None => Err(CrudError::Validation),
        }
    }

    /// The jobs that are due at `now` within `interval` nanoseconds, among the
    /// rows that were fetched from the store; a read error where none could be
    /// fetched.
    pub fn read(&self, fetched: Option<Vec<JobRow>>, now: i128, interval: u128) -> (r: Result<
        Vec<JobRow>,
        CrudError,
    >)
        ensures
            match r {
                Ok(due) => fetched matches Some(rows) && rows_view(due@) == due_rows(
                    rows_view(rows@),
                    now as int,
                    interval as int,
                ),
                Err(error) => fetched is None && error == CrudError::Read,
            },
    {
        match fetched {
            Some(rows) => Ok(select_due(&rows, now, interval)),
            None => Err(CrudError::Read),
        }
    }
}

/// What an insertion writes. The transaction has two statements: the row of
/// the job, then the row of its payload under the same identifier. The row
/// names its owner and its job, is scheduled and knows its next run, which is
/// the next run of its schedule seen from `now`; and its kind is the kind of
/// the one payload.
pub proof fn lemma_insert_writes_job_and_payload(
    job: JobView,
    user_id: u128,
    job_id: u128,
    now: int,
)
    requires
        insert_spec(job, user_id, job_id, now) is Ok,
        MIN_INSTANT <= now <= MAX_INSTANT,
    ensures
        ({
            let tx = insert_spec(job, user_id, job_id, now).unwrap();
            let payload = job.payload().unwrap();
            let schedule = parse_spec(tokens(job.schedule.unwrap()), now).unwrap();
            &&& tx.statements.len() == 2
            &&& tx.statements[0] matches StatementView::InsertJob(row)
            &&& row.wf()
            &&& row.user_id == user_id
            &&& row.job_id == job_id
            &&& row.job_name == job.name
            &&& row.job_status == JobStatus::Scheduled
            &&& row.next_run_at == Some(schedule.next_run_spec(now) as i128)
            &&& row.next_run_at.unwrap() == schedule.next_run_spec(now)
            &&& row.next_run_at.unwrap() >= now
            &&& row.job_type == payload.kind()
            &&& tx.statements[1] == payload_statement(job_id, payload)
        }),
{
    let schedule = parse_spec(tokens(job.schedule.unwrap()), now).unwrap();
    crate::schedule::lemma_parsed_schedule_wf(tokens(job.schedule.unwrap()), now);
    match schedule.time {
        Time::Integer(seconds) => {
            assert(0 <= seconds * 1_000_000_000 <= i64::MAX * 1_000_000_000) by (nonlinear_arith)
                requires
                    0 <= seconds <= i64::MAX,
            ;
        },
        Time::Timestamp(_) => {},
    }
}

} // verus!
