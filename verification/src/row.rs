//! Rows of the table of jobs, and the selection of the rows that are due.
//!
//! A job is due at an instant, within a lookahead, where it is scheduled and
//! its next run lies neither before that instant nor later than the lookahead
//! after it.

use crate::job::{clone_text, text_view, JobStatus, JobType};
use vstd::prelude::*;

verus! {

/// A row of the table of jobs.
#[derive(Debug, Clone)]
pub struct JobRow {
    /// The owner.
    pub user_id: u128,
    pub job_id: u128,
    /// The name, which the owner gives to one job only.
    pub job_name: String,
    pub job_description: Option<String>,
    pub job_type: JobType,
    /// The interval of a recurring job, in seconds.
    pub job_interval: Option<i64>,
    /// The instant of the next run, in nanoseconds since the Unix epoch.
    pub next_run_at: Option<i128>,
    /// The instant at which the store took the row.
    pub created_at: Option<i128>,
    /// How many runs have completed.
    pub runs: i32,
    /// How many runs have failed.
    pub error_count: i32,
    pub job_status: JobStatus,
}

/// What a `JobRow` holds.
pub struct JobRowView {
    pub user_id: u128,
    pub job_id: u128,
    pub job_name: Seq<char>,
    pub job_description: Option<Seq<char>>,
    pub job_type: JobType,
    pub job_interval: Option<i64>,
    pub next_run_at: Option<i128>,
    pub created_at: Option<i128>,
    pub runs: i32,
    pub error_count: i32,
    pub job_status: JobStatus,
}

impl View for JobRow {
    type V = JobRowView;

    open spec fn view(&self) -> JobRowView {
        JobRowView {
            user_id: self.user_id,
            job_id: self.job_id,
            job_name: self.job_name@,
            job_description: text_view(self.job_description),
            job_type: self.job_type,
            job_interval: self.job_interval,
            next_run_at: self.next_run_at,
            created_at: self.created_at,
            runs: self.runs,
            error_count: self.error_count,
            job_status: self.job_status,
        }
    }
}

impl JobRowView {
    /// A scheduled job knows its next run.
    pub open spec fn wf(self) -> bool {
        self.job_status == JobStatus::Scheduled ==> self.next_run_at is Some
    }

    /// Whether the job is due at `now` within `lookahead` nanoseconds.
    pub open spec fn is_due(self, now: int, lookahead: int) -> bool {
        &&& self.job_status == JobStatus::Scheduled
        &&& self.next_run_at matches Some(next_run)
        &&& now <= next_run <= now + lookahead
    }
}

/// What the rows hold, row by row.
pub open spec fn rows_view(rows: Seq<JobRow>) -> Seq<JobRowView> {
    rows.map_values(|row: JobRow| row@)
}

/// The rows among `rows` that are due at `now` within `lookahead` nanoseconds,
/// in the order in which they stand.
pub open spec fn due_rows(rows: Seq<JobRowView>, now: int, lookahead: int) -> Seq<JobRowView>
    decreases rows.len(),
{
    if rows.len() == 0 {
        Seq::empty()
    } else if rows.last().is_due(now, lookahead) {
        due_rows(rows.drop_last(), now, lookahead).push(rows.last())
    } else {
        due_rows(rows.drop_last(), now, lookahead)
    }
}

impl JobRow {
    /// A row that stands for no job yet: nothing is set, and it is disabled.
    pub fn new() -> (r: JobRow)
        ensures
            r@ == (JobRowView {
                user_id: 0,
                job_id: 0,
                job_name: Seq::<char>::empty(),
                job_description: None,
                job_type: JobType::Invalid,
                job_interval: None,
                next_run_at: None,
                created_at: None,
                runs: 0,
                error_count: 0,
                job_status: JobStatus::Disabled,
            }),
    {
        JobRow {
            user_id: 0,
            job_id: 0,
            job_name: String::new(),
            job_description: None,
            job_type: JobType::Invalid,
            job_interval: None,
            next_run_at: None,
            created_at: None,
            runs: 0,
            error_count: 0,
            job_status: JobStatus::Disabled,
        }
    }

    /// A copy of the row.
    pub fn copy(&self) -> (r: JobRow)
        ensures
            r@ == self@,
    {
        JobRow {
            user_id: self.user_id,
            job_id: self.job_id,
            job_name: self.job_name.clone(),
            job_description: clone_text(&self.job_description),
            job_type: self.job_type,
            job_interval: self.job_interval,
            next_run_at: self.next_run_at,
            created_at: self.created_at,
            runs: self.runs,
            error_count: self.error_count,
            job_status: self.job_status,
        }
    }

    /// Whether the job is due at `now` within `lookahead` nanoseconds.
    pub fn is_due(&self, now: i128, lookahead: u128) -> (r: bool)
        ensures
            r == self@.is_due(now as int, lookahead as int),
    {
        match self.job_status {
            JobStatus::Scheduled => {},
            _ => {
                return false;
            },
        }
        let next_run: i128 = match self.next_run_at {
            Some(next_run) => next_run,
            None => {
                return false;
            },
        };
        if next_run < now {
            return false;
        }
        if now >= 0 || next_run < 0 {
            let ahead: i128 = next_run - now;
            ahead as u128 <= lookahead
        } else {
            let before_epoch: u128 = (-(now + 1)) as u128 + 1;
            next_run as u128 + before_epoch <= lookahead
        }
    }
}

/// The first and the last instant of the window that starts at `now` and is
/// `lookahead` nanoseconds long, the last held to the latest instant that
/// 128 bits can count.
pub fn window(now: i128, lookahead: u128) -> (r: (i128, i128))
    ensures
        r.0 == now,
        r.1 == if now + lookahead <= i128::MAX {
            now + lookahead
        } else {
            i128::MAX as int
        },
{
    if now >= 0 {
        if lookahead > i128::MAX as u128 {
            (now, i128::MAX)
        } else {
            match now.checked_add(lookahead as i128) {
                Some(last) => (now, last),
                None => (now, i128::MAX),
            }
        }
    } else {
        let before_epoch: u128 = (-(now + 1)) as u128 + 1;
        if lookahead < before_epoch {
            (now, now + lookahead as i128)
        } else if lookahead - before_epoch > i128::MAX as u128 {
            (now, i128::MAX)
        } else {
            (now, (lookahead - before_epoch) as i128)
        }
    }
}

/// Selects the rows that are due at `now` within `lookahead` nanoseconds, in
/// the order in which they stand.
pub fn select_due(rows: &Vec<JobRow>, now: i128, lookahead: u128) -> (due: Vec<JobRow>)
    ensures
        rows_view(due@) == due_rows(rows_view(rows@), now as int, lookahead as int),
{
    let mut due: Vec<JobRow> = Vec::new();
    let mut i: usize = 0;
    assert(rows_view(rows@).take(0) =~= Seq::<JobRowView>::empty());
    assert(rows_view(due@) =~= Seq::<JobRowView>::empty());
    while i < rows.len()
        invariant
            i <= rows.len(),
            rows_view(due@) == due_rows(
                rows_view(rows@).take(i as int),
                now as int,
                lookahead as int,
            ),
        decreases rows.len() - i,
    {
        let ghost before = rows_view(due@);
        let ghost all = rows_view(rows@);
        assert(all.take(i + 1).drop_last() =~= all.take(i as int));
        assert(all.take(i + 1).last() == rows@[i as int]@);
        if rows[i].is_due(now, lookahead) {
            due.push(rows[i].copy());
            assert(rows_view(due@) =~= before.push(rows@[i as int]@));
        }
        i += 1;
    }
    assert(rows_view(rows@).take(rows.len() as int) =~= rows_view(rows@));
    due
}

/// A row is selected exactly where it stands among the rows and is due.
pub proof fn lemma_due_rows_exact(rows: Seq<JobRowView>, now: int, lookahead: int, row: JobRowView)
    ensures
        due_rows(rows, now, lookahead).contains(row) <==> rows.contains(row) && row.is_due(
            now,
            lookahead,
        ),
    decreases rows.len(),
{
    let due = due_rows(rows, now, lookahead);
    if rows.len() > 0 {
        let rest = rows.drop_last();
        let last = rows.last();
        lemma_due_rows_exact(rest, now, lookahead, row);
        let due_rest = due_rows(rest, now, lookahead);
        assert(rows =~= rest.push(last));
        if rows.contains(row) {
            let k = choose|k: int| 0 <= k < rows.len() && rows[k] == row;
            if k < rest.len() {
                assert(rest[k] == row);
            }
        }
        if rest.contains(row) {
            let k = choose|k: int| 0 <= k < rest.len() && rest[k] == row;
            assert(rows[k] == row);
        }
        assert(rows[rows.len() - 1] == last);
        if last.is_due(now, lookahead) {
            assert(due == due_rest.push(last));
            assert(due[due.len() - 1] == last);
            if due.contains(row) {
                let k = choose|k: int| 0 <= k < due.len() && due[k] == row;
                if k < due_rest.len() {
                    assert(due_rest[k] == row);
                }
            }
            if due_rest.contains(row) {
                let k = choose|k: int| 0 <= k < due_rest.len() && due_rest[k] == row;
                assert(due[k] == row);
            }
        }
    }
}

/// A scheduled job whose next run lies `delay` nanoseconds after `now` is due
/// within every lookahead of no less than `delay`, and within no shorter one.
pub proof fn lemma_due_within(row: JobRowView, now: int, delay: int, lookahead: int)
    requires
        row.job_status == JobStatus::Scheduled,
        row.next_run_at matches Some(next_run) && next_run == now + delay,
        0 <= delay,
    ensures
        row.is_due(now, lookahead) <==> lookahead >= delay,
{
}

} // verus!
