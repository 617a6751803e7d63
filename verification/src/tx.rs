//! Transactions as a state machine.
//!
//! A transaction is a list of statements that the store is to take as one
//! unit. The machine says which action comes next; whoever talks to the store
//! performs it and reports the outcome, and the machine moves on: it begins,
//! executes the statements in order, and commits; where a statement fails it
//! rolls back. It ends in a result, and never retries.

use crate::error::CrudError;
use crate::job::{Bin, BinView, Code, CodeView, Task, TaskView};
use crate::row::{JobRow, JobRowView};
use vstd::prelude::*;

verus! {

/// What the store reports of an action.
#[derive(Debug, Clone, Copy, PartialEq, Eq, Structural)]
pub enum Outcome {
    Succeeded,
    Failed,
}

/// One statement against the store.
#[derive(Debug, Clone)]
pub enum Statement {
    /// Insert a row into the table of jobs.
    InsertJob(JobRow),
    /// Insert the task of a job.
    InsertTask { job_id: u128, task: Task },
    /// Insert the code of a job.
    InsertCode { job_id: u128, code: Code },
    /// Insert the binary of a job.
    InsertBin { job_id: u128, bin: Bin },
    /// Delete the job that its owner calls by this name, and its payload with it.
    DeleteJob { user_id: u128, job_name: String },
}

/// What a `Statement` holds.
pub enum StatementView {
    InsertJob(JobRowView),
    InsertTask { job_id: u128, task: TaskView },
    InsertCode { job_id: u128, code: CodeView },
    InsertBin { job_id: u128, bin: BinView },
    DeleteJob { user_id: u128, job_name: Seq<char> },
}

impl View for Statement {
    type V = StatementView;

    open spec fn view(&self) -> StatementView {
        match self {
            Statement::InsertJob(row) => StatementView::InsertJob(row@),
            Statement::InsertTask { job_id, task } => StatementView::InsertTask {
                job_id: *job_id,
                task: task@,
            },
            Statement::InsertCode { job_id, code } => StatementView::InsertCode {
                job_id: *job_id,
                code: code@,
            },
            Statement::InsertBin { job_id, bin } => StatementView::InsertBin {
                job_id: *job_id,
                bin: bin@,
            },
            Statement::DeleteJob { user_id, job_name } => StatementView::DeleteJob {
                user_id: *user_id,
                job_name: job_name@,
            },
        }
    }
}

/// What the statements hold, one by one.
pub open spec fn statements_view(statements: Seq<Statement>) -> Seq<StatementView> {
    statements.map_values(|statement: Statement| statement@)
}

/// Where a transaction stands.
#[derive(Debug, Clone, Copy, PartialEq, Eq, Structural)]
pub enum Phase {
    /// Not begun.
    Init,
    /// Begun; the statement at this position comes next.
    Running(usize),
    /// All statements executed; the commit comes next.
    Committing,
    /// A statement failed; the rollback comes next.
    RollingBack,
    /// Committed.
    Done,
    /// Ended without a commit, for this reason.
    Failed(CrudError),
}

/// What is to be done next.
#[derive(Debug)]
pub enum Action<'a> {
    /// Begin the transaction.
    Begin,
    /// Execute this statement inside the transaction.
    Execute(&'a Statement),
    /// Commit the transaction.
    Commit,
    /// Roll the transaction back.
    Rollback,
    /// Nothing is left to do: this is the result.
    Finish(Result<(), CrudError>),
}

/// What an `Action` holds.
pub enum ActionView {
    Begin,
    Execute(StatementView),
    Commit,
    Rollback,
    Finish(Result<(), CrudError>),
}

impl<'a> View for Action<'a> {
    type V = ActionView;

    open spec fn view(&self) -> ActionView {
        match self {
            Action::Begin => ActionView::Begin,
            Action::Execute(statement) => ActionView::Execute(statement@),
            Action::Commit => ActionView::Commit,
            Action::Rollback => ActionView::Rollback,
            Action::Finish(result) => ActionView::Finish(*result),
        }
    }
}

/// A transaction: its statements, the error that stands for a failed
/// statement, and where it stands.
pub struct Tx {
    statements: Vec<Statement>,
    failure: CrudError,
    phase: Phase,
}

/// What a `Tx` holds.
pub struct TxView {
    pub statements: Seq<StatementView>,
    pub failure: CrudError,
    pub phase: Phase,
}

impl View for Tx {
    type V = TxView;

    closed spec fn view(&self) -> TxView {
        TxView {
            statements: statements_view(self.statements@),
            failure: self.failure,
            phase: self.phase,
        }
    }
}

impl TxView {
    /// The statements can be counted, and the one that comes next is one of them.
    pub open spec fn wf(self) -> bool {
        &&& self.statements.len() <= usize::MAX
        &&& self.phase matches Phase::Running(next) ==> next < self.statements.len()
    }

    /// The transaction before it has begun.
    pub open spec fn new(statements: Seq<StatementView>, failure: CrudError) -> TxView {
        TxView { statements, failure, phase: Phase::Init }
    }

    /// Whether the transaction has ended.
    pub open spec fn finished(self) -> bool {
        self.phase is Done || self.phase is Failed
    }

    /// The result, once the transaction has ended.
    pub open spec fn result(self) -> Option<Result<(), CrudError>> {
        match self.phase {
            Phase::Done => Some(Ok(())),
            Phase::Failed(error) => Some(Err(error)),
            _ => None,
        }
    }

    /// What is to be done next.
    pub open spec fn action(self) -> ActionView {
        match self.phase {
            Phase::Init => ActionView::Begin,
            Phase::Running(next) => ActionView::Execute(self.statements[next as int]),
            Phase::Committing => ActionView::Commit,
            Phase::RollingBack => ActionView::Rollback,
            Phase::Done => ActionView::Finish(Ok(())),
            Phase::Failed(error) => ActionView::Finish(Err(error)),
        }
    }

    /// The phase behind the statement at position `next`, which succeeded.
    pub open spec fn after_statement(self, next: int) -> Phase {
        if next + 1 < self.statements.len() {
            Phase::Running((next + 1) as usize)
        } else {
            Phase::Committing
        }
    }

    /// The transaction after the begin was tried: it runs its first statement,
    /// or commits at once where it has none; a begin that failed ends it.
    pub open spec fn init(self, outcome: Outcome) -> TxView {
        if self.phase != Phase::Init {
            self
        } else if outcome == Outcome::Failed {
            TxView { phase: Phase::Failed(CrudError::Transaction), ..self }
        } else {
            TxView { phase: self.after_statement(-1), ..self }
        }
    }

    /// The transaction after its next statement was tried: it goes on behind
    /// it, or turns to the rollback where the statement failed.
    pub open spec fn execute(self, outcome: Outcome) -> TxView {
        match self.phase {
            Phase::Running(next) => if outcome == Outcome::Failed {
                TxView { phase: Phase::RollingBack, ..self }
            } else {
                TxView { phase: self.after_statement(next as int), ..self }
            },
            _ => self,
        }
    }

    /// The transaction after the commit was tried: done, or failed as a
    /// transaction.
    pub open spec fn commit(self, outcome: Outcome) -> TxView {
        if self.phase != Phase::Committing {
            self
        } else if outcome == Outcome::Failed {
            TxView { phase: Phase::Failed(CrudError::Transaction), ..self }
        } else {
            TxView { phase: Phase::Done, ..self }
        }
    }

    /// The transaction after the rollback was tried: failed for the reason that
    /// stands for its statements, or as a transaction where the rollback itself
    /// failed.
    pub open spec fn rollback(self, outcome: Outcome) -> TxView {
        if self.phase != Phase::RollingBack {
            self
        } else if outcome == Outcome::Failed {
            TxView { phase: Phase::Failed(CrudError::Transaction), ..self }
        } else {
            TxView { phase: Phase::Failed(self.failure), ..self }
        }
    }

    /// The transaction after its next action was tried. One that has ended
    /// stays as it is.
    pub open spec fn advance(self, outcome: Outcome) -> TxView {
        match self.phase {
            Phase::Init => self.init(outcome),
            Phase::Running(_) => self.execute(outcome),
            Phase::Committing => self.commit(outcome),
            Phase::RollingBack => self.rollback(outcome),
            Phase::Done => self,
            Phase::Failed(_) => self,
        }
    }
}

impl Tx {
    /// The statement that comes next is one of the transaction's.
    #[verifier::type_invariant]
    spec fn inv(self) -> bool {
        &&& statements_view(self.statements@).len() == self.statements.len()
        &&& self.phase matches Phase::Running(next) ==> next < self.statements.len()
    }

    /// A transaction of `statements` that has not begun; `failure` is the error
    /// that it ends in where a statement fails and the rollback succeeds.
    pub fn new(statements: Vec<Statement>, failure: CrudError) -> (tx: Tx)
        ensures
            tx@ == TxView::new(statements_view(statements@), failure),
            tx@.wf(),
    {
        Tx { statements, failure, phase: Phase::Init }
    }

    /// What is to be done next.
    pub fn action(&self) -> (r: Action<'_>)
        ensures
            r@ == self@.action(),
            self@.wf(),
    {
        proof {
            use_type_invariant(self);
        }
        match self.phase {
            Phase::Init => Action::Begin,
            Phase::Running(next) => Action::Execute(&self.statements[next]),
            Phase::Committing => Action::Commit,
            Phase::RollingBack => Action::Rollback,
            Phase::Done => Action::Finish(Ok(())),
            Phase::Failed(error) => Action::Finish(Err(error)),
        }
    }

    /// The result, once the transaction has ended.
    pub fn result(&self) -> (r: Option<Result<(), CrudError>>)
        ensures
            r == self@.result(),
    {
        match self.phase {
            Phase::Done => Some(Ok(())),
            Phase::Failed(error) => Some(Err(error)),
            _ => None,
        }
    }

    /// The phase behind the statement at position `next`.
    fn after_statement(&self, next: usize) -> (r: Phase)
        requires
            next < self.statements.len(),
        ensures
            r == self@.after_statement(next as int),
    {
        if next + 1 < self.statements.len() {
            Phase::Running(next + 1)
        } else {
            Phase::Committing
        }
    }

    /// Takes the outcome of the begin.
    pub fn init(&mut self, outcome: Outcome)
        ensures
            final(self)@ == old(self)@.init(outcome),
            final(self)@.wf(),
    {
        proof {
            use_type_invariant(&*self);
        }
        match self.phase {
            Phase::Init => {
                match outcome {
                    Outcome::Failed => {
                        self.phase = Phase::Failed(CrudError::Transaction);
                    },
                    Outcome::Succeeded => {
                        if self.statements.len() > 0 {
                            self.phase = Phase::Running(0);
                        } else {
                            self.phase = Phase::Committing;
                        }
                    },
                }
            },
            _ => {},
        }
    }

    /// Takes the outcome of the statement that was next.
    pub fn execute(&mut self, outcome: Outcome)
        ensures
            final(self)@ == old(self)@.execute(outcome),
            final(self)@.wf(),
    {
        proof {
            use_type_invariant(&*self);
        }
        match self.phase {
            Phase::Running(next) => {
                match outcome {
                    Outcome::Failed => {
                        self.phase = Phase::RollingBack;
                    },
                    Outcome::Succeeded => {
                        self.phase = self.after_statement(next);
                    },
                }
            },
            _ => {},
        }
    }

    /// Takes the outcome of the commit.
    pub fn commit(&mut self, outcome: Outcome)
        ensures
            final(self)@ == old(self)@.commit(outcome),
            final(self)@.wf(),
    {
        proof {
            use_type_invariant(&*self);
        }
        match self.phase {
            Phase::Committing => {
                match outcome {
                    Outcome::Failed => {
                        self.phase = Phase::Failed(CrudError::Transaction);
                    },
                    Outcome::Succeeded => {
                        self.phase = Phase::Done;
                    },
                }
            },
            _ => {},
        }
    }

    /// Takes the outcome of the rollback.
    pub fn rollback(&mut self, outcome: Outcome)
        ensures
            final(self)@ == old(self)@.rollback(outcome),
            final(self)@.wf(),
    {
        proof {
            use_type_invariant(&*self);
        }
        match self.phase {
            Phase::RollingBack => {
                match outcome {
                    Outcome::Failed => {
                        self.phase = Phase::Failed(CrudError::Transaction);
                    },
                    Outcome::Succeeded => {
                        self.phase = Phase::Failed(self.failure);
                    },
                }
            },
            _ => {},
        }
    }

    /// Takes the outcome of the action that was next, whichever it was.
    pub fn advance(&mut self, outcome: Outcome)
        ensures
            final(self)@ == old(self)@.advance(outcome),
            final(self)@.wf(),
    {
        proof {
            use_type_invariant(&*self);
        }
        match self.phase {
            Phase::Init => self.init(outcome),
            Phase::Running(_) => self.execute(outcome),
            Phase::Committing => self.commit(outcome),
            Phase::RollingBack => self.rollback(outcome),
            Phase::Done => {},
            Phase::Failed(_) => {},
        }
    }
}

} // verus!
