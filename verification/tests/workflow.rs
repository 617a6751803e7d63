use schedin::db::DB;
use schedin::error::CrudError;
use schedin::job::{Bin, Code, Job, JobStatus, JobType, Task};
use schedin::row::{select_due, JobRow};
use schedin::schedule::NANOS_PER_SECOND;
use schedin::tx::{Action, Outcome, Statement, Tx};
use std::time::{SystemTime, UNIX_EPOCH};

const OWNER: u128 = 0x67e55044_10b1_426f_9247_bb680e5fe0c8;
const OWNER_TEXT: &str = "67e55044-10b1-426f-9247-bb680e5fe0c8";
const JOB_ID: u128 = 0x0123_4567_89ab_4def_8123_4567_89ab_cdef;

/// The four tables as a test holds them.
#[derive(Debug, Clone, Default)]
struct Tables {
    jobs: Vec<JobRow>,
    tasks: Vec<(u128, String)>,
    codes: Vec<(u128, String, String, String)>,
    bins: Vec<(u128, String, Option<String>)>,
}

/// A store with one transaction at most, in memory.
#[derive(Debug, Default)]
struct Store {
    visible: Tables,
    pending: Option<Tables>,
    /// How many actions have been performed.
    performed: usize,
    /// The action, counted from zero, that is made to fail.
    fail_at: Option<usize>,
    /// Whether the action behind the failed one fails as well.
    fail_next: bool,
}

impl Store {
    fn perform(&mut self, action: &Action) -> Outcome {
        let at = self.performed;
        self.performed += 1;
        let fails = match self.fail_at {
            Some(n) => at == n || (self.fail_next && at == n + 1),
            None => false,
        };
        match action {
            Action::Begin => {
                if fails {
                    return Outcome::Failed;
                }
                self.pending = Some(self.visible.clone());
            }
            Action::Execute(statement) => {
                if fails {
                    return Outcome::Failed;
                }
                let tables = self.pending.as_mut().expect("a transaction is open");
                match statement {
                    Statement::InsertJob(row) => {
                        if tables
                            .jobs
                            .iter()
                            .any(|job| job.user_id == row.user_id && job.job_name == row.job_name)
                        {
                            return Outcome::Failed;
                        }
                        tables.jobs.push(row.clone())
                    }
                    Statement::InsertTask { job_id, task } => {
                        tables.tasks.push((*job_id, task.name.clone()))
                    }
                    Statement::InsertCode { job_id, code } => tables.codes.push((
                        *job_id,
                        code.src.clone(),
                        code.lang.clone(),
                        code.cmd.clone(),
                    )),
                    Statement::InsertBin { job_id, bin } => {
                        tables.bins.push((*job_id, bin.path.clone(), bin.cmd.clone()))
                    }
                    Statement::DeleteJob { user_id, job_name } => {
                        let gone: Vec<u128> = tables
                            .jobs
                            .iter()
                            .filter(|row| row.user_id == *user_id && row.job_name == *job_name)
                            .map(|row| row.job_id)
                            .collect();
                        tables
                            .jobs
                            .retain(|row| !(row.user_id == *user_id && row.job_name == *job_name));
                        tables.tasks.retain(|row| !gone.contains(&row.0));
                        tables.codes.retain(|row| !gone.contains(&row.0));
                        tables.bins.retain(|row| !gone.contains(&row.0));
                    }
                }
            }
            Action::Commit => {
                let tables = self.pending.take().expect("a transaction is open");
                if fails {
                    return Outcome::Failed;
                }
                self.visible = tables;
            }
            Action::Rollback => {
                self.pending = None;
                if fails {
                    return Outcome::Failed;
                }
            }
            Action::Finish(_) => {}
        }
        Outcome::Succeeded
    }

    /// Runs the transaction to its end.
    fn run(&mut self, tx: &mut Tx) -> Result<(), CrudError> {
        self.performed = 0;
        loop {
            let outcome = match tx.action() {
                Action::Finish(result) => return result,
                action => self.perform(&action),
            };
            tx.advance(outcome);
        }
    }
}

fn task_job(name: &str, schedule: &str) -> Job {
    Job {
        name: name.to_string(),
        description: Some("description_X".to_string()),
        schedule: Some(schedule.to_string()),
        task: Some(Task { name: "Task_name_1".to_string() }),
        code: None,
        bin: None,
    }
}

fn clock() -> i128 {
    SystemTime::now().duration_since(UNIX_EPOCH).unwrap().as_nanos() as i128
}

#[test]
fn insert_writes_job_and_payload() {
    let now = 1_000 * NANOS_PER_SECOND;
    let db = DB::new().job(task_job("job-X", "@every 10 sec"));
    let mut tx = db.insert_at(OWNER, JOB_ID, now).unwrap();
    let mut store = Store::default();
    assert_eq!(store.run(&mut tx), Ok(()));
    assert_eq!(tx.result(), Some(Ok(())));
    assert!(store.pending.is_none());
    assert_eq!(store.visible.jobs.len(), 1);
    let row = &store.visible.jobs[0];
    assert_eq!(row.user_id, OWNER);
    assert_eq!(row.job_id, JOB_ID);
    assert_eq!(row.job_name, "job-X");
    assert_eq!(row.job_description.as_deref(), Some("description_X"));
    assert_eq!(row.job_type, JobType::Task);
    assert_eq!(row.job_interval, Some(10));
    assert_eq!(row.next_run_at, Some(1_010 * NANOS_PER_SECOND));
    assert_eq!(row.created_at, None);
    assert_eq!(row.runs, 0);
    assert_eq!(row.error_count, 0);
    assert_eq!(row.job_status, JobStatus::Scheduled);
    assert_eq!(store.visible.tasks, vec![(JOB_ID, "Task_name_1".to_string())]);
    assert!(store.visible.codes.is_empty());
    assert!(store.visible.bins.is_empty());
}

#[test]
fn insert_asks_for_begin_job_payload_commit() {
    let db = DB::new().job(task_job("job-X", "@every 10 sec"));
    let mut tx = db.insert_at(OWNER, JOB_ID, 0).unwrap();
    assert!(matches!(tx.action(), Action::Begin));
    assert_eq!(tx.result(), None);
    tx.advance(Outcome::Succeeded);
    assert!(matches!(tx.action(), Action::Execute(Statement::InsertJob(_))));
    tx.advance(Outcome::Succeeded);
    assert!(matches!(
        tx.action(),
        Action::Execute(Statement::InsertTask { job_id: JOB_ID, .. })
    ));
    tx.advance(Outcome::Succeeded);
    assert!(matches!(tx.action(), Action::Commit));
    assert_eq!(tx.result(), None);
    tx.advance(Outcome::Succeeded);
    assert!(matches!(tx.action(), Action::Finish(Ok(()))));
    assert_eq!(tx.result(), Some(Ok(())));
    tx.advance(Outcome::Failed);
    assert_eq!(tx.result(), Some(Ok(())));
}

#[test]
fn insert_of_code_and_of_bin() {
    let mut job = task_job("job-Y", "@every 10 min");
    job.task = None;
    job.code = Some(Code {
        src: "cHJpbnQoMSk=".to_string(),
        lang: "python".to_string(),
        cmd: "python file.py".to_string(),
    });
    let mut store = Store::default();
    let mut tx = DB::new().job(job).insert_at(OWNER, JOB_ID, 0).unwrap();
    assert_eq!(store.run(&mut tx), Ok(()));
    assert_eq!(store.visible.jobs[0].job_type, JobType::Code);
    assert_eq!(store.visible.jobs[0].job_interval, Some(600));
    assert_eq!(
        store.visible.codes,
        vec![(
            JOB_ID,
            "cHJpbnQoMSk=".to_string(),
            "python".to_string(),
            "python file.py".to_string()
        )]
    );

    let mut job = task_job("job-Z", "@once 2024-01-01 09:00:00");
    job.task = None;
    job.bin = Some(Bin { path: "https://s3-bucket.com/1".to_string(), cmd: None });
    let mut tx = DB::new().job(job).insert_at(OWNER, JOB_ID + 1, 0).unwrap();
    assert_eq!(store.run(&mut tx), Ok(()));
    assert_eq!(store.visible.jobs.len(), 2);
    assert_eq!(store.visible.jobs[1].job_type, JobType::Bin);
    assert_eq!(store.visible.jobs[1].job_interval, None);
    assert_eq!(
        store.visible.jobs[1].next_run_at,
        Some(1_704_099_600 * NANOS_PER_SECOND)
    );
    assert_eq!(
        store.visible.bins,
        vec![(JOB_ID + 1, "https://s3-bucket.com/1".to_string(), None)]
    );
    assert!(store.visible.tasks.is_empty());
}

#[test]
fn insert_needs_exactly_one_payload() {
    let mut none = task_job("job-X", "@every 10 sec");
    none.task = None;
    assert_eq!(
        DB::new().job(none).insert_at(OWNER, JOB_ID, 0).err(),
        Some(CrudError::Validation)
    );
    let mut two = task_job("job-X", "@every 10 sec");
    two.bin = Some(Bin { path: "p".to_string(), cmd: Some("c".to_string()) });
    assert_eq!(
        DB::new().job(two).insert_at(OWNER, JOB_ID, 0).err(),
        Some(CrudError::Validation)
    );
    let mut three = task_job("job-X", "@every 10 sec");
    three.bin = Some(Bin { path: "p".to_string(), cmd: None });
    three.code = Some(Code { src: "".to_string(), lang: "".to_string(), cmd: "".to_string() });
    assert_eq!(
        DB::new().job(three).insert_at(OWNER, JOB_ID, 0).err(),
        Some(CrudError::Validation)
    );
    assert_eq!(
        DB::new().insert_at(OWNER, JOB_ID, 0).err(),
        Some(CrudError::Validation)
    );
}

#[test]
fn insert_needs_a_schedule_that_parses() {
    let mut missing = task_job("job-X", "");
    missing.schedule = None;
    assert_eq!(
        DB::new().job(missing).insert_at(OWNER, JOB_ID, 0).err(),
        Some(CrudError::Validation)
    );
    for schedule in ["", "every 10 sec", "@every ten sec", "@every 10 hrs", "@hourly"] {
        assert_eq!(
            DB::new().job(task_job("job-X", schedule)).insert_at(OWNER, JOB_ID, 0).err(),
            Some(CrudError::Validation),
            "{}",
            schedule
        );
    }
    let elapsed = task_job("job-X", "@once 2024-01-01 09:00:00");
    assert_eq!(
        DB::new()
            .job(elapsed)
            .insert_at(OWNER, JOB_ID, 1_704_099_600 * NANOS_PER_SECOND)
            .err(),
        Some(CrudError::Validation)
    );
}

#[test]
fn insert_inner_builds_the_row() {
    let db = DB::new().job(task_job("job-X", "@daily"));
    let row = db.insert_inner(OWNER, JOB_ID, 7).unwrap();
    assert_eq!(row.job_name, "job-X");
    assert_eq!(row.job_interval, Some(86_400));
    assert_eq!(row.next_run_at, Some(7 + 86_400 * NANOS_PER_SECOND));
    assert_eq!(row.job_status, JobStatus::Scheduled);
    let db = DB::new().job(task_job("job-X", "@never"));
    assert_eq!(db.insert_inner(OWNER, JOB_ID, 7).err(), Some(CrudError::Validation));
}

#[test]
fn payload_statements_carry_the_job_identifier() {
    let db = DB::new();
    match db.task(JOB_ID, &Task { name: "t".to_string() }) {
        Statement::InsertTask { job_id, task } => {
            assert_eq!(job_id, JOB_ID);
            assert_eq!(task.name, "t");
        }
        other => panic!("{:?}", other),
    }
    let code = Code { src: "s".to_string(), lang: "l".to_string(), cmd: "c".to_string() };
    match db.code(JOB_ID, &code) {
        Statement::InsertCode { job_id, code } => {
            assert_eq!(job_id, JOB_ID);
            assert_eq!((code.src.as_str(), code.lang.as_str(), code.cmd.as_str()), ("s", "l", "c"));
        }
        other => panic!("{:?}", other),
    }
    match db.bin(JOB_ID, &Bin { path: "p".to_string(), cmd: Some("run".to_string()) }) {
        Statement::InsertBin { job_id, bin } => {
            assert_eq!(job_id, JOB_ID);
            assert_eq!(bin.path, "p");
            assert_eq!(bin.cmd.as_deref(), Some("run"));
        }
        other => panic!("{:?}", other),
    }
}

#[test]
fn failed_payload_insert_leaves_no_orphan() {
    let db = DB::new().job(task_job("job-X", "@every 10 sec"));
    let mut tx = db.insert_at(OWNER, JOB_ID, 0).unwrap();
    let mut store = Store { fail_at: Some(2), ..Store::default() };
    assert_eq!(store.run(&mut tx), Err(CrudError::Insertion));
    assert_eq!(store.performed, 4);
    assert!(store.visible.jobs.iter().all(|row| row.job_id != JOB_ID));
    assert!(store.visible.jobs.is_empty());
    assert!(store.visible.tasks.is_empty());
    assert!(store.pending.is_none());
}

#[test]
fn failed_job_insert_rolls_back() {
    let db = DB::new().job(task_job("job-X", "@every 10 sec"));
    let mut tx = db.insert_at(OWNER, JOB_ID, 0).unwrap();
    tx.advance(Outcome::Succeeded);
    tx.advance(Outcome::Failed);
    assert!(matches!(tx.action(), Action::Rollback));
    assert_eq!(tx.result(), None);
    tx.advance(Outcome::Succeeded);
    assert_eq!(tx.result(), Some(Err(CrudError::Insertion)));
    assert!(matches!(tx.action(), Action::Finish(Err(CrudError::Insertion))));
}

#[test]
fn failed_rollback_is_a_transaction_error() {
    let db = DB::new().job(task_job("job-X", "@every 10 sec"));
    let mut tx = db.insert_at(OWNER, JOB_ID, 0).unwrap();
    let mut store = Store { fail_at: Some(1), fail_next: true, ..Store::default() };
    assert_eq!(store.run(&mut tx), Err(CrudError::Transaction));
    assert!(store.visible.jobs.is_empty());
}

#[test]
fn failed_begin_is_a_transaction_error() {
    let db = DB::new().job(task_job("job-X", "@every 10 sec"));
    let mut tx = db.insert_at(OWNER, JOB_ID, 0).unwrap();
    let mut store = Store { fail_at: Some(0), ..Store::default() };
    assert_eq!(store.run(&mut tx), Err(CrudError::Transaction));
    assert_eq!(store.performed, 1);
    assert!(store.visible.jobs.is_empty());
}

#[test]
fn failed_commit_is_a_transaction_error_and_nothing_is_visible() {
    let db = DB::new().job(task_job("job-X", "@every 10 sec"));
    let mut tx = db.insert_at(OWNER, JOB_ID, 0).unwrap();
    let mut store = Store { fail_at: Some(3), ..Store::default() };
    assert_eq!(store.run(&mut tx), Err(CrudError::Transaction));
    assert_eq!(store.performed, 4);
    assert!(store.visible.jobs.is_empty());
    assert!(store.visible.tasks.is_empty());
    assert!(store.pending.is_none());
}

#[test]
fn inserted_job_is_due_only_within_its_interval() {
    let now = 1_000 * NANOS_PER_SECOND;
    let db = DB::new().job(task_job("job-X", "@every 10 sec"));
    let mut tx = db.insert_at(OWNER, JOB_ID, now).unwrap();
    let mut store = Store::default();
    assert_eq!(store.run(&mut tx), Ok(()));
    assert!(select_due(&store.visible.jobs, now, 0).is_empty());
    let due = select_due(&store.visible.jobs, now, 15 * NANOS_PER_SECOND as u128);
    assert_eq!(due.len(), 1);
    assert_eq!(due[0].job_name, "job-X");
    let due = DB::new()
        .read(Some(store.visible.jobs.clone()), now, 15 * NANOS_PER_SECOND as u128)
        .unwrap();
    assert_eq!(due.len(), 1);
    assert_eq!(due[0].job_name, "job-X");
}

#[test]
fn inserted_job_is_due_by_the_clock() {
    let db = DB::new().job(task_job("job-X", "@every 10 sec"));
    let before = clock();
    let mut tx = db.insert(OWNER_TEXT).unwrap();
    let after = clock();
    let mut store = Store::default();
    assert_eq!(store.run(&mut tx), Ok(()));
    assert_eq!(store.visible.jobs.len(), 1);
    let row = &store.visible.jobs[0];
    assert_eq!(row.user_id, OWNER);
    assert_eq!(row.job_id >> 76 & 0xf, 4);
    assert_eq!(row.job_id >> 62 & 0x3, 2);
    let next_run = row.next_run_at.unwrap();
    assert!(before + 10 * NANOS_PER_SECOND <= next_run);
    assert!(next_run <= after + 10 * NANOS_PER_SECOND);
    let now = clock();
    assert!(DB::new().read(Some(store.visible.jobs.clone()), now, 0).unwrap().is_empty());
    let due = DB::new()
        .read(Some(store.visible.jobs.clone()), now, 15 * NANOS_PER_SECOND as u128)
        .unwrap();
    assert_eq!(due.len(), 1);
    assert_eq!(due[0].job_name, "job-X");
}

#[test]
fn insert_gives_each_job_its_own_identifier() {
    let mut store = Store::default();
    let first = DB::new().job(task_job("job-X", "@daily"));
    let second = DB::new().job(task_job("job-Y", "@daily"));
    assert_eq!(store.run(&mut first.insert(OWNER_TEXT).unwrap()), Ok(()));
    assert_eq!(store.run(&mut second.insert(OWNER_TEXT).unwrap()), Ok(()));
    assert_ne!(store.visible.jobs[0].job_id, store.visible.jobs[1].job_id);
    assert_ne!(first.job.gen_uuid(), first.job.gen_uuid());
}

#[test]
fn second_job_of_a_name_is_refused() {
    let mut store = Store::default();
    let db = DB::new().job(task_job("job-X", "@daily"));
    assert_eq!(store.run(&mut db.insert_at(OWNER, JOB_ID, 0).unwrap()), Ok(()));
    assert_eq!(
        store.run(&mut db.insert_at(OWNER, JOB_ID + 1, 0).unwrap()),
        Err(CrudError::Insertion)
    );
    assert_eq!(store.visible.jobs.len(), 1);
    assert_eq!(store.visible.tasks.len(), 1);
    assert_eq!(store.visible.jobs[0].job_id, JOB_ID);
    // another owner may use the name
    assert_eq!(store.run(&mut db.insert_at(OWNER + 1, JOB_ID + 2, 0).unwrap()), Ok(()));
    assert_eq!(store.visible.jobs.len(), 2);
    // and so may the first, once the job is deleted
    assert_eq!(store.run(&mut db.delete_of(OWNER)), Ok(()));
    assert_eq!(store.run(&mut db.insert_at(OWNER, JOB_ID + 3, 0).unwrap()), Ok(()));
    assert_eq!(store.visible.jobs.len(), 2);
}

#[test]
fn owner_must_spell_an_identifier() {
    let db = DB::new().job(task_job("job-X", "@every 10 sec"));
    for text in ["", "job-X", "67e55044-10b1-426f-9247-bb680e5fe0c", "67e55044 10b1 426f"] {
        assert_eq!(db.insert(text).err(), Some(CrudError::Validation), "{}", text);
        assert_eq!(db.delete(text.to_string()).err(), Some(CrudError::Validation), "{}", text);
    }
    assert!(db.insert("67E5504410B1426F9247BB680E5FE0C8").is_ok());
    let mut tx = db.delete("67e5504410b1426f9247bb680e5fe0c8".to_string()).unwrap();
    tx.advance(Outcome::Succeeded);
    assert!(matches!(
        tx.action(),
        Action::Execute(Statement::DeleteJob { user_id: OWNER, .. })
    ));
}

#[test]
fn delete_removes_job_and_payload_and_may_be_repeated() {
    let now = 1_000 * NANOS_PER_SECOND;
    let mut store = Store::default();
    let db = DB::new().job(task_job("job-X", "@every 10 sec"));
    assert_eq!(store.run(&mut db.insert_at(OWNER, JOB_ID, now).unwrap()), Ok(()));
    let other = DB::new().job(task_job("job-Y", "@every 10 sec"));
    assert_eq!(store.run(&mut other.insert_at(OWNER, JOB_ID + 1, now).unwrap()), Ok(()));
    let foreign = DB::new().job(task_job("job-X", "@every 10 sec"));
    assert_eq!(store.run(&mut foreign.insert_at(OWNER + 1, JOB_ID + 2, now).unwrap()), Ok(()));
    assert_eq!(store.visible.jobs.len(), 3);
    assert_eq!(store.visible.tasks.len(), 3);

    let mut tx = db.delete(OWNER_TEXT.to_string()).unwrap();
    assert_eq!(store.run(&mut tx), Ok(()));
    assert_eq!(store.performed, 3);
    let left: Vec<u128> = store.visible.jobs.iter().map(|row| row.job_id).collect();
    assert_eq!(left, vec![JOB_ID + 1, JOB_ID + 2]);
    let left: Vec<u128> = store.visible.tasks.iter().map(|row| row.0).collect();
    assert_eq!(left, vec![JOB_ID + 1, JOB_ID + 2]);

    let mut again = db.delete_of(OWNER);
    assert_eq!(store.run(&mut again), Ok(()));
    assert_eq!(store.visible.jobs.len(), 2);
    assert_eq!(store.visible.tasks.len(), 2);
}

#[test]
fn delete_of_a_job_that_is_not_there_succeeds() {
    let mut store = Store::default();
    let db = DB::new().job(task_job("nothing", "@daily"));
    assert_eq!(store.run(&mut db.delete_of(OWNER)), Ok(()));
    assert!(store.visible.jobs.is_empty());
}

#[test]
fn failed_delete_is_a_transaction_error_and_keeps_the_job() {
    let mut store = Store::default();
    let db = DB::new().job(task_job("job-X", "@every 10 sec"));
    assert_eq!(store.run(&mut db.insert_at(OWNER, JOB_ID, 0).unwrap()), Ok(()));
    for fail_at in [0, 1, 2] {
        store.fail_at = Some(fail_at);
        assert_eq!(
            store.run(&mut db.delete_of(OWNER)),
            Err(CrudError::Transaction),
            "{}",
            fail_at
        );
        assert_eq!(store.visible.jobs.len(), 1);
        assert_eq!(store.visible.tasks.len(), 1);
        assert!(store.pending.is_none());
    }
}

#[test]
fn transaction_without_statements_begins_and_commits() {
    let mut tx = Tx::new(Vec::new(), CrudError::Read);
    assert!(matches!(tx.action(), Action::Begin));
    tx.init(Outcome::Succeeded);
    assert!(matches!(tx.action(), Action::Commit));
    tx.commit(Outcome::Succeeded);
    assert_eq!(tx.result(), Some(Ok(())));
}

#[test]
fn transitions_apply_in_their_own_phase_only() {
    let statement = Statement::DeleteJob { user_id: OWNER, job_name: "j".to_string() };
    let mut tx = Tx::new(vec![statement.clone(), statement], CrudError::Read);
    tx.commit(Outcome::Succeeded);
    tx.rollback(Outcome::Succeeded);
    tx.execute(Outcome::Failed);
    assert!(matches!(tx.action(), Action::Begin));
    tx.init(Outcome::Succeeded);
    tx.init(Outcome::Failed);
    tx.commit(Outcome::Failed);
    assert!(matches!(tx.action(), Action::Execute(_)));
    tx.execute(Outcome::Succeeded);
    assert!(matches!(tx.action(), Action::Execute(_)));
    tx.execute(Outcome::Failed);
    assert!(matches!(tx.action(), Action::Rollback));
    tx.execute(Outcome::Succeeded);
    tx.commit(Outcome::Succeeded);
    assert!(matches!(tx.action(), Action::Rollback));
    tx.rollback(Outcome::Succeeded);
    assert_eq!(tx.result(), Some(Err(CrudError::Read)));
    tx.rollback(Outcome::Failed);
    tx.advance(Outcome::Succeeded);
    assert_eq!(tx.result(), Some(Err(CrudError::Read)));
}

#[test]
fn read_reports_a_store_that_could_not_be_read() {
    assert_eq!(DB::new().read(None, 0, 0).err(), Some(CrudError::Read));
    assert!(DB::new().read(Some(Vec::new()), 0, 0).unwrap().is_empty());
}
