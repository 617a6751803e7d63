//! Job descriptions and their payloads.
//!
//! A description names a job, states its schedule and carries exactly one
//! payload: a task, a piece of code or a binary.

use crate::ident::{is_version4, new_v4};
use vstd::prelude::*;
use vstd::string::StringExecFns;

verus! {

/// A reference to a named, registered unit of work.
#[derive(Debug, Clone)]
pub struct Task {
    pub name: String,
}

/// Source code with the command that runs it.
#[derive(Debug, Clone)]
pub struct Code {
    /// The source, base64-encoded.
    pub src: String,
    pub lang: String,
    pub cmd: String,
}

/// A reference to a binary.
#[derive(Debug, Clone)]
pub struct Bin {
    pub path: String,
    pub cmd: Option<String>,
}

/// The payload of a job, one of three kinds.
#[derive(Debug, Clone)]
pub enum Payload {
    Task(Task),
    Code(Code),
    Bin(Bin),
}

/// A job as its owner describes it.
#[derive(Debug, Clone)]
pub struct Job {
    pub name: String,
    pub description: Option<String>,
    pub schedule: Option<String>,
    pub task: Option<Task>,
    pub code: Option<Code>,
    pub bin: Option<Bin>,
}

/// The kind of a job's payload.
#[derive(Debug, Clone, Copy, PartialEq, Eq, Structural)]
pub enum JobType {
    Bin,
    Code,
    /// No payload at all.
    Invalid,
    Task,
}

/// Whether a job may run.
#[derive(Debug, Clone, Copy, PartialEq, Eq, Structural)]
pub enum JobStatus {
    Running,
    Scheduled,
    Disabled,
}

/// What a `Task` holds.
pub struct TaskView {
    pub name: Seq<char>,
}

/// What a `Code` holds.
pub struct CodeView {
    pub src: Seq<char>,
    pub lang: Seq<char>,
    pub cmd: Seq<char>,
}

/// What a `Bin` holds.
pub struct BinView {
    pub path: Seq<char>,
    pub cmd: Option<Seq<char>>,
}

/// What a `Payload` holds.
pub enum PayloadView {
    Task(TaskView),
    Code(CodeView),
    Bin(BinView),
}

/// What a `Job` holds.
pub struct JobView {
    pub name: Seq<char>,
    pub description: Option<Seq<char>>,
    pub schedule: Option<Seq<char>>,
    pub task: Option<TaskView>,
    pub code: Option<CodeView>,
    pub bin: Option<BinView>,
}

/// The characters of an optional text.
pub open spec fn text_view(text: Option<String>) -> Option<Seq<char>> {
    match text {
        Some(text) => Some(text@),
        None => None,
    }
}

/// A copy of an optional text.
pub fn clone_text(text: &Option<String>) -> (r: Option<String>)
    ensures
        text_view(r) == text_view(*text),
{
    match text {
        Some(text) => Some(text.clone()),
        None => None,
    }
}

impl View for Task {
    type V = TaskView;

    open spec fn view(&self) -> TaskView {
        TaskView { name: self.name@ }
    }
}

impl View for Code {
    type V = CodeView;

    open spec fn view(&self) -> CodeView {
        CodeView { src: self.src@, lang: self.lang@, cmd: self.cmd@ }
    }
}

impl View for Bin {
    type V = BinView;

    open spec fn view(&self) -> BinView {
        BinView { path: self.path@, cmd: text_view(self.cmd) }
    }
}

impl View for Payload {
    type V = PayloadView;

    open spec fn view(&self) -> PayloadView {
        match self {
            Payload::Task(task) => PayloadView::Task(task@),
            Payload::Code(code) => PayloadView::Code(code@),
            Payload::Bin(bin) => PayloadView::Bin(bin@),
        }
    }
}

impl View for Job {
    type V = JobView;

    open spec fn view(&self) -> JobView {
        JobView {
            name: self.name@,
            description: text_view(self.description),
            schedule: text_view(self.schedule),
            task: match self.task {
                Some(task) => Some(task@),
                None => None,
            },
            code: match self.code {
                Some(code) => Some(code@),
                None => None,
            },
            bin: match self.bin {
                Some(bin) => Some(bin@),
                None => None,
            },
        }
    }
}

impl Task {
    /// A copy of the task.
    pub fn copy(&self) -> (r: Task)
        ensures
            r@ == self@,
    {
        Task { name: self.name.clone() }
    }
}

impl Code {
    /// A copy of the code.
    pub fn copy(&self) -> (r: Code)
        ensures
            r@ == self@,
    {
        Code { src: self.src.clone(), lang: self.lang.clone(), cmd: self.cmd.clone() }
    }
}

impl Bin {
    /// A copy of the binary's reference.
    pub fn copy(&self) -> (r: Bin)
        ensures
            r@ == self@,
    {
        Bin { path: self.path.clone(), cmd: clone_text(&self.cmd) }
    }
}

impl PayloadView {
    /// The kind of the payload.
    pub open spec fn kind(self) -> JobType {
        match self {
            PayloadView::Task(_) => JobType::Task,
            PayloadView::Code(_) => JobType::Code,
            PayloadView::Bin(_) => JobType::Bin,
        }
    }
}

impl JobView {
    /// The kind of the first payload that is present: a task before code, code
    /// before a binary.
    pub open spec fn kind(self) -> JobType {
        if self.task is Some {
            JobType::Task
        } else if self.code is Some {
            JobType::Code
        } else if self.bin is Some {
            JobType::Bin
        } else {
            JobType::Invalid
        }
    }

    /// The payload, where exactly one is present.
    pub open spec fn payload(self) -> Option<PayloadView> {
        match (self.task, self.code, self.bin) {
            (Some(task), None, None) => Some(PayloadView::Task(task)),
            (None, Some(code), None) => Some(PayloadView::Code(code)),
            (None, None, Some(bin)) => Some(PayloadView::Bin(bin)),
            _ => None,
        }
    }
}

impl Default for Job {
    /// A description with an empty name and nothing else.
    fn default() -> (r: Job)
        ensures
            r@ == Job::default_view(),
    {
        Job {
            name: String::new(),
            description: None,
            schedule: None,
            task: None,
            code: None,
            bin: None,
        }
    }
}

impl Job {
    /// What the empty description holds: an empty name and nothing else.
    pub open spec fn default_view() -> JobView {
        JobView {
            name: Seq::<char>::empty(),
            description: None,
            schedule: None,
            task: None,
            code: None,
            bin: None,
        }
    }

    /// A fresh random identifier for the job.
    pub fn gen_uuid(&self) -> (id: u128)
        ensures
            is_version4(id),
    {
        new_v4()
    }

    /// The kind of the first payload that is present.
    pub fn kind(&self) -> (r: JobType)
        ensures
            r == self@.kind(),
    {
        if self.task.is_some() {
            return JobType::Task;
        } else if self.code.is_some() {
            return JobType::Code;
        } else if self.bin.is_some() {
            return JobType::Bin;
        }
        JobType::Invalid
    }

    /// The payload, where the description carries exactly one.
    pub fn payload(&self) -> (r: Option<Payload>)
        ensures
            match r {
                Some(payload) => self@.payload() == Some(payload@),
                None => self@.payload() is None,
            },
    {
        match (&self.task, &self.code, &self.bin) {
            (Some(task), None, None) => Some(Payload::Task(task.copy())),
            (None, Some(code), None) => Some(Payload::Code(code.copy())),
            (None, None, Some(bin)) => Some(Payload::Bin(bin.copy())),
            _ => None,
        }
    }
}

impl JobType {
    /// The name of the kind as the store spells it.
    pub open spec fn name(self) -> Seq<char> {
        match self {
            JobType::Bin => "bin"@,
            JobType::Code => "code"@,
            JobType::Invalid => "invalid"@,
            JobType::Task => "task"@,
        }
    }

    /// The name of the kind as the store spells it.
    pub fn to_string(&self) -> (r: String)
        ensures
            r@ == self.name(),
    {
        match *self {
            JobType::Bin => String::from_str("bin"),
            JobType::Code => String::from_str("code"),
            JobType::Invalid => String::from_str("invalid"),
            JobType::Task => String::from_str("task"),
        }
    }
}

impl Default for JobType {
    fn default() -> (r: JobType)
        ensures
            r == JobType::Invalid,
    {
        JobType::Invalid
    }
}

impl Default for JobStatus {
    fn default() -> (r: JobStatus)
        ensures
            r == JobStatus::Disabled,
    {
        JobStatus::Disabled
    }
}

} // verus!
