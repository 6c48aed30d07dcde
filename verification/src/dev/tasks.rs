//! The task index: what a directory of task capsules holds, entry by entry,
//! and the refusals when the directory itself cannot be scanned.
use vstd::prelude::*;

use crate::dev::capsule::StatusResult;
use crate::text::{join_spec, owned, push_all, strs};

verus! {

/// The schema name of task index reports.
pub const TASK_INDEX_SCHEMA: &'static str = "task_index.v1";

/// What inspecting a path found, before anything in it was read.
#[derive(Clone, Debug)]
pub enum PathState {
    /// Nothing is there.
    Missing,
    /// Inspecting it failed with this error.
    Unreadable(String),
    /// It is a symbolic link.
    Symlink,
    /// It is something other than a directory.
    NotDirectory,
    /// It is a directory.
    Directory,
}

/// Why the task root `root` cannot be scanned, if it cannot.
pub open spec fn root_problem(root: Seq<char>, state: PathState) -> Option<Seq<char>> {
    match state {
        PathState::Missing => Some("task root does not exist: "@ + root),
        PathState::Unreadable(e) => Some("failed to inspect task root "@ + root + ": "@ + e@),
        PathState::Symlink => Some("refusing to scan symlinked task root: "@ + root),
        PathState::NotDirectory => Some("task root is not a directory: "@ + root),
        PathState::Directory => None,
    }
}

/// Why the task root `root` cannot be scanned (see [`root_problem`]).
pub fn task_root_problem(root: &str, state: &PathState) -> (r: Option<String>)
    ensures
        match root_problem(root@, *state) {
            Some(m) => r matches Some(x) && x@ == m,
            None => r is None,
        },
{
    let (prefix, detail) = match state {
        PathState::Missing => ("task root does not exist: ", None),
        PathState::Unreadable(e) => ("failed to inspect task root ", Some(e)),
        PathState::Symlink => ("refusing to scan symlinked task root: ", None),
        PathState::NotDirectory => ("task root is not a directory: ", None),
        PathState::Directory => return None,
    };
    let mut m = owned(prefix);
    push_all(&mut m, root);
    if let Some(e) = detail {
        push_all(&mut m, ": ");
        push_all(&mut m, e.as_str());
    }
    Some(m)
}

/// A task root a selector may be resolved against: `Ok` for a directory,
/// else the refusal (see [`root_problem`]).
pub fn validate_task_root_for_selector(root: &str, state: &PathState) -> (r: Result<(), String>)
    ensures
        match root_problem(root@, *state) {
            Some(m) => r matches Err(x) && x@ == m,
            None => r is Ok,
        },
{
    match task_root_problem(root, state) {
        Some(m) => Err(m),
        None => Ok(()),
    }
}

/// One entry of a task index.
#[derive(Clone, Debug)]
pub struct TaskIndexEntry {
    pub path: String,
    pub valid: bool,
    pub errors: Vec<String>,
    pub capsule: Option<StatusResult>,
}

/// What reading one entry of a task root found.
#[derive(Clone, Debug)]
pub enum TaskEntryProbe {
    /// Inspecting the entry failed with this error.
    Unreadable(String),
    /// The entry is a symbolic link.
    Symlink,
    /// The entry is not a directory.
    NotDirectory,
    /// Validating the capsule failed with this error.
    ValidationFailed(String),
    /// The capsule is invalid, with these errors.
    Invalid(Vec<String>),
    /// The capsule is valid, but reading its status failed with this error.
    StatusFailed(String),
    /// The capsule is valid, with this status.
    Valid(StatusResult),
}

/// The single error of an entry that cannot be indexed, if it has one.
pub open spec fn entry_error(path: Seq<char>, probe: TaskEntryProbe) -> Option<Seq<char>> {
    match probe {
        TaskEntryProbe::Unreadable(e) => Some("failed to inspect task entry: "@ + e@),
        TaskEntryProbe::Symlink => Some("refusing to scan symlinked task entry: "@ + path),
        TaskEntryProbe::NotDirectory => Some("task entry is not a directory: "@ + path),
        TaskEntryProbe::ValidationFailed(e) => Some(e@),
        TaskEntryProbe::StatusFailed(e) => Some(e@),
        _ => None,
    }
}

/// A list of one message.
fn single(m: String) -> (v: Vec<String>)
    ensures
        strs(v@) == seq![m@],
{
    let mut v: Vec<String> = Vec::new();
    v.push(m);
    assert(strs(v@) =~= seq![m@]);
    v
}

/// The index entry for the entry at `path`: valid with its status when the
/// capsule is valid and its status reads, else invalid with the errors found.
pub fn task_index_entry(path: &str, probe: TaskEntryProbe) -> (r: TaskIndexEntry)
    ensures
        r.path@ == path@,
        r.valid == probe is Valid,
        r.capsule == match probe {
            TaskEntryProbe::Valid(s) => Some(s),
            _ => None,
        },
        match probe {
            TaskEntryProbe::Invalid(es) => r.errors == es,
            TaskEntryProbe::Valid(_) => r.errors@.len() == 0,
            _ => strs(r.errors@) == seq![entry_error(path@, probe).unwrap()],
        },
{
    let (errors, capsule) = match probe {
        TaskEntryProbe::Unreadable(e) => {
            let mut m = owned("failed to inspect task entry: ");
            push_all(&mut m, e.as_str());
            (single(m), None)
        },
        TaskEntryProbe::Symlink => {
            let mut m = owned("refusing to scan symlinked task entry: ");
            push_all(&mut m, path);
            (single(m), None)
        },
        TaskEntryProbe::NotDirectory => {
            let mut m = owned("task entry is not a directory: ");
            push_all(&mut m, path);
            (single(m), None)
        },
        TaskEntryProbe::ValidationFailed(e) => (single(e), None),
        TaskEntryProbe::Invalid(es) => (es, None),
        TaskEntryProbe::StatusFailed(e) => (single(e), None),
        TaskEntryProbe::Valid(s) => (Vec::new(), Some(s)),
    };
    let valid = capsule.is_some();
    TaskIndexEntry { path: owned(path), valid, errors, capsule }
}

/// A task index report.
#[derive(Clone, Debug)]
pub struct TaskIndexReport {
    pub schema: String,
    pub root: String,
    pub total: u64,
    pub valid: u64,
    pub invalid: u64,
    pub diagnostics: Vec<String>,
    pub tasks: Vec<TaskIndexEntry>,
}

/// The number of valid entries.
pub open spec fn valid_count(tasks: Seq<TaskIndexEntry>) -> nat
    decreases tasks.len(),
{
    if tasks.len() == 0 {
        0
    } else {
        valid_count(tasks.drop_last()) + if tasks.last().valid { 1nat } else { 0nat }
    }
}

/// The valid entries never outnumber the entries.
pub proof fn lemma_valid_count_bounded(tasks: Seq<TaskIndexEntry>)
    ensures
        valid_count(tasks) <= tasks.len(),
    decreases tasks.len(),
{
    if tasks.len() > 0 {
        lemma_valid_count_bounded(tasks.drop_last());
    }
}

/// The report on the task root `root`: when it cannot be scanned, no tasks
/// and the refusal as its one diagnostic; else its entries (in the order the
/// caller sorted them), counted.
pub fn task_index_report(root: &str, state: &PathState, tasks: Vec<TaskIndexEntry>) -> (r: TaskIndexReport)
    ensures
        r.schema@ == TASK_INDEX_SCHEMA@,
        r.root@ == root@,
        match root_problem(root@, *state) {
            Some(m) => {
                &&& strs(r.diagnostics@) == seq![m]
                &&& r.tasks@.len() == 0 && r.total == 0 && r.valid == 0 && r.invalid == 0
            },
            None => {
                &&& r.diagnostics@.len() == 0
                &&& r.tasks == tasks
                &&& r.total == tasks@.len() && r.valid == valid_count(tasks@)
                &&& r.invalid == tasks@.len() - valid_count(tasks@)
            },
        },
{
    if let Some(m) = task_root_problem(root, state) {
        let mut diagnostics: Vec<String> = Vec::new();
        diagnostics.push(m);
        assert(strs(diagnostics@) =~= seq![root_problem(root@, *state).unwrap()]);
        return TaskIndexReport {
            schema: owned(TASK_INDEX_SCHEMA),
            root: owned(root),
            total: 0,
            valid: 0,
            invalid: 0,
            diagnostics,
            tasks: Vec::new(),
        };
    }
    let mut valid: u64 = 0;
    let mut i: usize = 0;
    assert(tasks@.take(0) =~= Seq::<TaskIndexEntry>::empty());
    while i < tasks.len()
        invariant
            i <= tasks@.len(),
            valid == valid_count(tasks@.take(i as int)),
            valid <= i,
        decreases tasks@.len() - i,
    {
        assert(tasks@.take(i + 1).drop_last() =~= tasks@.take(i as int));
        if tasks[i].valid {
            valid = valid + 1;
        }
        i = i + 1;
    }
    assert(tasks@.take(tasks@.len() as int) =~= tasks@);
    let total = tasks.len() as u64;
    TaskIndexReport {
        schema: owned(TASK_INDEX_SCHEMA),
        root: owned(root),
        total,
        valid,
        invalid: total - valid,
        diagnostics: Vec::new(),
        tasks,
    }
}

/// The refusal to export the entry `task` when it is invalid: its path and
/// errors joined with `; `.
pub fn task_export_check(task: &TaskIndexEntry) -> (r: Result<(), String>)
    ensures
        task.valid ==> r is Ok,
        !task.valid ==> (r matches Err(m) && m@ == "invalid task capsule at "@ + task.path@ + ": "@
            + join_spec(strs(task.errors@), "; "@)),
{
    if task.valid {
        return Ok(());
    }
    let mut m = owned("invalid task capsule at ");
    push_all(&mut m, task.path.as_str());
    push_all(&mut m, ": ");
    push_all(&mut m, crate::text::join_strings(&task.errors, "; ").as_str());
    Err(m)
}

} // verus!
