use vstd::prelude::*;

use crate::error::TaskError;
use crate::manager::{
    has_id, marked, redescribed, rename_outcome, retitled, row_with_id, update_outcome, TaskManager,
};

verus! {

/// The closed set of states a task moves through.
#[derive(Clone, Copy, Debug, PartialEq, Eq, Structural)]
pub enum TaskStatus {
    Undone,
    Underway,
    Done,
}

/// The lowercase text under which a status is stored.
pub open spec fn status_text(s: TaskStatus) -> Seq<char> {
    match s {
        TaskStatus::Undone => seq!['u', 'n', 'd', 'o', 'n', 'e'],
        TaskStatus::Underway => seq!['u', 'n', 'd', 'e', 'r', 'w', 'a', 'y'],
        TaskStatus::Done => seq!['d', 'o', 'n', 'e'],
    }
}

/// The status whose stored text is `t`, if any.
pub open spec fn status_from_text(t: Seq<char>) -> Option<TaskStatus> {
    if t == status_text(TaskStatus::Undone) {
        Some(TaskStatus::Undone)
    } else if t == status_text(TaskStatus::Underway) {
        Some(TaskStatus::Underway)
    } else if t == status_text(TaskStatus::Done) {
        Some(TaskStatus::Done)
    } else {
        None
    }
}

/// True when `t` is the stored text of some status.
pub open spec fn is_status_text(t: Seq<char>) -> bool {
    status_from_text(t) is Some
}

impl TaskStatus {
    /// The stored text of this status.
    pub fn as_str(&self) -> (r: &'static str)
        ensures
            r@ == status_text(*self),
    {
        match self {
            TaskStatus::Undone => {
                proof {
                    reveal_strlit("undone");
                }
                "undone"
            },
            TaskStatus::Underway => {
                proof {
                    reveal_strlit("underway");
                }
                "underway"
            },
            TaskStatus::Done => {
                proof {
                    reveal_strlit("done");
                }
                "done"
            },
        }
    }

    /// Reads a status from its stored text; any other text is refused.
    pub fn parse(text: &str) -> (r: Result<TaskStatus, TaskError>)
        ensures
            r == match status_from_text(text@) {
                Some(s) => Ok(s),
                None => Err(TaskError::InvalidStatus),
            },
    {
        let t = text.to_owned();
        let candidates = [TaskStatus::Undone, TaskStatus::Underway, TaskStatus::Done];
        let mut i: usize = 0;
        while i < 3
            invariant
                i <= 3,
                t@ == text@,
                candidates@ == seq![TaskStatus::Undone, TaskStatus::Underway, TaskStatus::Done],
                forall|j: int| 0 <= j < i ==> status_text(#[trigger] candidates@[j]) != text@,
            decreases 3 - i,
        {
            let s = candidates[i];
            if s.as_str().to_owned() == t {
                return Ok(s);
            }
            i = i + 1;
        }
        assert(status_text(candidates@[0]) != text@);
        assert(status_text(candidates@[1]) != text@);
        assert(status_text(candidates@[2]) != text@);
        Err(TaskError::InvalidStatus)
    }
}

impl std::str::FromStr for TaskStatus {
    type Err = TaskError;

    fn from_str(s: &str) -> Result<TaskStatus, TaskError> {
        TaskStatus::parse(s)
    }
}

/// One row of the task table: its id, title, description and status.
///
/// Rows live inside a `TaskManager`; callers reach them through `Task`
/// handles.
#[derive(Debug)]
pub struct TaskRow {
    id: u64,
    title: String,
    description: String,
    status: TaskStatus,
}

/// The mathematical content of a row.
pub ghost struct TaskView {
    pub id: u64,
    pub title: Seq<char>,
    pub description: Seq<char>,
    pub status: TaskStatus,
}

impl View for TaskRow {
    type V = TaskView;

    closed spec fn view(&self) -> TaskView {
        TaskView {
            id: self.id,
            title: self.title@,
            description: self.description@,
            status: self.status,
        }
    }
}

/// The line under which a task is shown: `[status] title: description`,
/// without the `: description` part when the description is empty.
pub open spec fn task_line(t: TaskView) -> Seq<char> {
    let head = seq!['['] + status_text(t.status) + seq![']', ' '] + t.title;
    if t.description.len() == 0 {
        head
    } else {
        head + seq![':', ' '] + t.description
    }
}

impl TaskRow {
    /// A row with the given fields.
    pub(crate) fn new_row(id: u64, title: String, description: String, status: TaskStatus) -> (r:
        TaskRow)
        ensures
            r@ == (TaskView { id, title: title@, description: description@, status }),
    {
        TaskRow { id, title, description, status }
    }

    /// An independent copy of this row.
    pub(crate) fn copy(&self) -> (r: TaskRow)
        ensures
            r@ == self@,
    {
        TaskRow {
            id: self.id,
            title: self.title.clone(),
            description: self.description.clone(),
            status: self.status,
        }
    }

    /// Whether the row is titled `title`.
    pub(crate) fn has_title(&self, title: &String) -> (r: bool)
        ensures
            r == (self@.title == title@),
    {
        self.title == *title
    }

    /// The row's id.
    pub(crate) fn id(&self) -> (r: u64)
        ensures
            r == self@.id,
    {
        self.id
    }

    /// The row's title.
    pub(crate) fn title(&self) -> (r: String)
        ensures
            r@ == self@.title,
    {
        self.title.clone()
    }

    /// The row's description.
    pub(crate) fn description(&self) -> (r: String)
        ensures
            r@ == self@.description,
    {
        self.description.clone()
    }

    /// The row's status.
    pub(crate) fn status(&self) -> (r: TaskStatus)
        ensures
            r == self@.status,
    {
        self.status
    }

    /// The row with its title replaced.
    pub(crate) fn retitle(&mut self, title: String)
        ensures
            final(self)@ == (TaskView { title: title@, ..old(self)@ }),
    {
        self.title = title;
    }

    /// The row with its description replaced.
    pub(crate) fn redescribe(&mut self, description: String)
        ensures
            final(self)@ == (TaskView { description: description@, ..old(self)@ }),
    {
        self.description = description;
    }

    /// The row with its status replaced.
    pub(crate) fn restate(&mut self, status: TaskStatus)
        ensures
            final(self)@ == (TaskView { status, ..old(self)@ }),
    {
        self.status = status;
    }

    /// The line under which the row is listed.
    pub(crate) fn line(&self) -> (r: String)
        ensures
            r@ == task_line(self@),
    {
        let mut line = String::from_str("[");
        line.append(self.status.as_str());
        line.append("] ");
        line.append(self.title.as_str());
        if self.description.as_str().unicode_len() > 0 {
            line.append(": ");
            line.append(self.description.as_str());
        }
        proof {
            reveal_strlit("[");
            reveal_strlit("] ");
            reveal_strlit(": ");
        }
        assert(line@ =~= task_line(self@));
        line
    }
}

/// A handle to a task: the id of its row.
///
/// The handle holds no copy of the task. Every read and write looks the row
/// up again in the `TaskManager` it is given, and fails with `NotFound` once
/// the row is gone.
#[derive(Clone, Copy, Debug, PartialEq, Eq, Structural)]
pub struct Task {
    id: u64,
}

impl View for Task {
    type V = u64;

    closed spec fn view(&self) -> u64 {
        self.id
    }
}

impl Task {
    /// The handle of the task with id `id` in `manager`; `NotFound` when no
    /// task has that id.
    pub fn from(manager: &TaskManager, id: u64) -> (r: Result<Task, TaskError>)
        requires
            manager.wf(),
        ensures
            r is Ok <==> has_id(manager.rows(), id),
            r matches Ok(t) ==> t@ == id,
            r matches Err(e) ==> e == TaskError::NotFound,
    {
        match manager.position_of_id(id) {
            Some(_) => Ok(Task { id }),
            None => Err(TaskError::NotFound),
        }
    }

    /// The handle of the row with id `id`, which the caller has found.
    pub(crate) fn of_id(id: u64) -> (r: Task)
        ensures
            r@ == id,
    {
        Task { id }
    }

    /// The id of the task's row.
    pub fn get_id(&self) -> (r: u64)
        ensures
            r == self@,
    {
        self.id
    }

    /// The task's current title in `manager`; `NotFound` when the task is
    /// gone.
    pub fn get_title(&self, manager: &TaskManager) -> (r: Result<String, TaskError>)
        requires
            manager.wf(),
        ensures
            r is Ok <==> has_id(manager.rows(), self@),
            r matches Ok(t) ==> t@ == row_with_id(manager.rows(), self@).title,
            r matches Err(e) ==> e == TaskError::NotFound,
    {
        match manager.position_of_id(self.id) {
            Some(i) => Ok(manager.tasks[i].title()),
            None => Err(TaskError::NotFound),
        }
    }

    /// The task's current description in `manager`; `NotFound` when the task
    /// is gone.
    pub fn get_description(&self, manager: &TaskManager) -> (r: Result<String, TaskError>)
        requires
            manager.wf(),
        ensures
            r is Ok <==> has_id(manager.rows(), self@),
            r matches Ok(d) ==> d@ == row_with_id(manager.rows(), self@).description,
            r matches Err(e) ==> e == TaskError::NotFound,
    {
        match manager.position_of_id(self.id) {
            Some(i) => Ok(manager.tasks[i].description()),
            None => Err(TaskError::NotFound),
        }
    }

    /// The task's current status in `manager`; `NotFound` when the task is
    /// gone.
    pub fn get_status(&self, manager: &TaskManager) -> (r: Result<TaskStatus, TaskError>)
        requires
            manager.wf(),
        ensures
            r is Ok <==> has_id(manager.rows(), self@),
            r matches Ok(s) ==> s == row_with_id(manager.rows(), self@).status,
            r matches Err(e) ==> e == TaskError::NotFound,
    {
        match manager.position_of_id(self.id) {
            Some(i) => Ok(manager.tasks[i].status()),
            None => Err(TaskError::NotFound),
        }
    }

    /// The line under which the task is currently listed in `manager`;
    /// `NotFound` when the task is gone.
    pub fn to_line(&self, manager: &TaskManager) -> (r: Result<String, TaskError>)
        requires
            manager.wf(),
        ensures
            r is Ok <==> has_id(manager.rows(), self@),
            r matches Ok(l) ==> l@ == task_line(row_with_id(manager.rows(), self@)),
            r matches Err(e) ==> e == TaskError::NotFound,
    {
        match manager.position_of_id(self.id) {
            Some(i) => Ok(manager.tasks[i].line()),
            None => Err(TaskError::NotFound),
        }
    }

    /// Renames the task in `manager`.
    ///
    /// Fails with `NotFound` when the task is gone, and with `DuplicateTitle`
    /// when another task holds the title; the table is then unchanged.
    pub fn set_title(&self, manager: &mut TaskManager, title: &str) -> (r: Result<(), TaskError>)
        requires
            old(manager).wf(),
        ensures
            final(manager).wf(),
            final(manager).next_id() == old(manager).next_id(),
            r == rename_outcome(old(manager).rows(), self@, title@),
            r is Ok ==> final(manager).rows() == retitled(old(manager).rows(), self@, title@),
            r is Err ==> final(manager).rows() == old(manager).rows(),
    {
        manager.rename_task(self.id, title)
    }

    /// Replaces the task's description in `manager`; `NotFound`, with the
    /// table unchanged, when the task is gone.
    pub fn set_description(&self, manager: &mut TaskManager, description: &str) -> (r: Result<
        (),
        TaskError,
    >)
        requires
            old(manager).wf(),
        ensures
            final(manager).wf(),
            final(manager).next_id() == old(manager).next_id(),
            r == update_outcome(old(manager).rows(), self@),
            r is Ok ==> final(manager).rows() == redescribed(old(manager).rows(), self@, description@),
            r is Err ==> final(manager).rows() == old(manager).rows(),
    {
        manager.describe_task(self.id, description)
    }

    /// Replaces the task's status in `manager`; `NotFound`, with the table
    /// unchanged, when the task is gone.
    pub fn set_status(&self, manager: &mut TaskManager, status: &TaskStatus) -> (r: Result<
        (),
        TaskError,
    >)
        requires
            old(manager).wf(),
        ensures
            final(manager).wf(),
            final(manager).next_id() == old(manager).next_id(),
            r == update_outcome(old(manager).rows(), self@),
            r is Ok ==> final(manager).rows() == marked(old(manager).rows(), self@, *status),
            r is Err ==> final(manager).rows() == old(manager).rows(),
    {
        manager.mark_task(self.id, *status)
    }
}

} // verus!
