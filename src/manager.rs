pub mod task;

use vstd::prelude::*;

use crate::error::TaskError;
use task::{is_status_text, status_from_text, Task, TaskRow, TaskStatus, TaskView};

verus! {

/// The views of a sequence of rows, in the same order.
pub open spec fn views(ts: Seq<TaskRow>) -> Seq<TaskView> {
    ts.map_values(|t: TaskRow| t@)
}

/// The ids of a sequence of rows, in the same order.
pub open spec fn ids(rows: Seq<TaskView>) -> Seq<u64> {
    rows.map_values(|t: TaskView| t.id)
}

/// The ids that a sequence of handles names, in the same order.
pub open spec fn handle_ids(ts: Seq<Task>) -> Seq<u64> {
    ts.map_values(|t: Task| t@)
}

/// Some row of `rows` is titled `title`.
pub open spec fn has_title(rows: Seq<TaskView>, title: Seq<char>) -> bool {
    exists|i: int| 0 <= i < rows.len() && #[trigger] rows[i].title == title
}

/// Some row of `rows` has the id `id`.
pub open spec fn has_id(rows: Seq<TaskView>, id: u64) -> bool {
    exists|i: int| 0 <= i < rows.len() && #[trigger] rows[i].id == id
}

/// The row with id `id` (unique in a well-formed table).
pub open spec fn row_with_id(rows: Seq<TaskView>, id: u64) -> TaskView {
    rows[choose|i: int| 0 <= i < rows.len() && rows[i].id == id]
}

/// Some row other than the one with id `id` is titled `title`.
pub open spec fn title_taken_by_other(rows: Seq<TaskView>, id: u64, title: Seq<char>) -> bool {
    exists|i: int| 0 <= i < rows.len() && #[trigger] rows[i].title == title && rows[i].id != id
}

/// The invariant of the task table: rows in creation order (increasing ids),
/// every id below the next one to be handed out and never zero, and no two
/// rows with one title.
pub open spec fn table_wf(rows: Seq<TaskView>, next_id: u64) -> bool {
    &&& 1 <= next_id
    &&& forall|i: int, j: int|
        #![trigger rows[i], rows[j]]
        0 <= i < j < rows.len() ==> rows[i].id < rows[j].id
    &&& forall|i: int| 0 <= i < rows.len() ==> 1 <= #[trigger] rows[i].id < next_id
    &&& forall|i: int, j: int|
        #![trigger rows[i], rows[j]]
        0 <= i < rows.len() && 0 <= j < rows.len() && i != j ==> rows[i].title != rows[j].title
}

/// The row that a successful create appends.
pub open spec fn created_row(id: u64, title: Seq<char>, description: Seq<char>) -> TaskView {
    TaskView { id, title, description, status: TaskStatus::Undone }
}

/// What a create of `title` returns on the table `rows`.
pub open spec fn create_outcome(rows: Seq<TaskView>, next_id: u64, title: Seq<char>) -> Result<
    (),
    TaskError,
> {
    if has_title(rows, title) {
        Err(TaskError::DuplicateTitle)
    } else if next_id == u64::MAX {
        Err(TaskError::StorageUnavailable)
    } else {
        Ok(())
    }
}

/// The rows whose status is `s`, in table order.
pub open spec fn with_status(rows: Seq<TaskView>, s: TaskStatus) -> Seq<TaskView> {
    rows.filter(|t: TaskView| t.status == s)
}

/// The rows not titled `title`, in table order.
pub open spec fn without_title(rows: Seq<TaskView>, title: Seq<char>) -> Seq<TaskView> {
    rows.filter(|t: TaskView| t.title != title)
}

/// The rows whose status is not `Done`, in table order.
pub open spec fn without_done(rows: Seq<TaskView>) -> Seq<TaskView> {
    rows.filter(|t: TaskView| t.status != TaskStatus::Done)
}

/// A listing: with a filter, the rows with that status; without one, every
/// row, grouped as `Underway`, then `Undone`, then `Done`, each group in
/// creation order.
pub open spec fn listing(rows: Seq<TaskView>, filter: Option<TaskStatus>) -> Seq<TaskView> {
    match filter {
        Some(s) => with_status(rows, s),
        None => with_status(rows, TaskStatus::Underway) + with_status(rows, TaskStatus::Undone)
            + with_status(rows, TaskStatus::Done),
    }
}

/// The status a borrowed filter selects, if any.
pub open spec fn chosen(filter: Option<&TaskStatus>) -> Option<TaskStatus> {
    match filter {
        Some(s) => Some(*s),
        None => None,
    }
}

/// The table after the row with id `id` is retitled `title`.
pub open spec fn retitled(rows: Seq<TaskView>, id: u64, title: Seq<char>) -> Seq<TaskView> {
    rows.map_values(|t: TaskView| if t.id == id { TaskView { title, ..t } } else { t })
}

/// The table after the row with id `id` gets the description `description`.
pub open spec fn redescribed(rows: Seq<TaskView>, id: u64, description: Seq<char>) -> Seq<
    TaskView,
> {
    rows.map_values(|t: TaskView| if t.id == id { TaskView { description, ..t } } else { t })
}

/// The table after the row with id `id` is marked `status`.
pub open spec fn marked(rows: Seq<TaskView>, id: u64, status: TaskStatus) -> Seq<TaskView> {
    rows.map_values(|t: TaskView| if t.id == id { TaskView { status, ..t } } else { t })
}

/// What renaming the row with id `id` to `title` returns.
pub open spec fn rename_outcome(rows: Seq<TaskView>, id: u64, title: Seq<char>) -> Result<
    (),
    TaskError,
> {
    if !has_id(rows, id) {
        Err(TaskError::NotFound)
    } else if title_taken_by_other(rows, id, title) {
        Err(TaskError::DuplicateTitle)
    } else {
        Ok(())
    }
}

/// What an update of a field of the row with id `id` returns, other than a
/// rename.
pub open spec fn update_outcome(rows: Seq<TaskView>, id: u64) -> Result<(), TaskError> {
    if has_id(rows, id) {
        Ok(())
    } else {
        Err(TaskError::NotFound)
    }
}

/// What restoring a stored row returns: `InvalidStatus` for an unknown
/// status text, `StorageUnavailable` for a row that would break the table's
/// invariant (an id of zero, the largest id, an id not above the last row's,
/// or a title already present).
pub open spec fn restore_outcome(
    rows: Seq<TaskView>,
    id: u64,
    title: Seq<char>,
    status: Seq<char>,
) -> Result<(), TaskError> {
    if !is_status_text(status) {
        Err(TaskError::InvalidStatus)
    } else if id == 0 || id == u64::MAX || (rows.len() > 0 && id <= rows.last().id) || has_title(
        rows,
        title,
    ) {
        Err(TaskError::StorageUnavailable)
    } else {
        Ok(())
    }
}

/// Removing rows keeps the table's invariant.
proof fn lemma_filter_keeps_wf(rows: Seq<TaskView>, next_id: u64, p: spec_fn(TaskView) -> bool)
    requires
        table_wf(rows, next_id),
    ensures
        table_wf(rows.filter(p), next_id),
    decreases rows.len(),
{
    reveal(Seq::filter);
    if rows.len() > 0 {
        let rest = rows.drop_last();
        let last = rows.last();
        assert(table_wf(rest, next_id)) by {
            assert forall|i: int, j: int| 0 <= i < j < rest.len() implies rest[i].id < rest[j].id by {
                assert(rest[i] == rows[i] && rest[j] == rows[j]);
            }
            assert forall|i: int, j: int|
                0 <= i < rest.len() && 0 <= j < rest.len() && i != j implies rest[i].title
                != rest[j].title by {
                assert(rest[i] == rows[i] && rest[j] == rows[j]);
            }
            assert forall|i: int| 0 <= i < rest.len() implies 1 <= #[trigger] rest[i].id
                < next_id by {
                assert(rest[i] == rows[i]);
            }
        }
        lemma_filter_keeps_wf(rest, next_id, p);
        let sub = rest.filter(p);
        if p(last) {
            let out = sub.push(last);
            assert forall|k: int| 0 <= k < sub.len() implies sub[k].id < last.id && sub[k].title
                != last.title by {
                rest.lemma_filter_contains_rev(p, sub[k]);
                let j = choose|j: int| 0 <= j < rest.len() && rest[j] == sub[k];
                assert(rows[j] == rest[j]);
                assert(rows[rows.len() - 1] == last);
            }
            assert(table_wf(out, next_id)) by {
                assert forall|i: int, j: int| 0 <= i < j < out.len() implies out[i].id
                    < out[j].id by {
                    if j == out.len() - 1 {
                        assert(out[i] == sub[i]);
                    } else {
                        assert(out[i] == sub[i] && out[j] == sub[j]);
                    }
                }
                assert forall|i: int, j: int|
                    0 <= i < out.len() && 0 <= j < out.len() && i != j implies out[i].title
                    != out[j].title by {
                    if i < sub.len() {
                        assert(out[i] == sub[i]);
                    }
                    if j < sub.len() {
                        assert(out[j] == sub[j]);
                    }
                }
                assert forall|i: int| 0 <= i < out.len() implies 1 <= #[trigger] out[i].id
                    < next_id by {
                    if i < sub.len() {
                        assert(out[i] == sub[i]);
                    } else {
                        assert(rows[rows.len() - 1] == last);
                    }
                }
            }
        }
    }
}

/// The durable table of tasks, as one invocation sees it.
///
/// Rows are kept in creation order; each has a unique title and an id that
/// is never handed out twice by this table.
#[derive(Debug)]
pub struct TaskManager {
    tasks: Vec<TaskRow>,
    next_id: u64,
}

impl TaskManager {
    /// The rows of the table, in creation order.
    pub closed spec fn rows(&self) -> Seq<TaskView> {
        views(self.tasks@)
    }

    /// The id the next created task receives.
    pub closed spec fn next_id(&self) -> u64 {
        self.next_id
    }

    /// The table's invariant holds.
    pub open spec fn wf(&self) -> bool {
        table_wf(self.rows(), self.next_id())
    }

    /// An empty table whose first task gets id 1.
    pub fn new() -> (r: TaskManager)
        ensures
            r.wf(),
            r.rows() == Seq::<TaskView>::empty(),
            r.next_id() == 1,
    {
        let r = TaskManager { tasks: Vec::new(), next_id: 1 };
        assert(r.rows() =~= Seq::<TaskView>::empty());
        r
    }

    /// An empty table that has already handed out the ids up to `last_id`.
    /// `StorageUnavailable` when no id is left after `last_id`.
    pub fn starting_after(last_id: u64) -> (r: Result<TaskManager, TaskError>)
        ensures
            r is Err <==> last_id == u64::MAX,
            r matches Err(e) ==> e == TaskError::StorageUnavailable,
            r matches Ok(m) ==> m.wf() && m.rows() == Seq::<TaskView>::empty() && m.next_id()
                == last_id + 1,
    {
        if last_id == u64::MAX {
            return Err(TaskError::StorageUnavailable);
        }
        let r = TaskManager { tasks: Vec::new(), next_id: last_id + 1 };
        assert(r.rows() =~= Seq::<TaskView>::empty());
        Ok(r)
    }

    /// The largest id this table has handed out, or 0 when none.
    pub fn last_issued_id(&self) -> (r: u64)
        requires
            self.wf(),
        ensures
            r == self.next_id() - 1,
    {
        self.next_id - 1
    }

    /// Appends a row read back from storage, after the rows read so far.
    ///
    /// The status is decoded from its stored text. Fails, with the table
    /// unchanged, as `restore_outcome` says; on success the next id is kept
    /// above the restored one.
    pub fn restore_task(&mut self, id: u64, title: &str, description: &str, status: &str) -> (r:
        Result<(), TaskError>)
        requires
            old(self).wf(),
        ensures
            final(self).wf(),
            r == restore_outcome(old(self).rows(), id, title@, status@),
            r is Ok ==> final(self).rows() == old(self).rows().push(
                TaskView {
                    id,
                    title: title@,
                    description: description@,
                    status: status_from_text(status@)->0,
                },
            ),
            r is Ok ==> final(self).next_id() == if id < old(self).next_id() {
                old(self).next_id()
            } else {
                (id + 1) as u64
            },
            r is Err ==> final(self).rows() == old(self).rows() && final(self).next_id()
                == old(self).next_id(),
    {
        let s = match TaskStatus::parse(status) {
            Ok(s) => s,
            Err(e) => return Err(e),
        };
        let title = title.to_owned();
        if id == 0 || id == u64::MAX {
            return Err(TaskError::StorageUnavailable);
        }
        let n = self.tasks.len();
        if n > 0 && id <= self.tasks[n - 1].id() {
            return Err(TaskError::StorageUnavailable);
        }
        if self.position_of_title(&title).is_some() {
            return Err(TaskError::StorageUnavailable);
        }
        let row = TaskRow::new_row(id, title, description.to_owned(), s);
        let ghost before = self.rows();
        self.tasks.push(row);
        if id >= self.next_id {
            self.next_id = id + 1;
        }
        assert(self.rows() =~= before.push(
            TaskView { id, title: title@, description: description@, status: s },
        ));
        Ok(())
    }

    /// Creates a task titled `title` with status `Undone` and the next id.
    ///
    /// Fails with `DuplicateTitle` when the title is taken, and with
    /// `StorageUnavailable` when the ids are exhausted; the table is then
    /// unchanged.
    pub fn add_new_task(&mut self, title: &str, description: &str) -> (r: Result<(), TaskError>)
        requires
            old(self).wf(),
        ensures
            final(self).wf(),
            r == create_outcome(old(self).rows(), old(self).next_id(), title@),
            r is Ok ==> final(self).rows() == old(self).rows().push(
                created_row(old(self).next_id(), title@, description@),
            ) && final(self).next_id() == old(self).next_id() + 1,
            r is Err ==> final(self).rows() == old(self).rows() && final(self).next_id()
                == old(self).next_id(),
    {
        let title = title.to_owned();
        if let Some(_) = self.position_of_title(&title) {
            return Err(TaskError::DuplicateTitle);
        }
        if self.next_id == u64::MAX {
            return Err(TaskError::StorageUnavailable);
        }
        let row = TaskRow::new_row(self.next_id, title, description.to_owned(), TaskStatus::Undone);
        let ghost before = self.rows();
        self.tasks.push(row);
        self.next_id = self.next_id + 1;
        assert(self.rows() =~= before.push(created_row((self.next_id - 1) as u64, title@, description@)));
        Ok(())
    }

    /// The handle of the task titled `title`; `NotFound` when there is none.
    pub fn get_task(&self, title: &str) -> (r: Result<Task, TaskError>)
        requires
            self.wf(),
        ensures
            r is Ok <==> has_title(self.rows(), title@),
            r matches Ok(t) ==> has_id(self.rows(), t@) && row_with_id(self.rows(), t@).title
                == title@,
            r matches Err(e) ==> e == TaskError::NotFound,
    {
        let title = title.to_owned();
        match self.position_of_title(&title) {
            Some(i) => {
                let id = self.tasks[i].id();
                proof {
                    let rows = self.rows();
                    assert(rows[i as int].id == id);
                    let k = choose|k: int| 0 <= k < rows.len() && rows[k].id == id;
                    assert(k == i) by {
                        if k < i {
                            assert(rows[k].id < rows[i as int].id);
                        } else if k > i {
                            assert(rows[i as int].id < rows[k].id);
                        }
                    }
                }
                Ok(Task::of_id(id))
            },
            None => Err(TaskError::NotFound),
        }
    }

    /// Handles of the tasks that `filter` selects, in listing order (see
    /// `listing`).
    pub fn get_all_tasks(&self, filter: Option<&TaskStatus>) -> (r: Vec<Task>)
        requires
            self.wf(),
        ensures
            handle_ids(r@) == ids(listing(self.rows(), chosen(filter))),
    {
        let mut out: Vec<Task> = Vec::new();
        assert(handle_ids(out@) =~= ids(Seq::<TaskView>::empty()));
        let ghost rows = self.rows();
        match filter {
            Some(s) => {
                self.append_with_status(*s, &mut out);
                assert(handle_ids(out@) =~= ids(listing(self.rows(), chosen(filter))));
            },
            None => {
                self.append_with_status(TaskStatus::Underway, &mut out);
                self.append_with_status(TaskStatus::Undone, &mut out);
                self.append_with_status(TaskStatus::Done, &mut out);
                let ghost a = with_status(rows, TaskStatus::Underway);
                let ghost b = with_status(rows, TaskStatus::Undone);
                let ghost c = with_status(rows, TaskStatus::Done);
                assert(ids(a + b) =~= ids(a) + ids(b));
                assert(ids(a + b + c) =~= ids(a + b) + ids(c));
                assert(handle_ids(out@) =~= ids(listing(self.rows(), None)));
            },
        }
        out
    }

    /// Appends to `out` handles of the rows with status `s`, in table order.
    fn append_with_status(&self, s: TaskStatus, out: &mut Vec<Task>)
        ensures
            handle_ids(final(out)@) == handle_ids(old(out)@) + ids(with_status(self.rows(), s)),
    {
        let mut i: usize = 0;
        while i < self.tasks.len()
            invariant
                i <= self.tasks@.len(),
                self.rows() == views(self.tasks@),
                handle_ids(out@) == handle_ids(old(out)@) + ids(
                    with_status(self.rows().subrange(0, i as int), s),
                ),
            decreases self.tasks@.len() - i,
        {
            let ghost before = out@;
            let ghost prefix = self.rows().subrange(0, i as int);
            let ghost longer = self.rows().subrange(0, i + 1);
            if self.tasks[i].status() == s {
                out.push(Task::of_id(self.tasks[i].id()));
                assert(handle_ids(out@) =~= handle_ids(before).push(self.rows()[i as int].id));
            }
            proof {
                assert(longer.drop_last() =~= prefix);
                assert(longer.last() == self.rows()[i as int]);
                reveal(Seq::filter);
                let fp = with_status(prefix, s);
                assert(ids(fp.push(self.rows()[i as int])) =~= ids(fp).push(self.rows()[i as int].id));
                assert(handle_ids(out@) =~= handle_ids(old(out)@) + ids(with_status(longer, s)));
            }
            i = i + 1;
        }
        assert(self.rows().subrange(0, self.tasks@.len() as int) =~= self.rows());
    }

    /// Removes the task titled `title`; `NotFound`, with the table
    /// unchanged, when there is none.
    pub fn delete_task(&mut self, title: &str) -> (r: Result<(), TaskError>)
        requires
            old(self).wf(),
        ensures
            final(self).wf(),
            final(self).next_id() == old(self).next_id(),
            r is Ok <==> has_title(old(self).rows(), title@),
            r is Ok ==> final(self).rows() == without_title(old(self).rows(), title@),
            r matches Err(e) ==> e == TaskError::NotFound && final(self).rows() == old(self).rows(),
    {
        let title = title.to_owned();
        if self.position_of_title(&title).is_none() {
            return Err(TaskError::NotFound);
        }
        let mut kept: Vec<TaskRow> = Vec::new();
        let mut i: usize = 0;
        while i < self.tasks.len()
            invariant
                i <= self.tasks@.len(),
                self.rows() == views(self.tasks@),
                views(kept@) == without_title(self.rows().subrange(0, i as int), title@),
            decreases self.tasks@.len() - i,
        {
            let ghost before = kept@;
            let ghost prefix = self.rows().subrange(0, i as int);
            let ghost longer = self.rows().subrange(0, i + 1);
            if !self.tasks[i].has_title(&title) {
                kept.push(self.tasks[i].copy());
                assert(views(kept@) =~= views(before).push(self.rows()[i as int]));
            }
            proof {
                assert(longer.drop_last() =~= prefix);
                assert(longer.last() == self.rows()[i as int]);
                reveal(Seq::filter);
            }
            i = i + 1;
        }
        proof {
            assert(self.rows().subrange(0, self.tasks@.len() as int) =~= self.rows());
            lemma_filter_keeps_wf(self.rows(), self.next_id, |t: TaskView| t.title != title@);
        }
        self.tasks = kept;
        Ok(())
    }

    /// Removes every task whose status is `Done`; the others keep their
    /// order.
    pub fn clear_done_tasks(&mut self)
        requires
            old(self).wf(),
        ensures
            final(self).wf(),
            final(self).next_id() == old(self).next_id(),
            final(self).rows() == without_done(old(self).rows()),
    {
        let mut kept: Vec<TaskRow> = Vec::new();
        let mut i: usize = 0;
        while i < self.tasks.len()
            invariant
                i <= self.tasks@.len(),
                self.rows() == views(self.tasks@),
                views(kept@) == without_done(self.rows().subrange(0, i as int)),
            decreases self.tasks@.len() - i,
        {
            let ghost before = kept@;
            let ghost prefix = self.rows().subrange(0, i as int);
            let ghost longer = self.rows().subrange(0, i + 1);
            if self.tasks[i].status() != TaskStatus::Done {
                kept.push(self.tasks[i].copy());
                assert(views(kept@) =~= views(before).push(self.rows()[i as int]));
            }
            proof {
                assert(longer.drop_last() =~= prefix);
                assert(longer.last() == self.rows()[i as int]);
                reveal(Seq::filter);
            }
            i = i + 1;
        }
        proof {
            assert(self.rows().subrange(0, self.tasks@.len() as int) =~= self.rows());
            lemma_filter_keeps_wf(
                self.rows(),
                self.next_id,
                |t: TaskView| t.status != TaskStatus::Done,
            );
        }
        self.tasks = kept;
    }

    /// Gives the task with id `id` the title `title`.
    ///
    /// Fails with `NotFound` when no task has that id, and with
    /// `DuplicateTitle` when another task holds the title; the table is
    /// then unchanged.
    pub fn rename_task(&mut self, id: u64, title: &str) -> (r: Result<(), TaskError>)
        requires
            old(self).wf(),
        ensures
            final(self).wf(),
            final(self).next_id() == old(self).next_id(),
            r == rename_outcome(old(self).rows(), id, title@),
            r is Ok ==> final(self).rows() == retitled(old(self).rows(), id, title@),
            r is Err ==> final(self).rows() == old(self).rows(),
    {
        let title = title.to_owned();
        let p = match self.position_of_id(id) {
            Some(p) => p,
            None => return Err(TaskError::NotFound),
        };
        if let Some(q) = self.position_of_title(&title) {
            if q != p {
                assert(self.rows()[q as int].id != id);
                return Err(TaskError::DuplicateTitle);
            }
        }
        assert(!title_taken_by_other(self.rows(), id, title@));
        let mut t = self.tasks[p].copy();
        t.retitle(title);
        let ghost before = self.rows();
        self.tasks.set(p, t);
        assert(self.rows() =~= retitled(before, id, title@));
        Ok(())
    }

    /// Gives the task with id `id` the description `description`;
    /// `NotFound`, with the table unchanged, when no task has that id.
    pub fn describe_task(&mut self, id: u64, description: &str) -> (r: Result<(), TaskError>)
        requires
            old(self).wf(),
        ensures
            final(self).wf(),
            final(self).next_id() == old(self).next_id(),
            r == update_outcome(old(self).rows(), id),
            r is Ok ==> final(self).rows() == redescribed(old(self).rows(), id, description@),
            r is Err ==> final(self).rows() == old(self).rows(),
    {
        let p = match self.position_of_id(id) {
            Some(p) => p,
            None => return Err(TaskError::NotFound),
        };
        let mut t = self.tasks[p].copy();
        t.redescribe(description.to_owned());
        let ghost before = self.rows();
        self.tasks.set(p, t);
        assert(self.rows() =~= redescribed(before, id, description@));
        Ok(())
    }

    /// Gives the task with id `id` the status `status`; `NotFound`, with the
    /// table unchanged, when no task has that id.
    pub fn mark_task(&mut self, id: u64, status: TaskStatus) -> (r: Result<(), TaskError>)
        requires
            old(self).wf(),
        ensures
            final(self).wf(),
            final(self).next_id() == old(self).next_id(),
            r == update_outcome(old(self).rows(), id),
            r is Ok ==> final(self).rows() == marked(old(self).rows(), id, status),
            r is Err ==> final(self).rows() == old(self).rows(),
    {
        let p = match self.position_of_id(id) {
            Some(p) => p,
            None => return Err(TaskError::NotFound),
        };
        let mut t = self.tasks[p].copy();
        t.restate(status);
        let ghost before = self.rows();
        self.tasks.set(p, t);
        assert(self.rows() =~= marked(before, id, status));
        Ok(())
    }

    /// Index of the row titled `title`, if there is one.
    fn position_of_title(&self, title: &String) -> (r: Option<usize>)
        requires
            self.wf(),
        ensures
            r matches Some(i) ==> i < self.rows().len() && self.rows()[i as int].title == title@,
            r is None ==> !has_title(self.rows(), title@),
    {
        let mut i: usize = 0;
        while i < self.tasks.len()
            invariant
                i <= self.tasks@.len(),
                self.rows() == views(self.tasks@),
                forall|j: int| 0 <= j < i ==> #[trigger] self.rows()[j].title != title@,
            decreases self.tasks@.len() - i,
        {
            if self.tasks[i].has_title(title) {
                return Some(i);
            }
            i = i + 1;
        }
        None
    }

    /// Index of the row with id `id`, if there is one.
    fn position_of_id(&self, id: u64) -> (r: Option<usize>)
        requires
            self.wf(),
        ensures
            r matches Some(i) ==> i < self.rows().len() && self.rows()[i as int].id == id,
            r is None ==> !has_id(self.rows(), id),
    {
        let mut i: usize = 0;
        while i < self.tasks.len()
            invariant
                i <= self.tasks@.len(),
                self.rows() == views(self.tasks@),
                forall|j: int| 0 <= j < i ==> #[trigger] self.rows()[j].id != id,
            decreases self.tasks@.len() - i,
        {
            if self.tasks[i].id() == id {
                return Some(i);
            }
            i = i + 1;
        }
        None
    }
}

} // verus!
