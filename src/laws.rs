//! Facts about the table's operations that hold for every table and input,
//! stated over the same spec functions the operations' contracts use.

use vstd::prelude::*;

use crate::cli::Commands;
use crate::command_outcome;
use crate::error::TaskError;
use crate::manager::task::{status_from_text, status_text, TaskStatus, TaskView};
use crate::manager::{
    create_outcome, created_row, has_id, has_title, listing, marked, table_wf, update_outcome,
    with_status,
};

verus! {

/// The stored text of a status reads back as that status.
pub proof fn status_text_round_trips(s: TaskStatus)
    ensures
        status_from_text(status_text(s)) == Some(s),
{
    match s {
        TaskStatus::Undone => {},
        TaskStatus::Underway => {
            assert(status_text(TaskStatus::Underway).len() != status_text(TaskStatus::Undone).len());
        },
        TaskStatus::Done => {
            assert(status_text(TaskStatus::Done)[0] != status_text(TaskStatus::Undone)[0]);
            assert(status_text(TaskStatus::Done)[0] != status_text(TaskStatus::Underway)[0]);
        },
    }
}

/// Once a title has been created, creating it again fails with
/// `DuplicateTitle`, whatever the second description.
pub proof fn create_twice_is_duplicate(
    rows: Seq<TaskView>,
    next_id: u64,
    title: Seq<char>,
    description: Seq<char>,
)
    requires
        table_wf(rows, next_id),
        create_outcome(rows, next_id, title) is Ok,
    ensures
        create_outcome(rows.push(created_row(next_id, title, description)), (next_id + 1) as u64, title)
            == Err::<(), TaskError>(TaskError::DuplicateTitle),
{
    let after = rows.push(created_row(next_id, title, description));
    assert(after[rows.len() as int].title == title);
}

/// After a successful create, the table holds exactly one task with that
/// title, and it has the given description and status `Undone`.
pub proof fn create_then_get_round_trips(
    rows: Seq<TaskView>,
    next_id: u64,
    title: Seq<char>,
    description: Seq<char>,
)
    requires
        table_wf(rows, next_id),
        create_outcome(rows, next_id, title) is Ok,
    ensures
        has_title(rows.push(created_row(next_id, title, description)), title),
        forall|t: TaskView|
            rows.push(created_row(next_id, title, description)).contains(t) && t.title == title
                ==> t.title == title && t.description == description && t.status
                == TaskStatus::Undone,
{
    let after = rows.push(created_row(next_id, title, description));
    assert(after[rows.len() as int].title == title);
    assert forall|t: TaskView| after.contains(t) && t.title == title implies t == created_row(
        next_id,
        title,
        description,
    ) by {
        let j = choose|j: int| 0 <= j < after.len() && after[j] == t;
        if j < rows.len() {
            assert(rows[j] == after[j]);
        }
    }
}

/// Marking a task with a status a second time succeeds and changes nothing
/// more.
pub proof fn mark_twice_same_as_once(rows: Seq<TaskView>, id: u64, status: TaskStatus)
    ensures
        update_outcome(marked(rows, id, status), id) == update_outcome(rows, id),
        marked(marked(rows, id, status), id, status) == marked(rows, id, status),
{
    let once = marked(rows, id, status);
    assert(marked(once, id, status) =~= once);
    if has_id(rows, id) {
        let i = choose|i: int| 0 <= i < rows.len() && rows[i].id == id;
        assert(once[i].id == id);
    }
    if has_id(once, id) {
        let i = choose|i: int| 0 <= i < once.len() && once[i].id == id;
        assert(rows[i].id == id);
    }
}

/// Keeping the rows with status `b` out of those with status `a` keeps all
/// of them when `a == b`, and none otherwise.
proof fn lemma_with_status_twice(rows: Seq<TaskView>, a: TaskStatus, b: TaskStatus)
    ensures
        with_status(with_status(rows, a), b) == if a == b {
            with_status(rows, a)
        } else {
            Seq::<TaskView>::empty()
        },
    decreases rows.len(),
{
    reveal(Seq::filter);
    if rows.len() == 0 {
        assert(with_status(rows, a) =~= Seq::<TaskView>::empty());
        assert(with_status(Seq::<TaskView>::empty(), b) =~= Seq::<TaskView>::empty());
    } else {
        lemma_with_status_twice(rows.drop_last(), a, b);
        let sub = with_status(rows.drop_last(), a);
        if rows.last().status == a {
            let grown = sub.push(rows.last());
            assert(grown.drop_last() =~= sub);
            assert(grown.last() == rows.last());
        }
    }
}

/// A filtered listing holds only tasks with that status, and is exactly the
/// unfiltered listing with the other statuses left out.
pub proof fn filtered_listing_is_filter_of_full(rows: Seq<TaskView>, status: TaskStatus)
    ensures
        forall|i: int|
            0 <= i < listing(rows, Some(status)).len() ==> #[trigger] listing(
                rows,
                Some(status),
            )[i].status == status,
        listing(rows, Some(status)) == with_status(listing(rows, None), status),
{
    let p = |t: TaskView| t.status == status;
    assert forall|i: int|
        0 <= i < listing(rows, Some(status)).len() implies #[trigger] listing(
        rows,
        Some(status),
    )[i].status == status by {
        rows.lemma_filter_pred(p, i);
    }
    let u = with_status(rows, TaskStatus::Underway);
    let n = with_status(rows, TaskStatus::Undone);
    let d = with_status(rows, TaskStatus::Done);
    Seq::filter_distributes_over_add(u + n, d, p);
    Seq::filter_distributes_over_add(u, n, p);
    lemma_with_status_twice(rows, TaskStatus::Underway, status);
    lemma_with_status_twice(rows, TaskStatus::Undone, status);
    lemma_with_status_twice(rows, TaskStatus::Done, status);
    let e = Seq::<TaskView>::empty();
    match status {
        TaskStatus::Underway => {
            assert(with_status(rows, status) + e + e =~= with_status(rows, status));
        },
        TaskStatus::Undone => {
            assert(e + with_status(rows, status) + e =~= with_status(rows, status));
        },
        TaskStatus::Done => {
            assert(e + e + with_status(rows, status) =~= with_status(rows, status));
        },
    }
}

/// `Mark`, `Edit` and `Delete` on a title that no task has fail with
/// `NotFound` (and so, by `run`'s contract, leave the table unchanged).
pub proof fn missing_target_is_not_found(
    rows: Seq<TaskView>,
    next_id: u64,
    target: String,
    status: TaskStatus,
    title: Option<String>,
    description: Option<String>,
)
    requires
        !has_title(rows, target@),
    ensures
        command_outcome(rows, next_id, Commands::Mark { target, status }) == Err::<
            (Seq<TaskView>, Seq<TaskView>, u64),
            TaskError,
        >(TaskError::NotFound),
        command_outcome(rows, next_id, Commands::Edit { target, title, description }) == Err::<
            (Seq<TaskView>, Seq<TaskView>, u64),
            TaskError,
        >(TaskError::NotFound),
        command_outcome(rows, next_id, Commands::Delete { target }) == Err::<
            (Seq<TaskView>, Seq<TaskView>, u64),
            TaskError,
        >(TaskError::NotFound),
{
}

} // verus!
