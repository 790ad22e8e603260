//! A personal task tracker: a table of titled tasks with a three-state
//! lifecycle, and a dispatcher that turns one parsed command into operations
//! on that table.

pub mod cli;
pub mod error;
pub mod laws;
pub mod manager;

use vstd::prelude::*;

use cli::{Cli, Commands};
use error::TaskError;
use manager::task::{Task, TaskView};
use manager::{
    create_outcome, created_row, handle_ids, has_id, has_title, ids, listing, marked, redescribed,
    rename_outcome, retitled, row_with_id, table_wf, without_done, without_title, TaskManager,
};

verus! {

/// The row titled `title` (unique in a well-formed table).
pub open spec fn titled(rows: Seq<TaskView>, title: Seq<char>) -> TaskView {
    rows[choose|i: int| 0 <= i < rows.len() && rows[i].title == title]
}

/// The table after the row with id `id` gets the description `description`,
/// if one is given.
pub open spec fn redescribed_if(
    rows: Seq<TaskView>,
    id: u64,
    description: Option<String>,
) -> Seq<TaskView> {
    match description {
        Some(d) => redescribed(rows, id, d@),
        None => rows,
    }
}

/// What a command does to a table: on success the tasks it shows, the rows
/// after it and the next id after it; or the error it fails with, in which
/// case the table is left as it was.
pub open spec fn command_outcome(rows: Seq<TaskView>, next_id: u64, command: Commands) -> Result<
    (Seq<TaskView>, Seq<TaskView>, u64),
    TaskError,
> {
    let none = Seq::<TaskView>::empty();
    match command {
        Commands::Add { title, description } => match create_outcome(rows, next_id, title@) {
            Ok(_) => Ok(
                (none, rows.push(created_row(next_id, title@, description@)), (next_id + 1) as u64),
            ),
            Err(e) => Err(e),
        },
        Commands::List { filter } => Ok((listing(rows, filter), rows, next_id)),
        Commands::Mark { target, status } => if has_title(rows, target@) {
            Ok((none, marked(rows, titled(rows, target@).id, status), next_id))
        } else {
            Err(TaskError::NotFound)
        },
        Commands::Edit { target, title, description } => if has_title(rows, target@) {
            let id = titled(rows, target@).id;
            match title {
                Some(t) => match rename_outcome(rows, id, t@) {
                    Ok(_) => Ok((none, redescribed_if(retitled(rows, id, t@), id, description), next_id)),
                    Err(e) => Err(e),
                },
                None => Ok((none, redescribed_if(rows, id, description), next_id)),
            }
        } else {
            Err(TaskError::NotFound)
        },
        Commands::Delete { target } => if has_title(rows, target@) {
            Ok((none, without_title(rows, target@), next_id))
        } else {
            Err(TaskError::NotFound)
        },
        Commands::Clear => Ok((none, without_done(rows), next_id)),
    }
}

/// In a well-formed table, the row with id `id`, when titled `title`, is the
/// row `titled` names.
proof fn lemma_titled_unique(rows: Seq<TaskView>, next_id: u64, id: u64, title: Seq<char>)
    requires
        table_wf(rows, next_id),
        has_id(rows, id),
        row_with_id(rows, id).title == title,
    ensures
        titled(rows, title).id == id,
{
    let j = choose|j: int| 0 <= j < rows.len() && rows[j].id == id;
    assert(rows[j].title == title);
    let i = choose|i: int| 0 <= i < rows.len() && rows[i].title == title;
    assert(rows[i] == rows[j]);
}

/// Runs one command against `manager`.
///
/// On success returns the tasks to show (the listing for `List`, nothing for
/// the others). Each command does exactly what `command_outcome` says; a
/// failing command leaves the table as it was, and an `Edit` whose rename
/// fails does not touch the description.
pub fn run(cli: &Cli, manager: &mut TaskManager) -> (r: Result<Vec<Task>, TaskError>)
    requires
        old(manager).wf(),
    ensures
        final(manager).wf(),
        match command_outcome(old(manager).rows(), old(manager).next_id(), cli.command) {
            Ok((shown, rows, next_id)) => {
                &&& r matches Ok(v) && handle_ids(v@) == ids(shown)
                &&& final(manager).rows() == rows
                &&& final(manager).next_id() == next_id
            },
            Err(e) => {
                &&& r == Err::<Vec<Task>, TaskError>(e)
                &&& final(manager).rows() == old(manager).rows()
                &&& final(manager).next_id() == old(manager).next_id()
            },
        },
{
    let ghost rows = manager.rows();
    match &cli.command {
        Commands::Add { title, description } => {
            match manager.add_new_task(title.as_str(), description.as_str()) {
                Ok(()) => {
                    let out: Vec<Task> = Vec::new();
                    assert(handle_ids(out@) =~= ids(Seq::<TaskView>::empty()));
                    Ok(out)
                },
                Err(e) => Err(e),
            }
        },
        Commands::List { filter } => {
            let out = match filter {
                Some(s) => manager.get_all_tasks(Some(s)),
                None => manager.get_all_tasks(None),
            };
            Ok(out)
        },
        Commands::Mark { target, status } => {
            let task = match manager.get_task(target.as_str()) {
                Ok(t) => t,
                Err(e) => return Err(e),
            };
            proof {
                lemma_titled_unique(rows, manager.next_id(), task@, target@);
            }
            match task.set_status(manager, status) {
                Ok(()) => {
                    let out: Vec<Task> = Vec::new();
                    assert(handle_ids(out@) =~= ids(Seq::<TaskView>::empty()));
                    Ok(out)
                },
                Err(e) => Err(e),
            }
        },
        Commands::Edit { target, title, description } => {
            let task = match manager.get_task(target.as_str()) {
                Ok(t) => t,
                Err(e) => return Err(e),
            };
            proof {
                lemma_titled_unique(rows, manager.next_id(), task@, target@);
            }
            let ghost id = task@;
            if let Some(new_title) = title {
                match task.set_title(manager, new_title.as_str()) {
                    Ok(()) => {},
                    Err(e) => return Err(e),
                }
            }
            let ghost mid = manager.rows();
            proof {
                let j = choose|j: int| 0 <= j < rows.len() && rows[j].id == id;
                assert(mid[j].id == id);
            }
            if let Some(new_description) = description {
                match task.set_description(manager, new_description.as_str()) {
                    Ok(()) => {},
                    Err(e) => return Err(e),
                }
            }
            let out: Vec<Task> = Vec::new();
            assert(handle_ids(out@) =~= ids(Seq::<TaskView>::empty()));
            Ok(out)
        },
        Commands::Delete { target } => {
            match manager.delete_task(target.as_str()) {
                Ok(()) => {
                    let out: Vec<Task> = Vec::new();
                    assert(handle_ids(out@) =~= ids(Seq::<TaskView>::empty()));
                    Ok(out)
                },
                Err(e) => Err(e),
            }
        },
        Commands::Clear => {
            manager.clear_done_tasks();
            let out: Vec<Task> = Vec::new();
            assert(handle_ids(out@) =~= ids(Seq::<TaskView>::empty()));
            Ok(out)
        },
    }
}

} // verus!
