use vstd::prelude::*;

use crate::manager::task::TaskStatus;

verus! {

/// A parsed invocation: the one command it asks for.
#[derive(Debug)]
pub struct Cli {
    pub command: Commands,
}

/// The commands the tool understands.
#[derive(Debug)]
pub enum Commands {
    /// Adds a new task.
    Add { title: String, description: String },
    /// Lists the tasks, or only those with one status.
    List { filter: Option<TaskStatus> },
    /// Sets the status of the task titled `target`.
    Mark { target: String, status: TaskStatus },
    /// Changes the title and/or the description of the task titled `target`.
    Edit { target: String, title: Option<String>, description: Option<String> },
    /// Deletes the task titled `target`.
    Delete { target: String },
    /// Deletes every task whose status is `Done`.
    Clear,
}

} // verus!
