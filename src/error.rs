use vstd::prelude::*;

verus! {

/// Why an operation on the task table failed.
#[derive(Clone, Copy, Debug, PartialEq, Eq, Structural)]
pub enum TaskError {
    /// The title is already held by another task.
    DuplicateTitle,
    /// No task has the title or id that was asked for.
    NotFound,
    /// The durable table could not be opened, read or written, or holds rows
    /// that break its invariants.
    StorageUnavailable,
    /// A status text is not one of the three known values.
    InvalidStatus,
}

} // verus!
