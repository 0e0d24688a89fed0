//! The task record and its editable fields.

use vstd::prelude::*;
use crate::date::Date;
use crate::priority::Priority;

verus! {

/// A single to-do record. Identifiers are assigned by the store and
/// never change; the completed flag starts false.
pub struct Task {
    pub id: u64,
    pub name: String,
    pub description: String,
    pub priority: Priority,
    pub completed: bool,
    pub due_date: Date,
}

impl Task {
    /// The record carries a real calendar date.
    pub open spec fn wf(self) -> bool {
        self.due_date.wf()
    }
}

/// The four editable fields of a task.
#[derive(Clone, Copy, PartialEq, Eq, Structural, Debug)]
pub enum Field {
    Name,
    Description,
    Priority,
    DueDate,
}

/// `t` with the completed flag set; every other field is kept.
pub open spec fn mark_done(t: Task) -> Task {
    Task { completed: true, ..t }
}

} // verus!
