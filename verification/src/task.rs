//! A task, and the id that the store gives it.

use vstd::prelude::*;

verus! {

/// A task as the store holds it. The store assigns the id, which then never changes.
#[derive(Debug, Clone)]
pub struct Task {
    pub id: i64,
    pub title: String,
}

/// What a task stands for in contracts: its id and the characters of its title.
pub struct TaskView {
    pub id: i64,
    pub title: Seq<char>,
}

impl View for Task {
    type V = TaskView;

    open spec fn view(&self) -> TaskView {
        TaskView { id: self.id, title: self.title@ }
    }
}

/// The id that the store assigned to a new task.
#[derive(Debug, Clone, Copy, PartialEq, Eq, Structural)]
pub struct Id {
    pub id: i64,
}

} // verus!
