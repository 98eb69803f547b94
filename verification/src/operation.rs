//! The operations that reach the backing store: what each sends to it, and how
//! a failure of each is described to the caller.

use vstd::prelude::*;

verus! {

/// An operation that reaches the backing store.
#[derive(Clone, Copy, Debug, PartialEq, Eq, Structural)]
pub enum Operation {
    /// Looking up the connection string.
    Configure,
    /// Connecting the pool.
    Connect,
    /// Storing a new task.
    Create,
    /// Reading a task by id.
    Select,
    /// Deleting a task by id.
    Delete,
}

impl Operation {
    /// The words that say which operation failed.
    pub open spec fn context_text(self) -> Seq<char> {
        match self {
            Operation::Configure => "DATABASE_URL failed"@,
            Operation::Connect => "Connecting to DB failed"@,
            Operation::Create => "create Task failed"@,
            Operation::Select => "select Task failed"@,
            Operation::Delete => "delete Task failed"@,
        }
    }

    /// The statement that the operation sends, with `$1` for its one argument:
    /// the title for `Create`, the id for `Select` and `Delete`. Setting the pool
    /// up sends none.
    pub open spec fn statement_text(self) -> Option<Seq<char>> {
        match self {
            Operation::Configure => None,
            Operation::Connect => None,
            Operation::Create => Some("INSERT INTO task (title) VALUES ($1) RETURNING id"@),
            Operation::Select => Some("SELECT * FROM task WHERE id = $1"@),
            Operation::Delete => Some("DELETE from task WHERE id = $1"@),
        }
    }

    /// The description under which a failure of this operation reaches the caller.
    pub fn context(&self) -> (out: &'static str)
        ensures
            out@ == self.context_text(),
    {
        match self {
            Operation::Configure => "DATABASE_URL failed",
            Operation::Connect => "Connecting to DB failed",
            Operation::Create => "create Task failed",
            Operation::Select => "select Task failed",
            Operation::Delete => "delete Task failed",
        }
    }

    /// The statement to send for this operation, if it sends one.
    pub fn statement(&self) -> (out: Option<&'static str>)
        ensures
            match out {
                Some(text) => self.statement_text() == Some(text@),
                None => self.statement_text() is None,
            },
    {
        match self {
            Operation::Configure => None,
            Operation::Connect => None,
            Operation::Create => Some("INSERT INTO task (title) VALUES ($1) RETURNING id"),
            Operation::Select => Some("SELECT * FROM task WHERE id = $1"),
            Operation::Delete => Some("DELETE from task WHERE id = $1"),
        }
    }
}

} // verus!
