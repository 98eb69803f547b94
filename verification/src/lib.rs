//! Task tracking on a relational store: the shared connection-pool accessor,
//! the pool's configuration, and the rules of the task table.

pub mod accessor;
pub mod operation;
pub mod pool;
pub mod table;
pub mod task;
