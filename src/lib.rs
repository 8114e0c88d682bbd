//! A Pomodoro-driven task list: a timer state machine per task, a task store
//! with a single selection cursor, the session that routes keys to both, and
//! the line format the store is kept in.
use vstd::prelude::*;

pub mod text;
pub mod pomodoro;
pub mod store;
pub mod session;
pub mod persist;
