//! The TODO-list record.

use vstd::prelude::*;

verus! {

/// One entry of the TODO list.  The creation time is kept as seconds since
/// the Unix epoch.
#[derive(Debug)]
pub struct Todo {
    pub id: u32,
    pub title: String,
    pub completed: bool,
    pub created_at: i64,
}

impl Todo {
    /// A fresh, uncompleted entry stamped with the current time.
    pub fn new(id: u32, title: String) -> (t: Todo)
        ensures
            t.id == id,
            t.title == title,
            !t.completed,
    {
        Todo { id, title, completed: false, created_at: now_timestamp() }
    }
}

/// Relies on chrono's `Utc::now`: the current wall-clock time, converted to
/// seconds since the Unix epoch.  Nothing is promised of a clock reading.
#[verifier::external_body]
fn now_timestamp() -> i64 {
    chrono::Utc::now().timestamp()
}

} // verus!
