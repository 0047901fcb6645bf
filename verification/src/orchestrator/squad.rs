//! Squad integration point: the session naming convention.

use vstd::prelude::*;

use crate::text::push_str;

verus! {

/// The Squad session name of a task: `myth-task-` and the task id.
pub fn squad_session_name(task_id: &str) -> (s: String)
    ensures
        s@ == "myth-task-"@ + task_id@,
{
    let mut s = String::new();
    push_str(&mut s, "myth-task-");
    push_str(&mut s, task_id);
    s
}

} // verus!
