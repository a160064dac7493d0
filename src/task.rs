//! Tasks, and the JSON text of a list of tasks.

use vstd::prelude::*;
use crate::json::{json_quoted, quote};
use crate::text::decimal_text;
use crate::user::{PublicUser, User};

verus! {

/// A task as the store sees it.
pub struct TaskView {
    pub id: nat,
    pub content: Seq<char>,
    pub completed: bool,
    /// The name of the user who created the task.
    pub owner: Seq<char>,
}

pub struct Task {
    pub id: usize,
    pub content: String,
    pub completed: bool,
    pub owner: PublicUser,
}

impl View for Task {
    type V = TaskView;

    open spec fn view(&self) -> TaskView {
        TaskView {
            id: self.id as nat,
            content: self.content@,
            completed: self.completed,
            owner: self.owner.username@,
        }
    }
}

impl Task {
    /// A task that is not completed yet, owned by `owner`.
    pub fn new(id: usize, content: String, owner: &User) -> (r: Task)
        ensures
            r@ == (TaskView {
                id: id as nat,
                content: content@,
                completed: false,
                owner: owner.username@,
            }),
    {
        Task { id, content, completed: false, owner: PublicUser::from(owner) }
    }
}

pub open spec fn bool_text(b: bool) -> Seq<char> {
    if b {
        "true"@
    } else {
        "false"@
    }
}

/// A task in JSON, its fields in declaration order and without spaces.
pub open spec fn task_json(t: TaskView) -> Seq<char> {
    "{\"id\":"@ + decimal_text(t.id) + ",\"content\":"@ + json_quoted(t.content)
        + ",\"completed\":"@ + bool_text(t.completed) + ",\"owner\":{\"username\":"@
        + json_quoted(t.owner) + "}}"@
}

/// The tasks in JSON, separated by commas.
pub open spec fn tasks_json_items(ts: Seq<TaskView>) -> Seq<char>
    decreases ts.len(),
{
    if ts.len() == 0 {
        seq![]
    } else if ts.len() == 1 {
        task_json(ts[0])
    } else {
        tasks_json_items(ts.drop_last()) + ","@ + task_json(ts.last())
    }
}

/// A list of tasks as a JSON array.
pub open spec fn tasks_json(ts: Seq<TaskView>) -> Seq<char> {
    "["@ + tasks_json_items(ts) + "]"@
}

impl Task {
    /// The task as a JSON object.
    pub fn to_json(&self) -> (r: String)
        ensures
            r@ == task_json(self@),
    {
        let mut out = String::from_str("{\"id\":");
        out.append(crate::text::decimal_string(self.id).as_str());
        out.append(",\"content\":");
        out.append(quote(self.content.as_str()).as_str());
        out.append(",\"completed\":");
        out.append(if self.completed {
            "true"
        } else {
            "false"
        });
        out.append(",\"owner\":{\"username\":");
        out.append(quote(self.owner.username.as_str()).as_str());
        out.append("}}");
        out
    }
}

/// A list of tasks as a JSON array.
pub fn tasks_to_json(tasks: &Vec<Task>) -> (r: String)
    ensures
        r@ == tasks_json(tasks@.map_values(|t: Task| t@)),
{
    let ghost views = tasks@.map_values(|t: Task| t@);
    let mut items = String::new();
    let mut i: usize = 0;
    while i < tasks.len()
        invariant
            i <= tasks@.len(),
            views == tasks@.map_values(|t: Task| t@),
            items@ == tasks_json_items(views.subrange(0, i as int)),
        decreases tasks@.len() - i,
    {
        let ghost pre = views.subrange(0, i as int);
        let ghost next = views.subrange(0, i + 1);
        assert(next.drop_last() =~= pre);
        if i > 0 {
            items.append(",");
        }
        items.append(tasks[i].to_json().as_str());
        proof {
            if i == 0 {
                assert(items@ =~= tasks_json_items(next));
            }
        }
        i = i + 1;
    }
    assert(views.subrange(0, i as int) =~= views);
    let mut out = String::from_str("[");
    out.append(items.as_str());
    out.append("]");
    out
}

} // verus!
