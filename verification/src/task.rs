//! The stored entity, the decoded request payload, and payload validation.

use vstd::prelude::*;

verus! {

/// A stored entity: one row of the backend table, keyed by a 128-bit
/// identifier (the numeric value of a UUID).
pub struct Task {
    pub id: u128,
    pub title: String,
    pub description: Option<String>,
    pub done: bool,
}

/// The mathematical value of a `Task`.
pub ghost struct TaskView {
    pub id: u128,
    pub title: Seq<char>,
    pub description: Option<Seq<char>>,
    pub done: bool,
}

impl View for Task {
    type V = TaskView;

    open spec fn view(&self) -> TaskView {
        TaskView {
            id: self.id,
            title: self.title@,
            description: match self.description {
                Some(d) => Some(d@),
                None => None,
            },
            done: self.done,
        }
    }
}

impl DeepView for Task {
    type V = TaskView;

    open spec fn deep_view(&self) -> TaskView {
        self.view()
    }
}

/// A decoded request body: every field optional, so that validation is the
/// library's decision rather than the decoder's.
pub struct TaskPayload {
    pub title: Option<String>,
    pub description: Option<String>,
    pub done: Option<bool>,
}

/// The mathematical value of a `TaskPayload`.
pub ghost struct PayloadView {
    pub title: Option<Seq<char>>,
    pub description: Option<Seq<char>>,
    pub done: Option<bool>,
}

impl View for TaskPayload {
    type V = PayloadView;

    open spec fn view(&self) -> PayloadView {
        PayloadView {
            title: match self.title {
                Some(t) => Some(t@),
                None => None,
            },
            description: match self.description {
                Some(d) => Some(d@),
                None => None,
            },
            done: self.done,
        }
    }
}

impl DeepView for TaskPayload {
    type V = PayloadView;

    open spec fn deep_view(&self) -> PayloadView {
        self.view()
    }
}

/// A payload is valid when the required `title` field is present.
pub open spec fn payload_valid(p: PayloadView) -> bool {
    p.title is Some
}

/// Checks the one validation rule: the `title` field must be present.
pub fn payload_is_valid(p: &TaskPayload) -> (r: bool)
    ensures
        r == payload_valid(p@),
{
    p.title.is_some()
}

/// The entity built from a valid payload and a server-assigned identifier:
/// an absent `done` field defaults to `false`.
pub open spec fn task_from(id: u128, p: PayloadView) -> TaskView {
    TaskView {
        id,
        title: p.title->Some_0,
        description: p.description,
        done: match p.done {
            Some(d) => d,
            None => false,
        },
    }
}

/// Copies an optional string, field for field.
pub fn clone_opt_string(s: &Option<String>) -> (r: Option<String>)
    ensures
        r.deep_view() == s.deep_view(),
{
    match s {
        Some(t) => Some(t.clone()),
        None => None,
    }
}

/// Copies a task; the copy has the same mathematical value.
pub fn clone_task(t: &Task) -> (r: Task)
    ensures
        r@ == t@,
{
    Task {
        id: t.id,
        title: t.title.clone(),
        description: clone_opt_string(&t.description),
        done: t.done,
    }
}

} // verus!
