//! Task state and the outcome of one evaluation step.

use crate::event::Event;
use crate::json::Json;
use crate::value::TaskValue;
use vstd::prelude::*;

verus! {

/// The persisted state of one task, which produces values of type `T`.
#[derive(Debug)]
pub struct Task<T> {
    value: T,
}

/// Diagnostic record of one evaluation step. Its content belongs to the host
/// and is carried through as a JSON document.
#[derive(Debug)]
pub struct TaskEvalInfo(pub Json);

/// How the rendered representation of a task must change after one step. Its
/// shape belongs to the presentation layer and is carried through as a JSON
/// document.
#[derive(Debug)]
pub struct UIChange(pub Json);

/// A failure that a task reports as the result of a step. A parent may match
/// on it and recover; it never ends the process.
#[derive(Debug)]
#[non_exhaustive]
pub enum TaskException {
    /// The payload identifies the failure for a handler; the message is for
    /// people.
    Raised(Json, String),
}

/// The outcome of one evaluation step.
#[derive(Debug)]
pub enum TaskResult<T> {
    /// Normal progress: the current value, a diagnostic record, the change to
    /// the rendered representation, and the state that replaces the one the
    /// step consumed.
    ValueResult(TaskValue<T>, TaskEvalInfo, UIChange, Task<T>),
    /// The step failed in a way that a parent can catch.
    ExceptionResult(TaskException),
    /// The task has finished its teardown and must leave its owner's storage.
    DestroyedResult,
}

/// What a task payload must be able to do: compare for equality. Nothing
/// else is asked of it here; a host that stores or sends payloads adds what
/// that takes.
pub trait ITask<T>: Eq {

}

/// Identity data of the client that travels with an evaluation. It is not
/// part of a task's identity.
pub type Cookies = std::collections::HashMap<String, String>;

impl<T> Task<T> {
    /// What the task state holds.
    pub closed spec fn state(self) -> T {
        self.value
    }

    /// Create a new task.
    pub fn new(value: T) -> (task: Task<T>)
        ensures
            task.state() == value,
    {
        Task { value }
    }

    /// The state, by reference.
    pub fn value(&self) -> (r: &T)
        ensures
            *r == self.state(),
    {
        &self.value
    }

    /// Runs one evaluation step. The step consumes the task, so nobody can
    /// evaluate the same state twice; what `step` makes of the state and the
    /// event is the outcome.
    pub fn apply<F: FnOnce(T, Event) -> TaskResult<T>>(self, event: Event, step: F) -> (r:
        TaskResult<T>)
        requires
            call_requires(step, (self.state(), event)),
        ensures
            call_ensures(step, (self.state(), event), r),
    {
        step(self.value, event)
    }
}

impl TaskException {
    /// The message for people.
    pub fn message(&self) -> (m: &String)
        ensures
            self matches TaskException::Raised(_, msg) && *m == msg,
    {
        match self {
            TaskException::Raised(_, message) => message,
        }
    }

    /// The payload to match on.
    pub fn payload(&self) -> (p: &Json)
        ensures
            self matches TaskException::Raised(payload, _) && *p == payload,
    {
        match self {
            TaskException::Raised(payload, _) => payload,
        }
    }
}

} // verus!
