//! The events that drive a task tree forward.

use crate::id_set::TaskIdSet;
use crate::identity::TaskId;
use crate::json::Json;
use vstd::prelude::*;

verus! {

/// The closed set of stimuli that a task tree may be told to advance on.
#[derive(Debug)]
pub enum Event {
    /// Update an editable slot: task id, name of the slot, new value.
    Edit(TaskId, String, Json),
    /// A user action, such as progress in a step: task id, name of the action.
    Action(TaskId, String),
    /// Recompute the tasks with the given ids from the shared values as they
    /// are now. This is not new user input.
    Refresh(TaskIdSet),
    /// Discard all task state and evaluate the whole tree from scratch.
    Reset,
    /// The server is interrupted; tasks get ready to be resumed later.
    ServerInterrupted,
    /// Clean up and remove a task.
    Destroy,
}

impl Event {
    /// The one task that the event is addressed to, for `Edit` and `Action`.
    pub open spec fn addressee(self) -> Option<TaskId> {
        match self {
            Event::Edit(id, _, _) => Some(id),
            Event::Action(id, _) => Some(id),
            _ => None,
        }
    }

    /// Whether the event has to reach the task `id`: an `Edit` or an `Action`
    /// reaches the task it names, a `Refresh` exactly the tasks it lists, and
    /// the other events reach every task.
    pub open spec fn concerns(self, id: TaskId) -> bool {
        match self {
            Event::Edit(to, _, _) => to == id,
            Event::Action(to, _) => to == id,
            Event::Refresh(ids) => ids@.contains(id),
            Event::Reset => true,
            Event::ServerInterrupted => true,
            Event::Destroy => true,
        }
    }

    /// The one task that the event is addressed to, for `Edit` and `Action`.
    pub fn target(&self) -> (r: Option<TaskId>)
        ensures
            r == self.addressee(),
    {
        match self {
            Event::Edit(id, _, _) => Some(*id),
            Event::Action(id, _) => Some(*id),
            _ => None,
        }
    }

    /// Whether the event has to reach the task `id`.
    pub fn is_for(&self, id: TaskId) -> (r: bool)
        ensures
            r == self.concerns(id),
    {
        match self {
            Event::Edit(to, _, _) => *to == id,
            Event::Action(to, _) => *to == id,
            Event::Refresh(ids) => ids.contains(id),
            _ => true,
        }
    }
}

} // verus!
