//! A reactive task-evaluation core: task identity, the value and stability
//! model, the event taxonomy, the three-outcome result protocol and the
//! filtered task-list read model.

pub mod assoc;
pub mod attributes;
pub mod decimal;
pub mod event;
pub mod id_set;
pub mod identity;
pub mod json;
pub mod list;
pub mod store;
pub mod task;
pub mod value;
pub mod visualization;

pub use attributes::{Attribute, TaskAttributes};
pub use decimal::ParseUintError;
pub use event::Event;
pub use id_set::TaskIdSet;
pub use identity::{InstanceKey, InstanceNo, TaskId, TaskNo};
pub use json::Json;
pub use list::{TaskList, TaskListEntry, TaskListFilter, TaskListItem};
pub use store::{Dispatch, LifecycleError, Slot, StepOutcome, TaskStore};
pub use task::{Cookies, ITask, Task, TaskEvalInfo, TaskException, TaskResult, UIChange};
pub use value::{Stability, TaskValue};
pub use visualization::{Text, TextFormat};
