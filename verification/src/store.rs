//! The storage that owns task states, and the protocol by which an
//! evaluation step takes a state out and puts its successor back.
//!
//! A step on a task is bracketed by `begin` and `finish`. `begin` hands the
//! state out and marks the task as in flight, so a second step on the same
//! task cannot start before the first has ended. `finish` stores the
//! replacement state, forgets a task that failed, or marks a destroyed task
//! for good.

use crate::assoc::{
    distinct_keys, lemma_pairs_dom, lemma_pairs_push, lemma_pairs_remove, lemma_pairs_update,
    lemma_pairs_value, pairs_map,
};
use crate::event::Event;
use crate::identity::TaskId;
use crate::task::{Task, TaskEvalInfo, TaskException, TaskResult, UIChange};
use crate::value::TaskValue;
use vstd::prelude::*;

verus! {

/// Where a tracked task stands.
#[derive(Debug)]
pub enum Slot<T> {
    /// The state is stored and no step is running.
    Idle(Task<T>),
    /// A step has taken the state out and has not ended yet.
    InFlight,
    /// The task was destroyed. Its id is never evaluated again.
    Destroyed,
}

/// Why the store refuses an operation on a task.
#[derive(Debug, Clone, Copy, PartialEq, Eq, Structural)]
pub enum LifecycleError {
    /// The store holds nothing under the id.
    NotTracked,
    /// A step on the task is running.
    InFlight,
    /// No step on the task is running.
    NotInFlight,
    /// The task was destroyed; evaluating it again is a misuse of its
    /// lifecycle.
    Destroyed,
    /// The id is taken by a task that is stored or in flight.
    AlreadyTracked,
}

/// What the caller of a step gets back once the step has ended.
#[derive(Debug)]
pub enum StepOutcome<T> {
    /// The task went on: its value, the diagnostic record and the change to
    /// its rendered representation.
    Progress(TaskValue<T>, TaskEvalInfo, UIChange),
    /// The task failed and left the store.
    Failed(TaskException),
    /// The task was destroyed.
    Gone,
}

/// What the store makes of an event.
#[derive(Debug)]
pub enum Dispatch<T> {
    /// The task that the event is addressed to was idle. A step on it has
    /// begun; here is its state.
    Step(TaskId, Task<T>),
    /// The task that the event is addressed to is in flight. The event has to
    /// wait for the running step.
    Busy(TaskId),
    /// The event is addressed to a task that is not there or was destroyed.
    /// Nothing happens.
    NoOp,
    /// The event is not addressed to one task. `TaskStore::targets` tells
    /// which tasks it has to reach.
    Unaddressed,
}

/// The tracked tasks by id.
pub type Slots<T> = Map<TaskId, Slot<T>>;

/// What `attach` answers in the state `m`.
pub open spec fn attach_outcome<T>(m: Slots<T>, id: TaskId) -> Result<(), LifecycleError> {
    if !m.contains_key(id) {
        Ok(())
    } else if m[id] is Destroyed {
        Err(LifecycleError::Destroyed)
    } else {
        Err(LifecycleError::AlreadyTracked)
    }
}

/// The state after `attach` in the state `m`.
pub open spec fn after_attach<T>(m: Slots<T>, id: TaskId, task: Task<T>) -> Slots<T> {
    if m.contains_key(id) {
        m
    } else {
        m.insert(id, Slot::Idle(task))
    }
}

/// What `begin` answers in the state `m`.
pub open spec fn begin_outcome<T>(m: Slots<T>, id: TaskId) -> Result<Task<T>, LifecycleError> {
    if !m.contains_key(id) {
        Err(LifecycleError::NotTracked)
    } else {
        match m[id] {
            Slot::Idle(task) => Ok(task),
            Slot::InFlight => Err(LifecycleError::InFlight),
            Slot::Destroyed => Err(LifecycleError::Destroyed),
        }
    }
}

/// The state after `begin` in the state `m`.
pub open spec fn after_begin<T>(m: Slots<T>, id: TaskId) -> Slots<T> {
    if m.contains_key(id) && m[id] is Idle {
        m.insert(id, Slot::InFlight)
    } else {
        m
    }
}

/// What `finish` answers in the state `m`.
pub open spec fn finish_outcome<T>(m: Slots<T>, id: TaskId, result: TaskResult<T>) -> Result<
    StepOutcome<T>,
    LifecycleError,
> {
    if !m.contains_key(id) {
        Err(LifecycleError::NotTracked)
    } else {
        match m[id] {
            Slot::Idle(_) => Err(LifecycleError::NotInFlight),
            Slot::Destroyed => Err(LifecycleError::Destroyed),
            Slot::InFlight => Ok(
                match result {
                    TaskResult::ValueResult(value, info, change, _) => StepOutcome::Progress(
                        value,
                        info,
                        change,
                    ),
                    TaskResult::ExceptionResult(exception) => StepOutcome::Failed(exception),
                    TaskResult::DestroyedResult => StepOutcome::Gone,
                },
            ),
        }
    }
}

/// The state after `finish` in the state `m`.
pub open spec fn after_finish<T>(m: Slots<T>, id: TaskId, result: TaskResult<T>) -> Slots<T> {
    if m.contains_key(id) && m[id] is InFlight {
        match result {
            TaskResult::ValueResult(_, _, _, task) => m.insert(id, Slot::Idle(task)),
            TaskResult::ExceptionResult(_) => m.remove(id),
            TaskResult::DestroyedResult => m.insert(id, Slot::Destroyed),
        }
    } else {
        m
    }
}

/// What `dispatch` answers in the state `m`.
pub open spec fn dispatch_outcome<T>(m: Slots<T>, event: Event) -> Dispatch<T> {
    match event.addressee() {
        None => Dispatch::Unaddressed,
        Some(id) => match begin_outcome(m, id) {
            Ok(task) => Dispatch::Step(id, task),
            Err(LifecycleError::InFlight) => Dispatch::Busy(id),
            Err(_) => Dispatch::NoOp,
        },
    }
}

/// The state after `dispatch` in the state `m`.
pub open spec fn after_dispatch<T>(m: Slots<T>, event: Event) -> Slots<T> {
    match event.addressee() {
        None => m,
        Some(id) => after_begin(m, id),
    }
}

/// One call on a store, for stating what holds of every sequence of calls.
#[derive(Debug)]
pub enum Operation<T> {
    Attach(TaskId, Task<T>),
    Begin(TaskId),
    Finish(TaskId, TaskResult<T>),
    Dispatch(Event),
}

/// The state after the one call `op` in the state `m`.
pub open spec fn after_operation<T>(m: Slots<T>, op: Operation<T>) -> Slots<T> {
    match op {
        Operation::Attach(id, task) => after_attach(m, id, task),
        Operation::Begin(id) => after_begin(m, id),
        Operation::Finish(id, result) => after_finish(m, id, result),
        Operation::Dispatch(event) => after_dispatch(m, event),
    }
}

/// The state after the calls `ops`, made in order from the state `m`.
pub open spec fn after_operations<T>(m: Slots<T>, ops: Seq<Operation<T>>) -> Slots<T>
    decreases ops.len(),
{
    if ops.len() == 0 {
        m
    } else {
        after_operation(after_operations(m, ops.drop_last()), ops.last())
    }
}

/// Whether the task `id` is tracked in the state `m` and not destroyed.
pub open spec fn is_live<T>(m: Slots<T>, id: TaskId) -> bool {
    m.contains_key(id) && !(m[id] is Destroyed)
}

/// Whether the task `id` is marked as destroyed in the state `m`.
pub open spec fn is_destroyed<T>(m: Slots<T>, id: TaskId) -> bool {
    m.contains_key(id) && m[id] is Destroyed
}

/// A step that ends with `DestroyedResult` marks its task as destroyed.
pub proof fn lemma_destroyed_result_marks<T>(m: Slots<T>, id: TaskId)
    requires
        m.contains_key(id),
        m[id] is InFlight,
    ensures
        finish_outcome(m, id, TaskResult::DestroyedResult) == Ok::<
            StepOutcome<T>,
            LifecycleError,
        >(StepOutcome::Gone),
        is_destroyed(after_finish(m, id, TaskResult::DestroyedResult), id),
{
}

/// Whatever is attached, begun, finished or dispatched after a task was
/// destroyed, the task stays destroyed, and every further attempt to attach,
/// begin or finish it fails with `LifecycleError::Destroyed`. An addressed
/// event for it is dropped.
pub proof fn lemma_destroyed_is_final<T>(m: Slots<T>, id: TaskId, ops: Seq<Operation<T>>)
    requires
        is_destroyed(m, id),
    ensures
        is_destroyed(after_operations(m, ops), id),
        attach_outcome(after_operations(m, ops), id) == Err::<(), LifecycleError>(
            LifecycleError::Destroyed,
        ),
        begin_outcome(after_operations(m, ops), id) == Err::<Task<T>, LifecycleError>(
            LifecycleError::Destroyed,
        ),
        forall|result: TaskResult<T>| #[trigger]
            finish_outcome(after_operations(m, ops), id, result) == Err::<
                StepOutcome<T>,
                LifecycleError,
            >(LifecycleError::Destroyed),
        forall|event: Event|
            event.addressee() == Some(id) ==> #[trigger] dispatch_outcome(
                after_operations(m, ops),
                event,
            ) == Dispatch::<T>::NoOp,
    decreases ops.len(),
{
    if ops.len() > 0 {
        lemma_destroyed_is_final(m, id, ops.drop_last());
    }
}

/// An `Edit` or an `Action` for a task that is not tracked, or that was
/// destroyed, is dropped without an error, and nothing in the store changes.
pub proof fn lemma_stale_event_is_dropped<T>(m: Slots<T>, event: Event)
    requires
        event.addressee() matches Some(id) && (!m.contains_key(id) || m[id] is Destroyed),
    ensures
        dispatch_outcome(m, event) == Dispatch::<T>::NoOp,
        after_dispatch(m, event) == m,
{
}

/// An event that is not addressed to one task changes nothing in the store,
/// however often it comes. So an interrupt discards no state.
pub proof fn lemma_unaddressed_event_keeps_the_store<T>(m: Slots<T>, event: Event)
    requires
        event.addressee() is None,
    ensures
        dispatch_outcome(m, event) == Dispatch::<T>::Unaddressed,
        after_dispatch(m, event) == m,
        after_dispatch(after_dispatch(m, event), event) == m,
{
}

/// While a step on a task is in flight, no second step on it can begin: the
/// attempt is refused, an event addressed to the task has to wait, and the
/// store stays as it is.
pub proof fn lemma_steps_do_not_overlap<T>(m: Slots<T>, id: TaskId, event: Event)
    requires
        m.contains_key(id),
        m[id] is Idle,
        event.addressee() == Some(id),
    ensures
        after_begin(m, id) == m.insert(id, Slot::InFlight),
        begin_outcome(after_begin(m, id), id) == Err::<Task<T>, LifecycleError>(
            LifecycleError::InFlight,
        ),
        after_begin(after_begin(m, id), id) == after_begin(m, id),
        dispatch_outcome(after_begin(m, id), event) == Dispatch::<T>::Busy(id),
        after_dispatch(after_begin(m, id), event) == after_begin(m, id),
{
}

/// Two steps on one task happen one after the other: the second step gets
/// the state that the first one stored, and what is stored at the end is the
/// state that the second one produced. Nothing else in the store changes.
pub proof fn lemma_steps_are_sequential<T>(
    m: Slots<T>,
    id: TaskId,
    first: TaskResult<T>,
    second: TaskResult<T>,
)
    requires
        m.contains_key(id),
        m[id] is Idle,
        first is ValueResult,
        second is ValueResult,
    ensures
        ({
            let between = after_finish(after_begin(m, id), id, first);
            let end = after_finish(after_begin(between, id), id, second);
            &&& between == m.insert(id, Slot::Idle(first->ValueResult_3))
            &&& begin_outcome(between, id) == Ok::<Task<T>, LifecycleError>(first->ValueResult_3)
            &&& end == m.insert(id, Slot::Idle(second->ValueResult_3))
        }),
{
    let between = after_finish(after_begin(m, id), id, first);
    assert(between =~= m.insert(id, Slot::Idle(first->ValueResult_3)));
    let end = after_finish(after_begin(between, id), id, second);
    assert(end =~= m.insert(id, Slot::Idle(second->ValueResult_3)));
}

#[derive(Debug)]
struct Entry<T> {
    id: TaskId,
    slot: Slot<T>,
}

/// The tasks of one workflow instance, by id. Each stored state has this one
/// owner.
#[derive(Debug)]
pub struct TaskStore<T> {
    entries: Vec<Entry<T>>,
}

/// Whether one of the first `upto` entries tracks `id` as a live task that
/// `event` concerns.
spec fn reached<T>(s: Seq<Entry<T>>, upto: int, event: Event, id: TaskId) -> bool {
    exists|j: int|
        0 <= j < upto && j < s.len() && (#[trigger] s[j]).id == id && !(s[j].slot is Destroyed)
            && event.concerns(id)
}

spec fn entry_pairs<T>(s: Seq<Entry<T>>) -> Seq<(TaskId, Slot<T>)> {
    s.map_values(|e: Entry<T>| (e.id, e.slot))
}

impl<T> View for TaskStore<T> {
    type V = Slots<T>;

    closed spec fn view(&self) -> Slots<T> {
        pairs_map(entry_pairs(self.entries@))
    }
}

impl<T> TaskStore<T> {
    /// Well-formed: no id is tracked twice.
    pub closed spec fn wf(self) -> bool {
        distinct_keys(entry_pairs(self.entries@))
    }

    /// A store that tracks nothing.
    pub fn new() -> (r: TaskStore<T>)
        ensures
            r.wf(),
            r@ == Map::<TaskId, Slot<T>>::empty(),
    {
        TaskStore { entries: Vec::new() }
    }

    fn position(&self, id: TaskId) -> (r: Option<usize>)
        requires
            self.wf(),
        ensures
            match r {
                Some(i) => i < self.entries@.len() && self.entries@[i as int].id == id
                    && self@.contains_key(id) && self@[id] == self.entries@[i as int].slot,
                None => !self@.contains_key(id),
            },
    {
        let ghost pairs = entry_pairs(self.entries@);
        let mut i: usize = 0;
        while i < self.entries.len()
            invariant
                i <= self.entries.len(),
                self.wf(),
                pairs == entry_pairs(self.entries@),
                forall|j: int| 0 <= j < i ==> (#[trigger] self.entries@[j]).id != id,
            decreases self.entries.len() - i,
        {
            if self.entries[i].id == id {
                proof {
                    lemma_pairs_value(pairs, i as int);
                }
                return Some(i);
            }
            i += 1;
        }
        proof {
            lemma_pairs_dom(pairs, id);
            if self@.contains_key(id) {
                let j = choose|j: int| 0 <= j < pairs.len() && (#[trigger] pairs[j]).0 == id;
                assert(self.entries@[j].id == id);
            }
        }
        None
    }

    /// Where the task `id` stands, if it is tracked.
    pub fn slot(&self, id: TaskId) -> (r: Option<&Slot<T>>)
        requires
            self.wf(),
        ensures
            match r {
                Some(slot) => self@.contains_key(id) && *slot == self@[id],
                None => !self@.contains_key(id),
            },
    {
        match self.position(id) {
            Some(i) => Some(&self.entries[i].slot),
            None => None,
        }
    }

    /// Puts a new task under `id`. An id that is tracked is refused, and so
    /// is the id of a destroyed task.
    pub fn attach(&mut self, id: TaskId, task: Task<T>) -> (r: Result<(), LifecycleError>)
        requires
            old(self).wf(),
        ensures
            final(self).wf(),
            r == attach_outcome(old(self)@, id),
            final(self)@ == after_attach(old(self)@, id, task),
    {
        match self.position(id) {
            Some(i) => match &self.entries[i].slot {
                Slot::Destroyed => Err(LifecycleError::Destroyed),
                _ => Err(LifecycleError::AlreadyTracked),
            },
            None => {
                let ghost pairs = entry_pairs(self.entries@);
                self.entries.push(Entry { id, slot: Slot::Idle(task) });
                proof {
                    lemma_pairs_push(pairs, id, Slot::Idle(task));
                    assert(entry_pairs(self.entries@) =~= pairs.push((id, Slot::Idle(task))));
                }
                Ok(())
            },
        }
    }

    fn put(&mut self, i: usize, slot: Slot<T>) -> (previous: Slot<T>)
        requires
            old(self).wf(),
            i < old(self).entries@.len(),
        ensures
            final(self).wf(),
            previous == old(self).entries@[i as int].slot,
            final(self).entries@.len() == old(self).entries@.len(),
            final(self).entries@[i as int].id == old(self).entries@[i as int].id,
            final(self)@ == old(self)@.insert(old(self).entries@[i as int].id, slot),
    {
        let ghost pairs = entry_pairs(self.entries@);
        let mut previous = slot;
        core::mem::swap(&mut self.entries[i].slot, &mut previous);
        proof {
            lemma_pairs_update(pairs, i as int, slot);
            assert(entry_pairs(self.entries@) =~= pairs.update(i as int, (pairs[i as int].0, slot)));
        }
        previous
    }

    /// Begins a step on the task `id`: hands its state out and marks the task
    /// as in flight. A task that is in flight, destroyed or not tracked is
    /// refused, and the store stays as it is.
    pub fn begin(&mut self, id: TaskId) -> (r: Result<Task<T>, LifecycleError>)
        requires
            old(self).wf(),
        ensures
            final(self).wf(),
            r == begin_outcome(old(self)@, id),
            final(self)@ == after_begin(old(self)@, id),
    {
        match self.position(id) {
            None => Err(LifecycleError::NotTracked),
            Some(i) => match self.put(i, Slot::InFlight) {
                Slot::Idle(task) => Ok(task),
                Slot::InFlight => {
                    assert(self@ =~= old(self)@);
                    Err(LifecycleError::InFlight)
                },
                Slot::Destroyed => {
                    self.put(i, Slot::Destroyed);
                    assert(self@ =~= old(self)@);
                    Err(LifecycleError::Destroyed)
                },
            },
        }
    }

    /// Ends the step on the task `id` with the outcome `result`. A value
    /// result stores the replacement state, an exception takes the task out
    /// of the store, and a destroyed result marks the id as destroyed for
    /// good. A task that is not in flight is refused, and the store stays as
    /// it is.
    pub fn finish(&mut self, id: TaskId, result: TaskResult<T>) -> (r: Result<
        StepOutcome<T>,
        LifecycleError,
    >)
        requires
            old(self).wf(),
        ensures
            final(self).wf(),
            r == finish_outcome(old(self)@, id, result),
            final(self)@ == after_finish(old(self)@, id, result),
    {
        match self.position(id) {
            None => Err(LifecycleError::NotTracked),
            Some(i) => {
                match &self.entries[i].slot {
                    Slot::Idle(_) => {
                        return Err(LifecycleError::NotInFlight);
                    },
                    Slot::Destroyed => {
                        return Err(LifecycleError::Destroyed);
                    },
                    Slot::InFlight => {},
                }
                match result {
                    TaskResult::ValueResult(value, info, change, task) => {
                        self.put(i, Slot::Idle(task));
                        Ok(StepOutcome::Progress(value, info, change))
                    },
                    TaskResult::ExceptionResult(exception) => {
                        let ghost pairs = entry_pairs(self.entries@);
                        self.entries.remove(i);
                        proof {
                            lemma_pairs_remove(pairs, i as int);
                            assert(entry_pairs(self.entries@) =~= pairs.remove(i as int));
                        }
                        Ok(StepOutcome::Failed(exception))
                    },
                    TaskResult::DestroyedResult => {
                        self.put(i, Slot::Destroyed);
                        Ok(StepOutcome::Gone)
                    },
                }
            },
        }
    }

    /// Routes an event. An `Edit` or an `Action` begins a step on the task it
    /// is addressed to, if that task is idle. If the task is in flight the
    /// event has to wait. If the task is not there, or was destroyed, the
    /// event is dropped: that is no error, and the store stays as it is.
    pub fn dispatch(&mut self, event: &Event) -> (r: Dispatch<T>)
        requires
            old(self).wf(),
        ensures
            final(self).wf(),
            r == dispatch_outcome(old(self)@, *event),
            final(self)@ == after_dispatch(old(self)@, *event),
    {
        match event.target() {
            None => Dispatch::Unaddressed,
            Some(id) => match self.begin(id) {
                Ok(task) => Dispatch::Step(id, task),
                Err(LifecycleError::InFlight) => Dispatch::Busy(id),
                Err(_) => Dispatch::NoOp,
            },
        }
    }

    /// The tasks that `event` has to reach: the live tasks that it concerns,
    /// each once. For an `Edit` or an `Action` that is the task it names, if
    /// it is live; for a `Refresh` exactly the listed tasks that are live;
    /// for the other events every live task.
    pub fn targets(&self, event: &Event) -> (r: Vec<TaskId>)
        requires
            self.wf(),
        ensures
            r@.no_duplicates(),
            forall|id: TaskId| r@.contains(id) <==> is_live(self@, id) && event.concerns(id),
    {
        let ghost pairs = entry_pairs(self.entries@);
        let mut out: Vec<TaskId> = Vec::new();
        let mut i: usize = 0;
        while i < self.entries.len()
            invariant
                i <= self.entries.len(),
                self.wf(),
                pairs == entry_pairs(self.entries@),
                forall|k: int|
                    0 <= k < out@.len() ==> reached(self.entries@, i as int, *event, #[trigger] out@[k]),
                forall|id: TaskId|
                    reached(self.entries@, i as int, *event, id) ==> out@.contains(id),
                out@.no_duplicates(),
            decreases self.entries.len() - i,
        {
            let id = self.entries[i].id;
            let live = match &self.entries[i].slot {
                Slot::Destroyed => false,
                _ => true,
            };
            let ghost before = out@;
            if live && event.is_for(id) {
                proof {
                    assert forall|k: int| 0 <= k < out@.len() implies out@[k] != id by {
                        let j = choose|j: int|
                            0 <= j < i && (#[trigger] self.entries@[j]).id == out@[k];
                        assert(pairs[j].0 != pairs[i as int].0);
                    }
                }
                out.push(id);
                assert(out@[before.len() as int] == id);
            }
            proof {
                assert forall|k: int| 0 <= k < out@.len() implies reached(
                    self.entries@,
                    i + 1,
                    *event,
                    #[trigger] out@[k],
                ) by {
                    if k < before.len() {
                        assert(reached(self.entries@, i as int, *event, before[k]));
                        let j = choose|j: int|
                            0 <= j < i && (#[trigger] self.entries@[j]).id == before[k] && !(
                            self.entries@[j].slot is Destroyed) && event.concerns(before[k]);
                        assert(self.entries@[j].id == out@[k]);
                    } else {
                        assert(self.entries@[i as int].id == out@[k]);
                    }
                }
                assert forall|other: TaskId|
                    reached(self.entries@, i + 1, *event, other) implies out@.contains(other) by {
                    let j = choose|j: int|
                        0 <= j < i + 1 && (#[trigger] self.entries@[j]).id == other && !(
                        self.entries@[j].slot is Destroyed) && event.concerns(other);
                    if j < i {
                        assert(reached(self.entries@, i as int, *event, other));
                        assert(before.contains(other));
                        let k = choose|k: int| 0 <= k < before.len() && before[k] == other;
                        assert(out@[k] == other);
                    } else {
                        assert(out@[before.len() as int] == other);
                    }
                }
            }
            i += 1;
        }
        proof {
            assert forall|id: TaskId| out@.contains(id) <==> is_live(self@, id) && event.concerns(
                id,
            ) by {
                lemma_pairs_dom(pairs, id);
                if out@.contains(id) {
                    let k = choose|k: int| 0 <= k < out@.len() && out@[k] == id;
                    assert(reached(self.entries@, i as int, *event, out@[k]));
                    let j = choose|j: int|
                        0 <= j < i && (#[trigger] self.entries@[j]).id == id && !(
                        self.entries@[j].slot is Destroyed) && event.concerns(id);
                    assert(pairs[j].0 == id);
                    lemma_pairs_value(pairs, j);
                }
                if is_live(self@, id) && event.concerns(id) {
                    let j = choose|j: int| 0 <= j < pairs.len() && (#[trigger] pairs[j]).0 == id;
                    lemma_pairs_value(pairs, j);
                    assert(self.entries@[j].id == id);
                    assert(reached(self.entries@, i as int, *event, id));
                }
            }
        }
        out
    }

    /// Discards every task state and every mark, as a `Reset` asks.
    pub fn reset(&mut self)
        ensures
            final(self).wf(),
            final(self)@ == Map::<TaskId, Slot<T>>::empty(),
    {
        self.entries.clear();
    }
}

} // verus!
