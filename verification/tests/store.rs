use tasks::{
    Dispatch, Event, Json, LifecycleError, Slot, StepOutcome, Task, TaskEvalInfo, TaskException,
    TaskId, TaskResult, TaskStore, TaskValue, UIChange,
};

fn progress(value: u32, next: u32) -> TaskResult<u32> {
    TaskResult::ValueResult(
        TaskValue::unstable(value),
        TaskEvalInfo(Json::parse("{}").unwrap()),
        UIChange(Json::parse("[]").unwrap()),
        Task::new(next),
    )
}

fn state_of(store: &TaskStore<u32>, id: TaskId) -> Option<u32> {
    match store.slot(id) {
        Some(Slot::Idle(task)) => Some(*task.value()),
        _ => None,
    }
}

#[test]
fn a_step_replaces_the_state() {
    let id = TaskId(1, 0);
    let mut store = TaskStore::new();
    assert_eq!(store.attach(id, Task::new(10)), Ok(()));
    let task = store.begin(id).unwrap();
    assert_eq!(*task.value(), 10);
    assert!(matches!(store.slot(id), Some(Slot::InFlight)));
    let outcome = store.finish(id, progress(11, 12)).unwrap();
    assert!(matches!(
        outcome,
        StepOutcome::Progress(TaskValue::Value(11, false), _, _)
    ));
    assert_eq!(state_of(&store, id), Some(12));
}

#[test]
fn attach_refuses_a_tracked_id() {
    let id = TaskId(1, 0);
    let mut store = TaskStore::new();
    assert_eq!(store.attach(id, Task::new(1)), Ok(()));
    assert_eq!(
        store.attach(id, Task::new(2)),
        Err(LifecycleError::AlreadyTracked)
    );
    assert_eq!(state_of(&store, id), Some(1));
    store.begin(id).unwrap();
    assert_eq!(
        store.attach(id, Task::new(3)),
        Err(LifecycleError::AlreadyTracked)
    );
}

#[test]
fn a_destroyed_task_is_never_evaluated_again() {
    let id = TaskId(1, 0);
    let other = TaskId(1, 1);
    let mut store = TaskStore::new();
    store.attach(id, Task::new(1)).unwrap();
    store.attach(other, Task::new(2)).unwrap();
    store.begin(id).unwrap();
    assert!(matches!(
        store.finish(id, TaskResult::DestroyedResult),
        Ok(StepOutcome::Gone)
    ));
    assert!(matches!(store.slot(id), Some(Slot::Destroyed)));
    assert!(matches!(store.begin(id), Err(LifecycleError::Destroyed)));
    assert!(matches!(
        store.finish(id, progress(0, 0)),
        Err(LifecycleError::Destroyed)
    ));
    assert_eq!(
        store.attach(id, Task::new(9)),
        Err(LifecycleError::Destroyed)
    );
    store.begin(other).unwrap();
    store.finish(other, progress(3, 4)).unwrap();
    assert!(matches!(store.begin(id), Err(LifecycleError::Destroyed)));
    assert!(matches!(store.slot(id), Some(Slot::Destroyed)));
    assert_eq!(state_of(&store, other), Some(4));
}

#[test]
fn an_exception_takes_the_task_out() {
    let id = TaskId(2, 5);
    let mut store = TaskStore::new();
    store.attach(id, Task::new(1)).unwrap();
    store.begin(id).unwrap();
    let failure = TaskResult::ExceptionResult(TaskException::Raised(
        Json::parse("404").unwrap(),
        "not found".to_string(),
    ));
    match store.finish(id, failure) {
        Ok(StepOutcome::Failed(exception)) => assert_eq!(exception.message(), "not found"),
        _ => panic!("the exception is handed on"),
    }
    assert!(store.slot(id).is_none());
    assert!(matches!(store.begin(id), Err(LifecycleError::NotTracked)));
    assert_eq!(store.attach(id, Task::new(7)), Ok(()));
    assert_eq!(state_of(&store, id), Some(7));
}

#[test]
fn begin_and_finish_refuse_what_is_out_of_turn() {
    let id = TaskId(1, 0);
    let mut store: TaskStore<u32> = TaskStore::new();
    assert!(matches!(store.begin(id), Err(LifecycleError::NotTracked)));
    assert!(matches!(
        store.finish(id, progress(0, 0)),
        Err(LifecycleError::NotTracked)
    ));
    store.attach(id, Task::new(1)).unwrap();
    assert!(matches!(
        store.finish(id, progress(0, 0)),
        Err(LifecycleError::NotInFlight)
    ));
    assert_eq!(state_of(&store, id), Some(1));
    store.begin(id).unwrap();
    assert!(matches!(store.begin(id), Err(LifecycleError::InFlight)));
    assert!(matches!(store.slot(id), Some(Slot::InFlight)));
}

#[test]
fn events_for_missing_tasks_are_dropped() {
    let id = TaskId(1, 0);
    let mut store = TaskStore::new();
    store.attach(id, Task::new(5)).unwrap();
    let action = Event::Action(TaskId(9, 9), "go".to_string());
    assert!(matches!(store.dispatch(&action), Dispatch::NoOp));
    let edit = Event::Edit(TaskId(1, 1), "field".to_string(), Json::parse("1").unwrap());
    assert!(matches!(store.dispatch(&edit), Dispatch::NoOp));
    assert_eq!(state_of(&store, id), Some(5));
    assert!(store.slot(TaskId(9, 9)).is_none());
    assert!(store.slot(TaskId(1, 1)).is_none());
}

#[test]
fn a_late_event_for_a_destroyed_task_is_dropped() {
    let id = TaskId(1, 0);
    let mut store = TaskStore::new();
    store.attach(id, Task::new(5)).unwrap();
    store.begin(id).unwrap();
    store.finish(id, TaskResult::DestroyedResult).unwrap();
    let late = Event::Action(id, "go".to_string());
    assert!(matches!(store.dispatch(&late), Dispatch::NoOp));
    assert!(matches!(store.slot(id), Some(Slot::Destroyed)));
}

#[test]
fn two_events_for_one_task_run_one_after_the_other() {
    let id = TaskId(1, 0);
    let mut store = TaskStore::new();
    store.attach(id, Task::new(0)).unwrap();
    let first = Event::Action(id, "inc".to_string());
    let second = Event::Edit(id, "n".to_string(), Json::parse("40").unwrap());

    let state = match store.dispatch(&first) {
        Dispatch::Step(to, task) => {
            assert_eq!(to, id);
            *task.value()
        }
        _ => panic!("the task was idle"),
    };
    assert!(matches!(store.dispatch(&second), Dispatch::Busy(to) if to == id));
    assert!(matches!(store.slot(id), Some(Slot::InFlight)));
    store.finish(id, progress(state + 1, state + 1)).unwrap();

    let state = match store.dispatch(&second) {
        Dispatch::Step(_, task) => *task.value(),
        _ => panic!("the first step has ended"),
    };
    assert_eq!(state, 1);
    store.finish(id, progress(state + 40, state + 40)).unwrap();
    assert_eq!(state_of(&store, id), Some(41));
}

#[test]
fn unaddressed_events_leave_the_store_alone() {
    let id = TaskId(1, 0);
    let mut store = TaskStore::new();
    store.attach(id, Task::new(5)).unwrap();
    assert!(matches!(store.dispatch(&Event::Reset), Dispatch::Unaddressed));
    assert!(matches!(
        store.dispatch(&Event::ServerInterrupted),
        Dispatch::Unaddressed
    ));
    assert!(matches!(
        store.dispatch(&Event::ServerInterrupted),
        Dispatch::Unaddressed
    ));
    assert!(matches!(store.dispatch(&Event::Destroy), Dispatch::Unaddressed));
    assert_eq!(state_of(&store, id), Some(5));
}

#[test]
fn reset_discards_everything() {
    let a = TaskId(1, 0);
    let b = TaskId(1, 1);
    let mut store = TaskStore::new();
    store.attach(a, Task::new(1)).unwrap();
    store.attach(b, Task::new(2)).unwrap();
    store.begin(b).unwrap();
    store.finish(b, TaskResult::DestroyedResult).unwrap();
    store.reset();
    assert!(store.slot(a).is_none());
    assert!(store.slot(b).is_none());
    assert_eq!(store.attach(b, Task::new(3)), Ok(()));
    assert_eq!(state_of(&store, b), Some(3));
}

fn sorted(mut ids: Vec<TaskId>) -> Vec<TaskId> {
    ids.sort();
    ids
}

#[test]
fn targets_are_the_live_tasks_that_the_event_concerns() {
    let a = TaskId(1, 0);
    let b = TaskId(1, 1);
    let c = TaskId(1, 2);
    let d = TaskId(1, 3);
    let mut store = TaskStore::new();
    for (id, state) in [(a, 1), (b, 2), (c, 3), (d, 4)] {
        store.attach(id, Task::new(state)).unwrap();
    }
    store.begin(b).unwrap();
    store.begin(d).unwrap();
    store.finish(d, TaskResult::DestroyedResult).unwrap();

    assert_eq!(store.targets(&Event::Action(a, "x".to_string())), vec![a]);
    assert_eq!(store.targets(&Event::Action(b, "x".to_string())), vec![b]);
    assert_eq!(store.targets(&Event::Action(d, "x".to_string())), vec![]);
    assert_eq!(
        store.targets(&Event::Edit(TaskId(7, 7), "f".to_string(), Json::parse("0").unwrap())),
        vec![]
    );

    let mut listed = tasks::TaskIdSet::new();
    listed.insert(c);
    listed.insert(d);
    listed.insert(TaskId(7, 7));
    listed.insert(a);
    assert_eq!(sorted(store.targets(&Event::Refresh(listed))), vec![a, c]);
    assert_eq!(
        store.targets(&Event::Refresh(tasks::TaskIdSet::new())),
        vec![]
    );

    assert_eq!(sorted(store.targets(&Event::Destroy)), vec![a, b, c]);
    assert_eq!(sorted(store.targets(&Event::Reset)), vec![a, b, c]);
    assert_eq!(
        sorted(store.targets(&Event::ServerInterrupted)),
        vec![a, b, c]
    );
}
