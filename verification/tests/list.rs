use tasks::{Json, TaskAttributes, TaskId, TaskList, TaskListFilter, TaskListItem, TaskValue};

fn json(text: &str) -> Json {
    Json::parse(text).unwrap()
}

fn item(task: u32, detached: bool, self_: bool) -> TaskListItem<u32> {
    TaskListItem {
        task_id: TaskId(1, task),
        list_id: TaskId(1, 0),
        detached,
        self_,
        value: TaskValue::stable(task * 10),
        task_attributes: TaskAttributes::new(),
        management_attributes: TaskAttributes::new(),
    }
}

fn with_attribute(mut it: TaskListItem<u32>, management: bool, name: &str, value: &str) -> TaskListItem<u32> {
    if management {
        it.management_attributes.insert(name.to_string(), json(value));
    } else {
        it.task_attributes.insert(name.to_string(), json(value));
    }
    it
}

fn picked(filter: &TaskListFilter, list: &TaskList<u32>) -> Vec<u32> {
    filter.select(list).iter().map(|e| e.task_id.1).collect()
}

#[test]
fn default_query_leaves_detached_entries_out() {
    let list: TaskList<u32> = (TaskId(1, 0), vec![item(1, false, false), item(2, true, false)]);
    let default = TaskListFilter::full();
    assert_eq!(picked(&default, &list), vec![1]);
    let with_detached = TaskListFilter {
        include_detached: true,
        ..TaskListFilter::full()
    };
    assert_eq!(picked(&with_detached, &list), vec![1, 2]);
}

#[test]
fn full_sets_no_predicate_and_no_toggle() {
    let f = TaskListFilter::full();
    assert!(f.only_index.is_none());
    assert!(f.only_task_id.is_none());
    assert!(f.not_task_id.is_none());
    assert!(f.only_attribute.is_none());
    assert!(!f.only_self);
    assert!(!f.include_detached);
    assert!(!f.include_value);
    assert!(!f.include_task_attributes);
    assert!(!f.include_management_attributes);
    assert!(!f.include_progress);
    let d = TaskListFilter::default();
    assert!(d.only_index.is_none() && !d.only_self && !d.include_value);
}

#[test]
fn the_own_entry_comes_only_when_asked_for() {
    let list: TaskList<u32> = (TaskId(1, 0), vec![item(0, false, true), item(1, false, false)]);
    assert_eq!(picked(&TaskListFilter::full(), &list), vec![1]);
    let with_self = TaskListFilter {
        only_self: true,
        ..TaskListFilter::full()
    };
    assert_eq!(picked(&with_self, &list), vec![0, 1]);
}

#[test]
fn predicates_are_taken_together() {
    let list: TaskList<u32> = (
        TaskId(1, 0),
        vec![
            item(1, false, false),
            item(2, false, false),
            item(3, false, false),
            item(4, false, false),
        ],
    );
    let by_index = TaskListFilter {
        only_index: Some(vec![3, 0, 7]),
        ..TaskListFilter::full()
    };
    assert_eq!(picked(&by_index, &list), vec![1, 4]);
    let by_id = TaskListFilter {
        only_task_id: Some(vec![TaskId(1, 3), TaskId(1, 2), TaskId(2, 1)]),
        ..TaskListFilter::full()
    };
    assert_eq!(picked(&by_id, &list), vec![2, 3]);
    let not_id = TaskListFilter {
        not_task_id: Some(vec![TaskId(1, 2)]),
        ..TaskListFilter::full()
    };
    assert_eq!(picked(&not_id, &list), vec![1, 3, 4]);
    let all = TaskListFilter {
        only_index: Some(vec![1, 2, 3]),
        only_task_id: Some(vec![TaskId(1, 1), TaskId(1, 2), TaskId(1, 3)]),
        not_task_id: Some(vec![TaskId(1, 3)]),
        ..TaskListFilter::full()
    };
    assert_eq!(picked(&all, &list), vec![2]);
    let nothing = TaskListFilter {
        only_index: Some(vec![]),
        ..TaskListFilter::full()
    };
    assert_eq!(picked(&nothing, &list), Vec::<u32>::new());
}

#[test]
fn attribute_predicate_looks_at_both_mappings() {
    let list: TaskList<u32> = (
        TaskId(1, 0),
        vec![
            with_attribute(item(1, false, false), false, "kind", "\"a\""),
            with_attribute(item(2, false, false), true, "kind", "\"a\""),
            with_attribute(item(3, false, false), false, "kind", "\"b\""),
            item(4, false, false),
        ],
    );
    let f = TaskListFilter {
        only_attribute: Some(("kind".to_string(), json("\"a\""))),
        ..TaskListFilter::full()
    };
    assert_eq!(picked(&f, &list), vec![1, 2]);
}

#[test]
fn detached_entries_are_left_out_even_when_they_pass_the_predicates() {
    let list: TaskList<u32> = (TaskId(1, 0), vec![item(1, true, false), item(2, false, false)]);
    let f = TaskListFilter {
        only_task_id: Some(vec![TaskId(1, 1)]),
        ..TaskListFilter::full()
    };
    assert_eq!(picked(&f, &list), Vec::<u32>::new());
}

#[test]
fn optional_fields_come_only_when_asked_for() {
    let list: TaskList<u32> = (
        TaskId(1, 0),
        vec![with_attribute(
            with_attribute(item(1, false, false), false, "t", "1"),
            true,
            "m",
            "2",
        )],
    );
    let bare = TaskListFilter::full().select(&list);
    assert_eq!(bare.len(), 1);
    assert_eq!(bare[0].index, 0);
    assert_eq!(bare[0].task_id, TaskId(1, 1));
    assert_eq!(bare[0].list_id, TaskId(1, 0));
    assert!(!bare[0].detached && !bare[0].self_);
    assert!(bare[0].value.is_none());
    assert!(bare[0].task_attributes.is_none());
    assert!(bare[0].management_attributes.is_none());

    let value_only = TaskListFilter {
        include_value: true,
        ..TaskListFilter::full()
    };
    let r = value_only.select(&list);
    assert!(matches!(r[0].value, Some(TaskValue::Value(10, true))));
    assert!(r[0].task_attributes.is_none());
    assert!(r[0].management_attributes.is_none());

    let attrs_only = TaskListFilter {
        include_task_attributes: true,
        include_management_attributes: true,
        include_progress: true,
        ..TaskListFilter::full()
    };
    let r = attrs_only.select(&list);
    assert!(r[0].value.is_none());
    assert_eq!(r[0].task_attributes.unwrap().get("t"), Some(&json("1")));
    assert_eq!(r[0].management_attributes.unwrap().get("m"), Some(&json("2")));
}

#[test]
fn an_empty_list_gives_an_empty_answer() {
    let list: TaskList<u32> = (TaskId(1, 0), vec![]);
    assert!(TaskListFilter::full().select(&list).is_empty());
}

#[test]
fn accepts_tells_whether_one_entry_passes() {
    let f = TaskListFilter {
        only_index: Some(vec![2]),
        ..TaskListFilter::full()
    };
    assert!(f.accepts(2, &item(1, false, false)));
    assert!(!f.accepts(1, &item(1, false, false)));
    assert!(!f.accepts(2, &item(1, true, false)));
    assert!(!f.accepts(2, &item(1, false, true)));
}
