//! Task lists and the filter that selects from them.

use crate::attributes::TaskAttributes;
use crate::identity::TaskId;
use crate::json::Json;
use crate::value::TaskValue;
use vstd::prelude::*;

verus! {

/// What a parent's list shows of one child.
#[derive(Debug)]
pub struct TaskListItem<T> {
    pub task_id: TaskId,
    /// The id of the list that owns the entry.
    pub list_id: TaskId,
    /// Hidden from the structure of the list, but still alive.
    pub detached: bool,
    /// The entry stands for the list task itself, not for a child.
    pub self_: bool,
    pub value: TaskValue<T>,
    pub task_attributes: TaskAttributes,
    pub management_attributes: TaskAttributes,
}

/// The id of the task that owns the list, and the entries in display order.
pub type TaskList<T> = (TaskId, Vec<TaskListItem<T>>);

/// Which entries of a task list a query wants, and which of their optional
/// fields.
#[derive(Debug)]
pub struct TaskListFilter {
    /// Only the entries at these positions.
    pub only_index: Option<Vec<usize>>,
    /// Only the entries of these tasks.
    pub only_task_id: Option<Vec<TaskId>>,
    /// None of the entries of these tasks.
    pub not_task_id: Option<Vec<TaskId>>,
    /// Only the entries that have this attribute with this value.
    pub only_attribute: Option<(String, Json)>,
    /// Include the entry that stands for the list task itself.
    pub only_self: bool,
    /// Include the entries that are detached.
    pub include_detached: bool,
    /// Fill in the value of each entry.
    pub include_value: bool,
    /// Fill in the task attributes of each entry.
    pub include_task_attributes: bool,
    /// Fill in the management attributes of each entry.
    pub include_management_attributes: bool,
    /// Ask for progress information. An entry of a task list carries none,
    /// so this toggle fills in nothing here.
    pub include_progress: bool,
}

/// One entry of an answer: the structural fields always, the others only
/// where the filter asked for them.
#[derive(Debug)]
pub struct TaskListEntry<'a, T> {
    /// The position of the entry in the list.
    pub index: usize,
    pub task_id: TaskId,
    pub list_id: TaskId,
    pub detached: bool,
    pub self_: bool,
    pub value: Option<&'a TaskValue<T>>,
    pub task_attributes: Option<&'a TaskAttributes>,
    pub management_attributes: Option<&'a TaskAttributes>,
}

impl<T> TaskListItem<T> {
    /// Well-formed: both attribute mappings are.
    pub open spec fn wf(self) -> bool {
        self.task_attributes.wf() && self.management_attributes.wf()
    }

    /// Whether the management attributes or the task attributes map `name`
    /// to `value`.
    pub open spec fn has_attribute(self, name: Seq<char>, value: Seq<char>) -> bool {
        ||| self.management_attributes@.contains_key(name) && self.management_attributes@[name]
            == value
        ||| self.task_attributes@.contains_key(name) && self.task_attributes@[name] == value
    }

    /// Whether the management attributes or the task attributes map `name`
    /// to a value equal to `value`.
    pub fn attribute_is(&self, name: &str, value: &Json) -> (r: bool)
        requires
            self.wf(),
        ensures
            r == self.has_attribute(name@, value@),
    {
        self.management_attributes.holds(name, value) || self.task_attributes.holds(name, value)
    }
}

/// Whether `ids` holds `id`.
pub fn holds_id(ids: &Vec<TaskId>, id: TaskId) -> (r: bool)
    ensures
        r == ids@.contains(id),
{
    let mut i: usize = 0;
    while i < ids.len()
        invariant
            i <= ids.len(),
            forall|j: int| 0 <= j < i ==> ids@[j] != id,
        decreases ids.len() - i,
    {
        if ids[i] == id {
            return true;
        }
        i += 1;
    }
    false
}

/// Whether `positions` holds `index`.
pub fn holds_index(positions: &Vec<usize>, index: usize) -> (r: bool)
    ensures
        r == positions@.contains(index),
{
    let mut i: usize = 0;
    while i < positions.len()
        invariant
            i <= positions.len(),
            forall|j: int| 0 <= j < i ==> positions@[j] != index,
        decreases positions.len() - i,
    {
        if positions[i] == index {
            return true;
        }
        i += 1;
    }
    false
}

impl TaskListFilter {
    /// Whether the filter lets the entry `item` at position `index` through:
    /// it passes every predicate that is set, it is the list's own entry only
    /// where `only_self` asks for that, and it is detached only where
    /// `include_detached` asks for that.
    pub open spec fn admits<T>(self, index: usize, item: TaskListItem<T>) -> bool {
        &&& self.only_index matches Some(positions) ==> positions@.contains(index)
        &&& self.only_task_id matches Some(ids) ==> ids@.contains(item.task_id)
        &&& self.not_task_id matches Some(ids) ==> !ids@.contains(item.task_id)
        &&& self.only_attribute matches Some(wanted) ==> item.has_attribute(wanted.0@, wanted.1@)
        &&& item.self_ ==> self.only_self
        &&& item.detached ==> self.include_detached
    }

    /// The positions below `n` of the entries that the filter lets through,
    /// in increasing order.
    pub open spec fn selection<T>(self, items: Seq<TaskListItem<T>>, n: nat) -> Seq<usize>
        decreases n,
    {
        if n == 0 {
            Seq::empty()
        } else {
            let before = self.selection(items, (n - 1) as nat);
            if self.admits((n - 1) as usize, items[n - 1]) {
                before.push((n - 1) as usize)
            } else {
                before
            }
        }
    }

    /// What an answer shows of the entry `item` at position `index`.
    pub open spec fn projection<'a, T>(self, index: usize, item: &'a TaskListItem<T>)
        -> TaskListEntry<'a, T> {
        TaskListEntry {
            index,
            task_id: item.task_id,
            list_id: item.list_id,
            detached: item.detached,
            self_: item.self_,
            value: if self.include_value {
                Some(&item.value)
            } else {
                None
            },
            task_attributes: if self.include_task_attributes {
                Some(&item.task_attributes)
            } else {
                None
            },
            management_attributes: if self.include_management_attributes {
                Some(&item.management_attributes)
            } else {
                None
            },
        }
    }

    /// The answer to a query on `items`: the projections of the selected
    /// entries, in list order.
    pub open spec fn answer<'a, T>(self, items: Seq<TaskListItem<T>>) -> Seq<TaskListEntry<'a, T>> {
        let chosen = self.selection(items, items.len());
        Seq::new(chosen.len(), |k: int| self.projection(chosen[k], &items[chosen[k] as int]))
    }

    /// The permissive filter: no predicate is set, and no optional field is
    /// asked for. Detached entries and the list's own entry stay out until
    /// they are asked for.
    pub fn full() -> (r: TaskListFilter)
        ensures
            r.only_index is None,
            r.only_task_id is None,
            r.not_task_id is None,
            r.only_attribute is None,
            !r.only_self,
            !r.include_detached,
            !r.include_value,
            !r.include_task_attributes,
            !r.include_management_attributes,
            !r.include_progress,
    {
        TaskListFilter {
            only_index: None,
            only_task_id: None,
            not_task_id: None,
            only_attribute: None,
            only_self: false,
            include_detached: false,
            include_value: false,
            include_task_attributes: false,
            include_management_attributes: false,
            include_progress: false,
        }
    }

    /// Whether the filter lets the entry `item` at position `index` through.
    pub fn accepts<T>(&self, index: usize, item: &TaskListItem<T>) -> (r: bool)
        requires
            item.wf(),
        ensures
            r == self.admits(index, *item),
    {
        if item.self_ && !self.only_self {
            return false;
        }
        if item.detached && !self.include_detached {
            return false;
        }
        if let Some(positions) = &self.only_index {
            if !holds_index(positions, index) {
                return false;
            }
        }
        if let Some(ids) = &self.only_task_id {
            if !holds_id(ids, item.task_id) {
                return false;
            }
        }
        if let Some(ids) = &self.not_task_id {
            if holds_id(ids, item.task_id) {
                return false;
            }
        }
        if let Some(wanted) = &self.only_attribute {
            if !item.attribute_is(wanted.0.as_str(), &wanted.1) {
                return false;
            }
        }
        true
    }

    /// What an answer shows of the entry `item` at position `index`.
    pub fn project<'a, T>(&self, index: usize, item: &'a TaskListItem<T>) -> (r: TaskListEntry<
        'a,
        T,
    >)
        ensures
            r == self.projection(index, item),
    {
        TaskListEntry {
            index,
            task_id: item.task_id,
            list_id: item.list_id,
            detached: item.detached,
            self_: item.self_,
            value: if self.include_value {
                Some(&item.value)
            } else {
                None
            },
            task_attributes: if self.include_task_attributes {
                Some(&item.task_attributes)
            } else {
                None
            },
            management_attributes: if self.include_management_attributes {
                Some(&item.management_attributes)
            } else {
                None
            },
        }
    }

    /// Answers a query on `list`: the entries that the filter lets through,
    /// in list order, each with the optional fields that the filter asks for.
    pub fn select<'a, T>(&self, list: &'a TaskList<T>) -> (r: Vec<TaskListEntry<'a, T>>)
        requires
            forall|i: int| 0 <= i < list.1@.len() ==> (#[trigger] list.1@[i]).wf(),
        ensures
            r@ == self.answer(list.1@),
    {
        let items = &list.1;
        let mut out: Vec<TaskListEntry<'a, T>> = Vec::new();
        let mut i: usize = 0;
        while i < items.len()
            invariant
                i <= items.len(),
                forall|j: int| 0 <= j < items@.len() ==> (#[trigger] items@[j]).wf(),
                out@.len() == self.selection(items@, i as nat).len(),
                forall|k: int|
                    0 <= k < out@.len() ==> {
                        let at = self.selection(items@, i as nat)[k];
                        &&& at < i
                        &&& #[trigger] out@[k] == self.projection(at, &items@[at as int])
                    },
            decreases items.len() - i,
        {
            if self.accepts(i, &items[i]) {
                out.push(self.project(i, &items[i]));
            }
            i += 1;
        }
        assert(out@ =~= self.answer(items@));
        out
    }

    /// The selection holds exactly the positions of the entries that the
    /// filter lets through, each once and in increasing order.
    pub proof fn lemma_selection<T>(self, items: Seq<TaskListItem<T>>, n: nat)
        requires
            n <= items.len(),
            n <= usize::MAX,
        ensures
            forall|k: int|
                0 <= k < self.selection(items, n).len() ==> {
                    let at = #[trigger] self.selection(items, n)[k];
                    at < n && self.admits(at, items[at as int])
                },
            forall|k: int, l: int|
                0 <= k < l < self.selection(items, n).len() ==> self.selection(items, n)[k]
                    < self.selection(items, n)[l],
            forall|i: usize|
                i < n && self.admits(i, items[i as int]) ==> self.selection(items, n).contains(i),
        decreases n,
    {
        if n > 0 {
            let before = self.selection(items, (n - 1) as nat);
            let now = self.selection(items, n);
            self.lemma_selection(items, (n - 1) as nat);
            assert forall|i: usize| i < n && self.admits(i, items[i as int]) implies now.contains(
                i,
            ) by {
                if i < n - 1 {
                    assert(before.contains(i));
                    let k = choose|k: int| 0 <= k < before.len() && before[k] == i;
                    assert(now[k] == i);
                } else {
                    assert(now[now.len() - 1] == i);
                }
            }
        }
    }
}

impl Default for TaskListFilter {
    fn default() -> (r: TaskListFilter)
        ensures
            r.only_index is None,
            r.only_task_id is None,
            r.not_task_id is None,
            r.only_attribute is None,
            !r.only_self,
            !r.include_detached,
            !r.include_value,
            !r.include_task_attributes,
            !r.include_management_attributes,
            !r.include_progress,
    {
        TaskListFilter::full()
    }
}

} // verus!
