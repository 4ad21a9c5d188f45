//! A set of task ids.

use crate::identity::TaskId;
use vstd::prelude::*;

verus! {

/// A finite set of task ids. It is walked in the order in which the ids were
/// first inserted.
#[derive(Debug)]
pub struct TaskIdSet {
    ids: Vec<TaskId>,
}

impl View for TaskIdSet {
    type V = Set<TaskId>;

    closed spec fn view(&self) -> Set<TaskId> {
        self.ids@.to_set()
    }
}

impl TaskIdSet {
    /// Well-formed: no id is stored twice.
    pub closed spec fn wf(self) -> bool {
        self.ids@.no_duplicates()
    }

    /// The members in the order in which they are walked.
    pub closed spec fn members(self) -> Seq<TaskId> {
        self.ids@
    }

    /// The walk holds every member once, and nothing else.
    pub proof fn lemma_members(self)
        requires
            self.wf(),
        ensures
            self.members().no_duplicates(),
            self.members().to_set() == self@,
            self@.finite(),
            self@.len() == self.members().len(),
    {
        self.ids@.unique_seq_to_set();
        vstd::seq_lib::seq_to_set_is_finite(self.ids@);
    }

    /// The empty set. Its walk holds nothing.
    pub fn new() -> (r: TaskIdSet)
        ensures
            r.wf(),
            r@ == Set::<TaskId>::empty(),
            r.members() == Seq::<TaskId>::empty(),
    {
        let r = TaskIdSet { ids: Vec::new() };
        assert(r.ids@.to_set() =~= Set::<TaskId>::empty());
        r
    }

    /// The number of members.
    pub fn len(&self) -> (n: usize)
        requires
            self.wf(),
        ensures
            n == self@.len(),
            n == self.members().len(),
    {
        proof {
            self.lemma_members();
        }
        self.ids.len()
    }

    /// Whether `id` is a member.
    pub fn contains(&self, id: TaskId) -> (r: bool)
        ensures
            r == self@.contains(id),
    {
        let mut i: usize = 0;
        while i < self.ids.len()
            invariant
                i <= self.ids.len(),
                forall|j: int| 0 <= j < i ==> self.ids@[j] != id,
            decreases self.ids.len() - i,
        {
            if self.ids[i] == id {
                assert(self.ids@.contains(id));
                return true;
            }
            i += 1;
        }
        false
    }

    /// Adds `id`. Returns whether it was new.
    pub fn insert(&mut self, id: TaskId) -> (added: bool)
        requires
            old(self).wf(),
        ensures
            final(self).wf(),
            final(self)@ == old(self)@.insert(id),
            added == !old(self)@.contains(id),
            final(self).members() == if added {
                old(self).members().push(id)
            } else {
                old(self).members()
            },
    {
        if self.contains(id) {
            assert(self@ =~= self@.insert(id));
            false
        } else {
            let ghost before = self.ids@;
            self.ids.push(id);
            proof {
                assert forall|a: TaskId| self.ids@.contains(a) <==> (before.contains(a) || a == id) by {
                    if before.contains(a) {
                        let i = choose|i: int| 0 <= i < before.len() && before[i] == a;
                        assert(self.ids@[i] == a);
                    }
                    if a == id {
                        assert(self.ids@[before.len() as int] == a);
                    }
                }
                assert(self.ids@.to_set() =~= before.to_set().insert(id));
                assert forall|i: int, j: int|
                    0 <= i < self.ids@.len() && 0 <= j < self.ids@.len() && i != j implies self.ids@[i]
                    != self.ids@[j] by {
                    if i < before.len() {
                        assert(before.contains(self.ids@[i]));
                    }
                    if j < before.len() {
                        assert(before.contains(self.ids@[j]));
                    }
                }
            }
            true
        }
    }

    /// The member at `index` of the walk, if there is one.
    pub fn get(&self, index: usize) -> (r: Option<TaskId>)
        ensures
            r == if index < self.members().len() {
                Some(self.members()[index as int])
            } else {
                None
            },
    {
        if index < self.ids.len() {
            Some(self.ids[index])
        } else {
            None
        }
    }
}

} // verus!
