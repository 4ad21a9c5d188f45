//! Task values and their stability.

use vstd::prelude::*;

verus! {

/// `true` when a value will not change again without new input.
pub type Stability = bool;

/// The current value of a task: absent, or present together with its stability.
#[derive(Debug)]
pub enum TaskValue<T> {
    NoValue,
    Value(T, Stability),
}

impl<T> TaskValue<T> {
    /// Whether a value is present and final.
    pub open spec fn stability(self) -> bool {
        match self {
            TaskValue::Value(_, s) => s,
            TaskValue::NoValue => false,
        }
    }

    /// `out` is a possible result of transforming `self` with `f`: nothing when
    /// there is no value, otherwise an output of `f` on the payload under the
    /// unchanged stability flag.
    pub open spec fn maps_to<U, F: FnOnce(T) -> U>(self, f: F, out: TaskValue<U>) -> bool {
        match self {
            TaskValue::NoValue => out == TaskValue::<U>::NoValue,
            TaskValue::Value(v, s) => exists|u: U|
                call_ensures(f, (v,), u) && out == TaskValue::Value(u, s),
        }
    }

    /// Whether every one of `deps` is present and final.
    pub open spec fn all_stable_in(deps: Seq<TaskValue<T>>) -> bool {
        forall|i: int| 0 <= i < deps.len() ==> (#[trigger] deps[i]).stability()
    }

    /// A value that is final.
    pub fn stable(t: T) -> (r: Self)
        ensures
            r == TaskValue::Value(t, true),
    {
        TaskValue::Value(t, true)
    }

    /// A value that may still change without new input.
    pub fn unstable(t: T) -> (r: Self)
        ensures
            r == TaskValue::Value(t, false),
    {
        TaskValue::Value(t, false)
    }

    /// `false` for `NoValue`, the stored flag otherwise.
    pub fn is_stable(&self) -> (r: bool)
        ensures
            r == self.stability(),
    {
        match self {
            TaskValue::Value(_, s) => *s,
            TaskValue::NoValue => false,
        }
    }

    /// Transforms the payload with `f`. `NoValue` stays `NoValue` and `f` is not
    /// called; the stability flag is never altered.
    pub fn map<U, F: FnOnce(T) -> U>(self, f: F) -> (r: TaskValue<U>)
        requires
            self matches TaskValue::Value(v, _) ==> call_requires(f, (v,)),
        ensures
            self.maps_to(f, r),
    {
        match self {
            TaskValue::NoValue => TaskValue::NoValue,
            TaskValue::Value(value, stability) => TaskValue::Value(f(value), stability),
        }
    }

    /// The stability of an aggregate over `deps`: stable only if every
    /// dependency is present and stable. An absent or unstable dependency
    /// makes the aggregate unstable.
    pub fn all_stable(deps: &[TaskValue<T>]) -> (r: bool)
        ensures
            r == Self::all_stable_in(deps@),
    {
        let mut i: usize = 0;
        while i < deps.len()
            invariant
                i <= deps.len(),
                forall|j: int| 0 <= j < i ==> (#[trigger] deps@[j]).stability(),
            decreases deps.len() - i,
        {
            if !deps[i].is_stable() {
                return false;
            }
            i += 1;
        }
        true
    }

    /// Transforming a value never changes whether it is present nor whether it
    /// is stable.
    pub proof fn lemma_map_keeps_stability<U, F: FnOnce(T) -> U>(
        self,
        f: F,
        out: TaskValue<U>,
    )
        requires
            self.maps_to(f, out),
        ensures
            out.stability() == self.stability(),
            (out is NoValue) == (self is NoValue),
    {
    }

    /// A transformed unstable value is unstable, a transformed stable value is
    /// stable, a transformed `NoValue` is `NoValue`, and `NoValue` is not
    /// stable.
    pub proof fn lemma_stability_laws<U, F: FnOnce(T) -> U>(x: T, f: F, out: TaskValue<U>)
        ensures
            TaskValue::Value(x, false).maps_to(f, out) ==> out is Value && !out.stability(),
            TaskValue::Value(x, true).maps_to(f, out) ==> out is Value && out.stability(),
            TaskValue::<T>::NoValue.maps_to(f, out) ==> out is NoValue,
            !TaskValue::<T>::NoValue.stability(),
    {
    }
}

} // verus!
