//! Task identity: a two-level numeric address with a canonical text form.

use crate::decimal::{
    chars_of, decimal_digits, lemma_digits_of, lemma_parse_digits, parse_u32, parse_u32_spec,
    push_decimal, ParseUintError,
};
use vstd::prelude::*;

pub mod order;

verus! {

/// Number of a top-level workflow instance.
pub type InstanceNo = u32;

/// Number of a task within its workflow instance.
pub type TaskNo = u32;

/// Key under which a workflow instance is known to the outside.
pub type InstanceKey = String;

/// Each task instance is identified by two numbers: one for the top-level
/// instance, one for the task within that instance.
#[derive(Debug, Clone, Copy, PartialEq, Eq, Structural, Ord, Hash)]
pub struct TaskId(pub InstanceNo, pub TaskNo);

/// What `s` means as a task id: the text before the first `-` and the whole
/// text after it, each an unsigned number. The first number is read first, so
/// its error wins; a text without `-` lacks the second number.
pub open spec fn parse_task_id(s: Seq<char>) -> Result<TaskId, ParseUintError> {
    match s.index_of_first('-') {
        None => match parse_u32_spec(s) {
            Err(e) => Err(e),
            Ok(_) => Err(ParseUintError::Empty),
        },
        Some(i) => match parse_u32_spec(s.take(i)) {
            Err(e) => Err(e),
            Ok(instance) => match parse_u32_spec(s.skip(i + 1)) {
                Err(e) => Err(e),
                Ok(task) => Ok(TaskId(instance, task)),
            },
        },
    }
}

impl TaskId {
    /// The canonical text form `<instance>-<task>`.
    pub open spec fn canonical_text(self) -> Seq<char> {
        decimal_digits(self.0 as nat).push('-') + decimal_digits(self.1 as nat)
    }

    /// Lexicographic order on the pair (instance, task).
    pub open spec fn precedes(self, other: TaskId) -> bool {
        self.0 < other.0 || (self.0 == other.0 && self.1 < other.1)
    }

    /// The id of the task `task` of the instance `instance`.
    pub fn new(instance: InstanceNo, task: TaskNo) -> (id: TaskId)
        ensures
            id == TaskId(instance, task),
    {
        TaskId(instance, task)
    }

    /// Formats the id in its canonical text form.
    pub fn to_string(&self) -> (s: String)
        ensures
            s@ == self.canonical_text(),
    {
        let mut s = String::new();
        push_decimal(&mut s, self.0 as u128);
        s.push('-');
        push_decimal(&mut s, self.1 as u128);
        s
    }

    /// Parses the canonical text form. Only the first `-` separates; what
    /// follows it is the second number, whatever it holds.
    pub fn from_str(s: &str) -> (r: Result<TaskId, ParseUintError>)
        ensures
            r == parse_task_id(s@),
    {
        let text = chars_of(s);
        let mut dash: usize = 0;
        while dash < text.len() && text[dash] != '-'
            invariant
                dash <= text.len(),
                forall|j: int| 0 <= j < dash ==> text@[j] != '-',
            decreases text.len() - dash,
        {
            dash += 1;
        }
        proof {
            text@.index_of_first_ensures('-');
            if dash < text.len() {
                assert(text@[dash as int] == '-');
                assert(text@.contains('-'));
                let first = text@.index_of_first('-').unwrap();
                if first < dash {
                    assert(text@[first] != '-');
                }
                assert(first == dash);
                assert(text@.take(dash as int) =~= text@.subrange(0, dash as int));
            } else {
                if text@.contains('-') {
                    let j = choose|j: int| 0 <= j < text@.len() && text@[j] == '-';
                    assert(text@[j] != '-');
                }
                assert(text@ =~= text@.subrange(0, dash as int));
            }
        }
        let instance = match parse_u32(text.as_slice(), 0, dash) {
            Ok(n) => n,
            Err(e) => {
                return Err(e);
            },
        };
        if dash == text.len() {
            return Err(ParseUintError::Empty);
        }
        assert(text@.skip(dash + 1) =~= text@.subrange(dash + 1, text.len() as int));
        match parse_u32(text.as_slice(), dash + 1, text.len()) {
            Ok(task) => Ok(TaskId(instance, task)),
            Err(e) => Err(e),
        }
    }

    /// Parsing the canonical text of an id gives the id back.
    pub proof fn lemma_round_trip(self)
        ensures
            parse_task_id(self.canonical_text()) == Ok::<TaskId, ParseUintError>(self),
    {
        let head = decimal_digits(self.0 as nat);
        let tail = decimal_digits(self.1 as nat);
        let s = self.canonical_text();
        lemma_digits_of(self.0 as nat);
        lemma_digits_of(self.1 as nat);
        lemma_parse_digits(self.0);
        lemma_parse_digits(self.1);
        let i = head.len() as int;
        assert(s[i] == '-');
        assert forall|j: int| 0 <= j < i implies s[j] != '-' by {
            assert(s[j] == head[j]);
        }
        s.index_of_first_ensures('-');
        assert(s.contains('-'));
        assert(s.index_of_first('-') == Some(i));
        assert(s.take(i) =~= head);
        assert(s.skip(i + 1) =~= tail);
    }

    /// The order is strict and total: of two ids exactly one precedes the
    /// other, unless they are the same id.
    pub proof fn lemma_order_total(self, other: TaskId)
        ensures
            self.precedes(other) || other.precedes(self) || self == other,
            !(self.precedes(other) && other.precedes(self)),
            !self.precedes(self),
    {
    }

    /// The order is transitive.
    pub proof fn lemma_order_transitive(self, mid: TaskId, last: TaskId)
        requires
            self.precedes(mid),
            mid.precedes(last),
        ensures
            self.precedes(last),
    {
    }
}

impl Default for TaskId {
    fn default() -> (id: TaskId)
        ensures
            id == TaskId(0, 0),
    {
        TaskId(0, 0)
    }
}

impl core::str::FromStr for TaskId {
    type Err = ParseUintError;

    fn from_str(s: &str) -> (r: Result<TaskId, ParseUintError>)
        ensures
            r == parse_task_id(s@),
    {
        TaskId::from_str(s)
    }
}

} // verus!
