//! The task store: tasks in insertion order plus the counter for the
//! next identifier. Identifiers are unique, start at 1, and a removed
//! identifier is never reissued, because the counter only grows.

use vstd::prelude::*;
use crate::date::{Date, date_of_text, parse_date};
use crate::priority::{priority_of_text, parse_priority, Priority};
use crate::task::{mark_done, Field, Task};

verus! {

/// No two tasks of `s` share an identifier.
pub open spec fn ids_unique(s: Seq<Task>) -> bool {
    forall|i: int, j: int|
        0 <= i < j < s.len() ==> (#[trigger] s[i]).id != (#[trigger] s[j]).id
}

/// Some task of `s` carries identifier `id`.
pub open spec fn has_id(s: Seq<Task>, id: u64) -> bool {
    exists|i: int| 0 <= i < s.len() && (#[trigger] s[i]).id == id
}

/// Number of tasks of `s` that carry identifier `id`.
pub open spec fn count_id(s: Seq<Task>, id: u64) -> nat
    decreases s.len(),
{
    if s.len() == 0 {
        0
    } else {
        count_id(s.drop_last(), id) + (if s.last().id == id {
            1nat
        } else {
            0nat
        })
    }
}

/// `s` with the tasks carrying `id` marked completed and every other
/// task kept as it is.
pub open spec fn mark_in(s: Seq<Task>, id: u64) -> Seq<Task> {
    s.map(
        |i: int, t: Task|
            if t.id == id {
                mark_done(t)
            } else {
                t
            },
    )
}

/// In the step from `t0` to `t1` exactly the field named by `field`
/// took the value written as `value`; identifier, completed flag and
/// the other fields are kept.
pub open spec fn field_replaced(t0: Task, t1: Task, field: Field, value: Seq<char>) -> bool {
    &&& t1.id == t0.id
    &&& t1.completed == t0.completed
    &&& if field == Field::Name {
        t1.name@ == value
    } else {
        t1.name == t0.name
    }
    &&& if field == Field::Description {
        t1.description@ == value
    } else {
        t1.description == t0.description
    }
    &&& if field == Field::Priority {
        priority_of_text(value) == Some(t1.priority)
    } else {
        t1.priority == t0.priority
    }
    &&& if field == Field::DueDate {
        date_of_text(value) == Some(t1.due_date)
    } else {
        t1.due_date == t0.due_date
    }
}

/// In the step from `pre` to `post` exactly the selected field of the
/// task carrying `id` was replaced; every other task is kept.
pub open spec fn edited(pre: Seq<Task>, post: Seq<Task>, id: u64, field: Field, value: Seq<char>) -> bool {
    &&& post.len() == pre.len()
    &&& forall|j: int|
        0 <= j < pre.len() && (#[trigger] pre[j]).id != id ==> post[j] == pre[j]
    &&& forall|j: int|
        0 <= j < pre.len() && (#[trigger] pre[j]).id == id ==> field_replaced(pre[j], post[j], field, value)
}

/// How an edit request ended.
#[derive(Clone, Copy, PartialEq, Eq, Structural, Debug)]
pub enum EditOutcome {
    /// The field was replaced.
    Updated,
    /// No task carries the requested identifier; nothing changed.
    NotFound,
    /// The new value does not parse as a priority or a date; nothing
    /// changed.
    InvalidValue,
}

/// The in-memory store of all tasks.
pub struct TaskManager {
    pub tasks: Vec<Task>,
    pub next_id: u64,
}

impl TaskManager {
    /// Well-formed store: identifiers are pairwise distinct, start at
    /// 1, and stay below the next-identifier counter, so the counter
    /// is always greater than every identifier ever issued; every
    /// record carries a real calendar date.
    pub open spec fn wf(self) -> bool {
        &&& ids_unique(self.tasks@)
        &&& forall|i: int|
            0 <= i < self.tasks@.len() ==> {
                &&& 1 <= (#[trigger] self.tasks@[i]).id < self.next_id
                &&& self.tasks@[i].wf()
            }
        &&& self.next_id >= 1
    }

    /// Creates an empty store; the first identifier issued will be 1.
    pub fn new() -> (m: TaskManager)
        ensures
            m.wf(),
            m.tasks@.len() == 0,
            m.next_id == 1,
    {
        TaskManager { tasks: Vec::new(), next_id: 1 }
    }

    /// All tasks in insertion order.
    pub fn list(&self) -> (r: &Vec<Task>)
        ensures
            r@ == self.tasks@,
    {
        &self.tasks
    }

    /// Index of the task carrying `id`, if any.
    fn index_of(&self, id: u64) -> (r: Option<usize>)
        ensures
            (r is Some) <==> has_id(self.tasks@, id),
            r matches Some(i) ==> i < self.tasks@.len() && self.tasks@[i as int].id == id,
    {
        let n = self.tasks.len();
        let mut i: usize = 0;
        while i < n
            invariant
                0 <= i <= n,
                n == self.tasks@.len(),
                forall|j: int| 0 <= j < i ==> (#[trigger] self.tasks@[j]).id != id,
            decreases n - i,
        {
            if self.tasks[i].id == id {
                return Some(i);
            }
            i = i + 1;
        }
        None
    }

    /// Appends a fresh task carrying the supplied fields, not yet
    /// completed, under the next identifier: one greater than every
    /// identifier issued before it, starting at 1 for an empty store.
    pub fn add(&mut self, name: String, description: String, priority: Priority, due_date: Date) -> (id: u64)
        requires
            old(self).wf(),
            old(self).next_id < u64::MAX,
            due_date.wf(),
        ensures
            final(self).wf(),
            id == old(self).next_id,
            final(self).next_id == id + 1,
            final(self).tasks@ == old(self).tasks@.push(
                (Task {
                    id: id,
                    name: name,
                    description: description,
                    priority: priority,
                    completed: false,
                    due_date: due_date,
                }),
            ),
            forall|i: int|
                0 <= i < old(self).tasks@.len() ==> (#[trigger] old(self).tasks@[i]).id < id,
    {
        let id = self.next_id;
        let t = Task {
            id: id,
            name: name,
            description: description,
            priority: priority,
            completed: false,
            due_date: due_date,
        };
        self.tasks.push(t);
        self.next_id = self.next_id + 1;
        proof {
            let s0 = old(self).tasks@;
            let s1 = self.tasks@;
            assert(forall|i: int| 0 <= i < s0.len() ==> s1[i] == s0[i]);
            assert(s1[s0.len() as int].id == id);
        }
        id
    }

    /// The task carrying `id`, if any.
    pub fn find_by_id(&self, id: u64) -> (r: Option<&Task>)
        ensures
            (r is Some) <==> has_id(self.tasks@, id),
            r matches Some(t) ==> exists|i: int|
                0 <= i < self.tasks@.len() && (#[trigger] self.tasks@[i]).id == id && *t == self.tasks@[i],
    {
        match self.index_of(id) {
            Some(i) => Some(&self.tasks[i]),
            None => None,
        }
    }

    /// Sets the completed flag of the task carrying `id` and keeps its
    /// other fields and all other tasks; reports whether such a task
    /// exists. A store without the identifier is left unchanged.
    pub fn mark_completed(&mut self, id: u64) -> (found: bool)
        requires
            old(self).wf(),
        ensures
            final(self).wf(),
            final(self).next_id == old(self).next_id,
            found <==> has_id(old(self).tasks@, id),
            final(self).tasks@ == mark_in(old(self).tasks@, id),
            !found ==> *final(self) == *old(self),
    {
        let idx = match self.index_of(id) {
            Some(i) => i,
            None => {
                proof {
                    assert(self.tasks@ =~= mark_in(self.tasks@, id));
                }
                return false;
            },
        };
        let t = self.tasks.remove(idx);
        let t2 = Task {
            id: t.id,
            name: t.name,
            description: t.description,
            priority: t.priority,
            completed: true,
            due_date: t.due_date,
        };
        self.tasks.insert(idx, t2);
        proof {
            let s0 = old(self).tasks@;
            assert(self.tasks@ =~= mark_in(s0, id));
        }
        true
    }

    /// Deletes the task carrying `id`, keeping the relative order of
    /// the rest, so that no task with that identifier remains;
    /// reports whether such a task existed. A store without the
    /// identifier is left unchanged.
    pub fn remove(&mut self, id: u64) -> (found: bool)
        requires
            old(self).wf(),
        ensures
            final(self).wf(),
            final(self).next_id == old(self).next_id,
            found <==> has_id(old(self).tasks@, id),
            !found ==> *final(self) == *old(self),
            found ==> exists|i: int|
                0 <= i < old(self).tasks@.len() && (#[trigger] old(self).tasks@[i]).id == id
                    && final(self).tasks@ == old(self).tasks@.remove(i),
            forall|j: int|
                0 <= j < final(self).tasks@.len() ==> (#[trigger] final(self).tasks@[j]).id != id,
    {
        let idx = match self.index_of(id) {
            Some(i) => i,
            None => {
                return false;
            },
        };
        let _removed = self.tasks.remove(idx);
        proof {
            let s0 = old(self).tasks@;
            let s1 = self.tasks@;
            assert(forall|j: int| 0 <= j < idx ==> s1[j] == s0[j]);
            assert(forall|j: int| idx <= j < s1.len() ==> s1[j] == s0[j + 1]);
        }
        true
    }

    /// Replaces one field of the task carrying `id` with the value
    /// written in `value`, parsing it first where the field demands a
    /// format; on a value that does not parse, or an unknown
    /// identifier, the store is left exactly as it was.
    pub fn update_field(&mut self, id: u64, field: Field, value: &str) -> (r: EditOutcome)
        requires
            old(self).wf(),
        ensures
            final(self).wf(),
            final(self).next_id == old(self).next_id,
            (r == EditOutcome::NotFound) <==> !has_id(old(self).tasks@, id),
            (r == EditOutcome::InvalidValue) <==> (has_id(old(self).tasks@, id) && ((field
                == Field::Priority && priority_of_text(value@) is None) || (field == Field::DueDate
                && date_of_text(value@) is None))),
            r != EditOutcome::Updated ==> *final(self) == *old(self),
            r == EditOutcome::Updated ==> edited(old(self).tasks@, final(self).tasks@, id, field, value@),
    {
        let idx = match self.index_of(id) {
            Some(i) => i,
            None => {
                return EditOutcome::NotFound;
            },
        };
        match field {
            Field::Name => {
                let t = self.tasks.remove(idx);
                let t2 = Task {
                    id: t.id,
                    name: value.to_owned(),
                    description: t.description,
                    priority: t.priority,
                    completed: t.completed,
                    due_date: t.due_date,
                };
                self.tasks.insert(idx, t2);
                proof {
                    lemma_single_edit(old(self).tasks@, self.tasks@, idx as int, id, field, value@);
                }
                EditOutcome::Updated
            },
            Field::Description => {
                let t = self.tasks.remove(idx);
                let t2 = Task {
                    id: t.id,
                    name: t.name,
                    description: value.to_owned(),
                    priority: t.priority,
                    completed: t.completed,
                    due_date: t.due_date,
                };
                self.tasks.insert(idx, t2);
                proof {
                    lemma_single_edit(old(self).tasks@, self.tasks@, idx as int, id, field, value@);
                }
                EditOutcome::Updated
            },
            Field::Priority => {
                match parse_priority(value) {
                    None => EditOutcome::InvalidValue,
                    Some(p) => {
                        let t = self.tasks.remove(idx);
                        let t2 = Task {
                            id: t.id,
                            name: t.name,
                            description: t.description,
                            priority: p,
                            completed: t.completed,
                            due_date: t.due_date,
                        };
                        self.tasks.insert(idx, t2);
                        proof {
                            lemma_single_edit(old(self).tasks@, self.tasks@, idx as int, id, field, value@);
                        }
                        EditOutcome::Updated
                    },
                }
            },
            Field::DueDate => {
                match parse_date(value) {
                    None => EditOutcome::InvalidValue,
                    Some(d) => {
                        let t = self.tasks.remove(idx);
                        let t2 = Task {
                            id: t.id,
                            name: t.name,
                            description: t.description,
                            priority: t.priority,
                            completed: t.completed,
                            due_date: d,
                        };
                        self.tasks.insert(idx, t2);
                        proof {
                            lemma_single_edit(old(self).tasks@, self.tasks@, idx as int, id, field, value@);
                        }
                        EditOutcome::Updated
                    },
                }
            },
        }
    }
}

/// After replacing the single task at index `idx` by a task related to
/// it by `field_replaced`, the whole step is an `edited` step: with
/// pairwise distinct identifiers no other index can carry `id`.
proof fn lemma_single_edit(pre: Seq<Task>, post: Seq<Task>, idx: int, id: u64, field: Field, value: Seq<char>)
    requires
        ids_unique(pre),
        0 <= idx < pre.len(),
        pre[idx].id == id,
        post.len() == pre.len(),
        forall|j: int| 0 <= j < pre.len() && j != idx ==> post[j] == pre[j],
        field_replaced(pre[idx], post[idx], field, value),
    ensures
        edited(pre, post, id, field, value),
{
    assert(forall|j: int| 0 <= j < pre.len() && j != idx ==> (#[trigger] pre[j]).id != id);
}

/// No task of `s` carries `id`, so `id` is counted zero times.
proof fn lemma_count_id_absent(s: Seq<Task>, id: u64)
    requires
        forall|i: int| 0 <= i < s.len() ==> (#[trigger] s[i]).id != id,
    ensures
        count_id(s, id) == 0,
    decreases s.len(),
{
    if s.len() > 0 {
        assert(forall|i: int| 0 <= i < s.len() - 1 ==> s.drop_last()[i] == s[i]);
        lemma_count_id_absent(s.drop_last(), id);
    }
}

/// A task appended under a fresh identifier appears in the listing
/// exactly once, as the last element, with exactly the fields it was
/// given.
pub proof fn lemma_fresh_task_appears_once(s: Seq<Task>, t: Task)
    requires
        forall|i: int| 0 <= i < s.len() ==> (#[trigger] s[i]).id != t.id,
    ensures
        count_id(s.push(t), t.id) == 1,
        s.push(t)[s.len() as int] == t,
{
    assert(s.push(t).drop_last() =~= s);
    assert(s.push(t).last() == t);
    lemma_count_id_absent(s, t.id);
}

/// Marking completed is idempotent: marking the same identifier a
/// second time changes nothing, and no field but the completed flag
/// is ever touched.
pub proof fn lemma_mark_in_idempotent(s: Seq<Task>, id: u64)
    ensures
        mark_in(mark_in(s, id), id) == mark_in(s, id),
{
    assert(mark_in(mark_in(s, id), id) =~= mark_in(s, id));
}

} // verus!
