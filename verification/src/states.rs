//! The two record types of the service: one profile per user, and one
//! account per task.

use vstd::prelude::*;
use crate::Identity;
use crate::errors::TodoError;

verus! {

/// A user's profile record: one per identity, created lazily on first use and
/// never destroyed.
///
/// Invariant (maintained by the record store): `todo_count <= last_todo`, and
/// `todo_count` equals the number of live task records of this owner.
#[derive(Clone, Copy)]
pub struct UserProfile {
    /// The identity key controlling this profile; immutable after creation.
    pub authority: Identity,
    /// The monotonically non-decreasing sequence counter used to derive new
    /// task addresses. Assigned indices are never reused for an owner, even
    /// after removals.
    pub last_todo: u8,
    /// The count of currently live task records of this owner.
    pub todo_count: u8,
}

/// A single task record, addressed by `(owner, index)`.
pub struct TodoAccount {
    /// The identity key owning the record; always equal to the owning
    /// profile's authority; immutable.
    pub authority: Identity,
    /// The sequence value assigned at creation; immutable and unique per
    /// owner for the record's lifetime.
    pub idx: u8,
    /// The user-supplied text of the task.
    pub content: String,
    /// Whether the task has been marked completed; starts `false`.
    pub marked: bool,
}

impl UserProfile {
    /// A fresh profile for `authority`: both counters start at zero.
    pub fn initialize(authority: &Identity) -> (p: UserProfile)
        ensures
            p.authority@ == authority@,
            p.last_todo == 0,
            p.todo_count == 0,
    {
        UserProfile { authority: *authority, last_todo: 0, todo_count: 0 }
    }

    /// Advances both counters after a task record was created for this
    /// profile. The counters fail hard with `CounterOverflow` rather than
    /// wrap: silent wraparound would corrupt address derivation for all
    /// future tasks.
    pub fn record_task_added(&mut self) -> (r: Result<(), TodoError>)
        ensures
            match r {
                Ok(()) => {
                    &&& old(self).last_todo < 255
                    &&& old(self).todo_count < 255
                    &&& final(self).last_todo == old(self).last_todo + 1
                    &&& final(self).todo_count == old(self).todo_count + 1
                    &&& final(self).authority@ == old(self).authority@
                },
                Err(e) => {
                    &&& e == TodoError::CounterOverflow
                    &&& old(self).last_todo == 255 || old(self).todo_count == 255
                    &&& *final(self) == *old(self)
                },
            },
    {
        if self.last_todo == 255 || self.todo_count == 255 {
            return Err(TodoError::CounterOverflow);
        }
        self.last_todo = self.last_todo + 1;
        self.todo_count = self.todo_count + 1;
        Ok(())
    }

    /// Drops the live-task count after one of this profile's task records
    /// was destroyed; the sequence counter deliberately stays where it is.
    /// Fails `CounterUnderflow` rather than wrap when no task is counted.
    pub fn record_task_removed(&mut self) -> (r: Result<(), TodoError>)
        ensures
            match r {
                Ok(()) => {
                    &&& old(self).todo_count >= 1
                    &&& final(self).todo_count == old(self).todo_count - 1
                    &&& final(self).last_todo == old(self).last_todo
                    &&& final(self).authority@ == old(self).authority@
                },
                Err(e) => {
                    &&& e == TodoError::CounterUnderflow
                    &&& old(self).todo_count == 0
                    &&& *final(self) == *old(self)
                },
            },
    {
        if self.todo_count == 0 {
            return Err(TodoError::CounterUnderflow);
        }
        self.todo_count = self.todo_count - 1;
        Ok(())
    }
}

impl TodoAccount {
    /// A fresh task record: owned by `authority`, addressed at `idx`,
    /// carrying `content`, not yet marked.
    pub fn create(authority: &Identity, idx: u8, content: String) -> (t: TodoAccount)
        ensures
            t.authority@ == authority@,
            t.idx == idx,
            t.content@ == content@,
            !t.marked,
    {
        TodoAccount { authority: *authority, idx, content, marked: false }
    }

    /// Marks the task completed. A second marking is rejected with
    /// `AlreadyCompleted`, not silently accepted, to surface client-side
    /// double submission.
    pub fn mark(&mut self) -> (r: Result<(), TodoError>)
        ensures
            match r {
                Ok(()) => {
                    &&& !old(self).marked
                    &&& final(self).marked
                    &&& final(self).authority@ == old(self).authority@
                    &&& final(self).idx == old(self).idx
                    &&& final(self).content@ == old(self).content@
                },
                Err(e) => {
                    &&& e == TodoError::AlreadyCompleted
                    &&& old(self).marked
                    &&& *final(self) == *old(self)
                },
            },
    {
        if self.marked {
            return Err(TodoError::AlreadyCompleted);
        }
        self.marked = true;
        Ok(())
    }
}

} // verus!
