//! The record store and the four mutating operations of the service.
//!
//! The store models the external key-addressed persistence layer as an
//! in-memory keyed lookup table: records are addressed by `(owner, index)`,
//! the pure image of the derived storage key. Every operation is a single
//! all-or-nothing unit: it either applies its full mutation or returns a
//! typed error and leaves the store untouched.

use vstd::prelude::*;
use crate::Identity;
use crate::errors::TodoError;
use crate::states::{TodoAccount, UserProfile};

verus! {

// ---------------------------------------------------------------------------
// Sequence-level model functions
// ---------------------------------------------------------------------------

pub(crate) open spec fn profiles_distinct_in(s: Seq<UserProfile>) -> bool {
    forall|i: int, j: int|
        0 <= i < j < s.len() ==> (#[trigger] s[i].authority@) != (#[trigger] s[j].authority@)
}

pub(crate) open spec fn tasks_distinct_in(s: Seq<TodoAccount>) -> bool {
    forall|i: int, j: int|
        0 <= i < j < s.len() ==> !((#[trigger] s[i].authority@) == (#[trigger] s[j].authority@)
            && s[i].idx == s[j].idx)
}

pub(crate) open spec fn has_profile_in(s: Seq<UserProfile>, o: Seq<u8>) -> bool {
    exists|i: int| 0 <= i < s.len() && (#[trigger] s[i].authority@) == o
}

pub(crate) open spec fn profile_index_in(s: Seq<UserProfile>, o: Seq<u8>) -> int {
    choose|i: int| 0 <= i < s.len() && (#[trigger] s[i].authority@) == o
}

pub(crate) open spec fn profile_count_in(s: Seq<UserProfile>, o: Seq<u8>) -> u8 {
    s[profile_index_in(s, o)].todo_count
}

pub(crate) open spec fn profile_next_in(s: Seq<UserProfile>, o: Seq<u8>) -> u8 {
    s[profile_index_in(s, o)].last_todo
}

pub(crate) open spec fn has_task_in(s: Seq<TodoAccount>, o: Seq<u8>, idx: u8) -> bool {
    exists|i: int|
        0 <= i < s.len() && (#[trigger] s[i].authority@) == o && s[i].idx == idx
}

pub(crate) open spec fn task_index_in(s: Seq<TodoAccount>, o: Seq<u8>, idx: u8) -> int {
    choose|i: int| 0 <= i < s.len() && (#[trigger] s[i].authority@) == o && s[i].idx == idx
}

pub(crate) open spec fn task_marked_in(s: Seq<TodoAccount>, o: Seq<u8>, idx: u8) -> bool {
    s[task_index_in(s, o, idx)].marked
}

pub(crate) open spec fn task_content_in(s: Seq<TodoAccount>, o: Seq<u8>, idx: u8) -> Seq<char> {
    s[task_index_in(s, o, idx)].content@
}

/// The number of task records in `s` owned by `o`.
pub(crate) open spec fn count_owned(s: Seq<TodoAccount>, o: Seq<u8>) -> nat
    decreases s.len(),
{
    if s.len() == 0 {
        0
    } else {
        count_owned(s.drop_last(), o) + (if s.last().authority@ == o {
            1nat
        } else {
            0nat
        })
    }
}

// ---------------------------------------------------------------------------
// Uniqueness of matches under distinctness
// ---------------------------------------------------------------------------

proof fn lemma_profile_unique(s: Seq<UserProfile>, i: int, o: Seq<u8>)
    requires
        profiles_distinct_in(s),
        0 <= i < s.len(),
        s[i].authority@ == o,
    ensures
        has_profile_in(s, o),
        profile_index_in(s, o) == i,
        profile_count_in(s, o) == s[i].todo_count,
        profile_next_in(s, o) == s[i].last_todo,
{
    assert(has_profile_in(s, o));
    let j = profile_index_in(s, o);
    assert(0 <= j < s.len() && s[j].authority@ == o);
    if i != j {
        assert(false);
    }
}

proof fn lemma_task_unique(s: Seq<TodoAccount>, i: int, o: Seq<u8>, idx: u8)
    requires
        tasks_distinct_in(s),
        0 <= i < s.len(),
        s[i].authority@ == o,
        s[i].idx == idx,
    ensures
        has_task_in(s, o, idx),
        task_index_in(s, o, idx) == i,
        task_marked_in(s, o, idx) == s[i].marked,
        task_content_in(s, o, idx) == s[i].content@,
{
    assert(has_task_in(s, o, idx));
    let j = task_index_in(s, o, idx);
    assert(0 <= j < s.len() && s[j].authority@ == o && s[j].idx == idx);
    if i != j {
        assert(false);
    }
}

// ---------------------------------------------------------------------------
// Counting lemmas
// ---------------------------------------------------------------------------

proof fn lemma_count_owned_push(s: Seq<TodoAccount>, t: TodoAccount, o: Seq<u8>)
    ensures
        count_owned(s.push(t), o) == count_owned(s, o) + (if t.authority@ == o {
            1nat
        } else {
            0nat
        }),
{
    assert(s.push(t).drop_last() =~= s);
    assert(s.push(t).last() == t);
}

proof fn lemma_count_owned_update(s: Seq<TodoAccount>, k: int, t: TodoAccount, o: Seq<u8>)
    requires
        0 <= k < s.len(),
        s[k].authority@ == t.authority@,
    ensures
        count_owned(s.update(k, t), o) == count_owned(s, o),
    decreases s.len(),
{
    let s2 = s.update(k, t);
    if k == s.len() - 1 {
        assert(s2.drop_last() =~= s.drop_last());
        assert(s2.last() == t);
        assert(s.last() == s[k]);
    } else {
        assert(s2.drop_last() =~= s.drop_last().update(k, t));
        assert(s2.last() == s.last());
        lemma_count_owned_update(s.drop_last(), k, t, o);
    }
}

proof fn lemma_count_owned_remove(s: Seq<TodoAccount>, k: int, o: Seq<u8>)
    requires
        0 <= k < s.len(),
    ensures
        count_owned(s.remove(k), o) == count_owned(s, o) - (if s[k].authority@ == o {
            1nat
        } else {
            0nat
        }),
    decreases s.len(),
{
    let s2 = s.remove(k);
    if k == s.len() - 1 {
        assert(s2 =~= s.drop_last());
    } else {
        assert(s2.drop_last() =~= s.drop_last().remove(k));
        assert(s2.last() == s.last());
        lemma_count_owned_remove(s.drop_last(), k, o);
    }
}

proof fn lemma_count_owned_zero(s: Seq<TodoAccount>, o: Seq<u8>)
    requires
        forall|i: int| 0 <= i < s.len() ==> (#[trigger] s[i].authority@) != o,
    ensures
        count_owned(s, o) == 0,
    decreases s.len(),
{
    if s.len() > 0 {
        assert(s.last() == s[s.len() - 1]);
        lemma_count_owned_zero(s.drop_last(), o);
    }
}

// ---------------------------------------------------------------------------
// The store
// ---------------------------------------------------------------------------

/// The set of all records, modelled as an in-memory keyed table: at most one
/// profile per owner, and task records keyed by `(owner, index)`.
pub struct TodoStore {
    profiles: Vec<UserProfile>,
    tasks: Vec<TodoAccount>,
}

impl TodoStore {
    /// Whether a profile record is stored for `o`.
    pub closed spec fn has_profile(self, o: Seq<u8>) -> bool {
        has_profile_in(self.profiles@, o)
    }

    /// The `task_count` field of `o`'s profile.
    pub closed spec fn task_count(self, o: Seq<u8>) -> u8 {
        profile_count_in(self.profiles@, o)
    }

    /// The `next_index` sequence counter of `o`'s profile.
    pub closed spec fn next_index(self, o: Seq<u8>) -> u8 {
        profile_next_in(self.profiles@, o)
    }

    /// Whether a task record is stored at `(o, idx)`.
    pub closed spec fn has_task(self, o: Seq<u8>, idx: u8) -> bool {
        has_task_in(self.tasks@, o, idx)
    }

    /// Whether the task record at `(o, idx)` is marked completed.
    pub closed spec fn task_marked(self, o: Seq<u8>, idx: u8) -> bool {
        task_marked_in(self.tasks@, o, idx)
    }

    /// The content of the task record at `(o, idx)`.
    pub closed spec fn task_content(self, o: Seq<u8>, idx: u8) -> Seq<char> {
        task_content_in(self.tasks@, o, idx)
    }

    /// The number of task records currently stored for `o`.
    pub closed spec fn live_task_count(self, o: Seq<u8>) -> nat {
        count_owned(self.tasks@, o)
    }

    /// The store invariant: owners of profiles are distinct, task keys
    /// `(owner, index)` are distinct, every task belongs to a stored profile
    /// and sits below its sequence counter, and every profile's `task_count`
    /// equals the number of its live tasks and never exceeds `next_index`.
    pub closed spec fn wf(self) -> bool {
        &&& profiles_distinct_in(self.profiles@)
        &&& tasks_distinct_in(self.tasks@)
        &&& forall|i: int|
            0 <= i < self.tasks@.len() ==> {
                &&& has_profile_in(self.profiles@, (#[trigger] self.tasks@[i]).authority@)
                &&& self.tasks@[i].idx < profile_next_in(self.profiles@, self.tasks@[i].authority@)
            }
        &&& forall|i: int|
            0 <= i < self.profiles@.len() ==> {
                &&& (#[trigger] self.profiles@[i]).todo_count <= self.profiles@[i].last_todo
                &&& self.profiles@[i].todo_count as nat == count_owned(
                    self.tasks@,
                    self.profiles@[i].authority@,
                )
            }
    }

    /// An empty store: no profiles, no tasks.
    pub fn new() -> (r: TodoStore)
        ensures
            r.wf(),
            forall|o: Seq<u8>| !r.has_profile(o),
            forall|o: Seq<u8>, idx: u8| !r.has_task(o, idx),
    {
        TodoStore { profiles: Vec::new(), tasks: Vec::new() }
    }

    fn find_profile_index(&self, owner: &Identity) -> (r: Option<usize>)
        ensures
            match r {
                Some(i) => i < self.profiles@.len() && self.profiles@[i as int].authority@
                    == owner@,
                None => !has_profile_in(self.profiles@, owner@),
            },
    {
        let mut i: usize = 0;
        while i < self.profiles.len()
            invariant
                i <= self.profiles@.len(),
                forall|j: int| 0 <= j < i ==> (#[trigger] self.profiles@[j].authority@) != owner@,
            decreases self.profiles@.len() - i,
        {
            if self.profiles[i].authority == *owner {
                return Some(i);
            }
            i += 1;
        }
        None
    }

    fn find_task_index(&self, owner: &Identity, idx: u8) -> (r: Option<usize>)
        ensures
            match r {
                Some(i) => i < self.tasks@.len() && self.tasks@[i as int].authority@ == owner@
                    && self.tasks@[i as int].idx == idx,
                None => !has_task_in(self.tasks@, owner@, idx),
            },
    {
        let mut i: usize = 0;
        while i < self.tasks.len()
            invariant
                i <= self.tasks@.len(),
                forall|j: int|
                    0 <= j < i ==> !((#[trigger] self.tasks@[j].authority@) == owner@
                        && self.tasks@[j].idx == idx),
            decreases self.tasks@.len() - i,
        {
            if self.tasks[i].authority == *owner && self.tasks[i].idx == idx {
                return Some(i);
            }
            i += 1;
        }
        None
    }
}

// ---------------------------------------------------------------------------
// Transition predicates: what each operation does, stated over the model
// ---------------------------------------------------------------------------

/// `o`'s profile is the same in `pre` and `post`.
pub open spec fn profile_unchanged(pre: TodoStore, post: TodoStore, o: Seq<u8>) -> bool {
    &&& post.has_profile(o) == pre.has_profile(o)
    &&& pre.has_profile(o) ==> {
        &&& post.task_count(o) == pre.task_count(o)
        &&& post.next_index(o) == pre.next_index(o)
    }
}

/// The task record at `(o, idx)` is the same in `pre` and `post`.
pub open spec fn task_unchanged(pre: TodoStore, post: TodoStore, o: Seq<u8>, idx: u8) -> bool {
    &&& post.has_task(o, idx) == pre.has_task(o, idx)
    &&& pre.has_task(o, idx) ==> {
        &&& post.task_marked(o, idx) == pre.task_marked(o, idx)
        &&& post.task_content(o, idx) == pre.task_content(o, idx)
    }
}

/// What `initialize_user` does: on success the owner had no profile and now
/// has one with both counters zero and everything else untouched; it fails
/// `AlreadyInitialized`, mutating nothing, exactly when a profile exists.
pub open spec fn spec_initialize_user(
    pre: TodoStore,
    post: TodoStore,
    o: Seq<u8>,
    r: Result<(), TodoError>,
) -> bool {
    match r {
        Ok(()) => {
            &&& !pre.has_profile(o)
            &&& post.has_profile(o)
            &&& post.task_count(o) == 0
            &&& post.next_index(o) == 0
            &&& forall|o2: Seq<u8>| o2 != o ==> #[trigger] profile_unchanged(pre, post, o2)
            &&& forall|o2: Seq<u8>, i: u8| #[trigger] task_unchanged(pre, post, o2, i)
        },
        Err(e) => {
            &&& e == TodoError::AlreadyInitialized
            &&& pre.has_profile(o)
            &&& post == pre
        },
    }
}

impl TodoStore {
    /// Creates the caller's profile with `task_count = 0` and
    /// `next_index = 0`; fails `AlreadyInitialized` if the derived address is
    /// already occupied.
    pub fn initialize_user(&mut self, owner: &Identity) -> (r: Result<(), TodoError>)
        requires
            old(self).wf(),
        ensures
            final(self).wf(),
            spec_initialize_user(*old(self), *final(self), owner@, r),
    {
        match self.find_profile_index(owner) {
            Some(i) => {
                proof {
                    lemma_profile_unique(self.profiles@, i as int, owner@);
                }
                Err(TodoError::AlreadyInitialized)
            },
            None => {
                let p = UserProfile::initialize(owner);
                let ghost pre = *self;
                self.profiles.push(p);
                proof {
                    lemma_initialize_effect(pre, *self, p);
                }
                Ok(())
            },
        }
    }
}

/// The whole effect of storing a fresh profile in a well-formed store.
proof fn lemma_initialize_effect(pre: TodoStore, post: TodoStore, p: UserProfile)
    requires
        pre.wf(),
        !has_profile_in(pre.profiles@, p.authority@),
        p.todo_count == 0,
        p.last_todo == 0,
        post.profiles@ == pre.profiles@.push(p),
        post.tasks@ == pre.tasks@,
    ensures
        post.wf(),
        spec_initialize_user(pre, post, p.authority@, Ok(())),
{
    let o = p.authority@;
    let ps = pre.profiles@;
    let ps2 = post.profiles@;
    let n = ps.len() as int;
    // Owners stay distinct: the new profile's owner had no profile before.
    assert forall|i: int, j: int| 0 <= i < j < ps2.len() implies ps2[i].authority@
        != ps2[j].authority@ by {
        if j == n && ps2[i].authority@ == o {
            assert(ps[i].authority@ == o);
            assert(has_profile_in(ps, o));
        }
    }
    lemma_profile_unique(ps2, n, o);
    // Profiles of other owners are untouched.
    assert forall|o2: Seq<u8>| o2 != o implies profile_unchanged(pre, post, o2) by {
        if has_profile_in(ps, o2) {
            let i = profile_index_in(ps, o2);
            assert(0 <= i < n && ps[i].authority@ == o2);
            lemma_profile_unique(ps, i, o2);
            lemma_profile_unique(ps2, i, o2);
        } else if has_profile_in(ps2, o2) {
            let i = profile_index_in(ps2, o2);
            assert(0 <= i < ps2.len() && ps2[i].authority@ == o2);
            assert(i < n ==> has_profile_in(ps, o2));
            assert(false);
        }
    }
    // No task record of the new owner can exist yet.
    assert forall|i: int| 0 <= i < pre.tasks@.len() implies (#[trigger] pre.tasks@[i].authority@)
        != o by {
        if pre.tasks@[i].authority@ == o {
            assert(has_profile_in(ps, o));
        }
    }
    lemma_count_owned_zero(pre.tasks@, o);
    // The invariant's per-task and per-profile clauses carry over.
    assert forall|i: int| 0 <= i < post.tasks@.len() implies {
        &&& has_profile_in(ps2, (#[trigger] post.tasks@[i]).authority@)
        &&& post.tasks@[i].idx < profile_next_in(ps2, post.tasks@[i].authority@)
    } by {
        let a = post.tasks@[i].authority@;
        assert(has_profile_in(ps, a));
        assert(a != o);
        assert(profile_unchanged(pre, post, a));
    }
    assert(post.wf());
}

/// What `add_todo` does: on success the new task record carries the given
/// content, sits at the profile's current `next_index`, starts unmarked, and
/// both counters grow by one; nothing else changes. It fails
/// `ProfileNotFound` when the owner has no profile, `CounterOverflow` when
/// the sequence counter would wrap, and `AlreadyExists` when the derived
/// address is unexpectedly occupied — always mutating nothing.
pub open spec fn spec_add_todo(
    pre: TodoStore,
    post: TodoStore,
    o: Seq<u8>,
    content: Seq<char>,
    r: Result<u8, TodoError>,
) -> bool {
    match r {
        Ok(idx) => {
            &&& pre.has_profile(o)
            &&& idx == pre.next_index(o)
            &&& idx < 255
            &&& !pre.has_task(o, idx)
            &&& post.has_profile(o)
            &&& post.next_index(o) == idx + 1
            &&& post.task_count(o) == pre.task_count(o) + 1
            &&& post.has_task(o, idx)
            &&& !post.task_marked(o, idx)
            &&& post.task_content(o, idx) == content
            &&& forall|o2: Seq<u8>| o2 != o ==> #[trigger] profile_unchanged(pre, post, o2)
            &&& forall|o2: Seq<u8>, i: u8|
                !(o2 == o && i == idx) ==> #[trigger] task_unchanged(pre, post, o2, i)
        },
        Err(e) => {
            &&& post == pre
            &&& match e {
                TodoError::ProfileNotFound => !pre.has_profile(o),
                TodoError::CounterOverflow => pre.has_profile(o) && pre.next_index(o) == 255,
                TodoError::AlreadyExists => pre.has_profile(o) && pre.has_task(
                    o,
                    pre.next_index(o),
                ),
                _ => false,
            }
        },
    }
}

impl TodoStore {
    /// Creates a new task record for the caller at the profile's current
    /// sequence index, then advances both profile counters by one.
    pub fn add_todo(&mut self, owner: &Identity, content: String) -> (r: Result<u8, TodoError>)
        requires
            old(self).wf(),
        ensures
            final(self).wf(),
            spec_add_todo(*old(self), *final(self), owner@, content@, r),
    {
        let pi = match self.find_profile_index(owner) {
            Some(pi) => pi,
            None => {
                return Err(TodoError::ProfileNotFound);
            },
        };
        proof {
            lemma_profile_unique(self.profiles@, pi as int, owner@);
        }
        let idx = self.profiles[pi].last_todo;
        // The store enforces create-only semantics: creation on an occupied
        // address is rejected as a consistency-violation signal.
        match self.find_task_index(owner, idx) {
            Some(ti) => {
                proof {
                    lemma_task_unique(self.tasks@, ti as int, owner@, idx);
                }
                return Err(TodoError::AlreadyExists);
            },
            None => {},
        }
        let mut p = self.profiles[pi];
        proof {
            assert(self.profiles@[pi as int].todo_count <= self.profiles@[pi as int].last_todo);
        }
        match p.record_task_added() {
            Ok(()) => {},
            Err(_) => {
                return Err(TodoError::CounterOverflow);
            },
        }
        let t = TodoAccount::create(owner, idx, content);
        let ghost pre = *self;
        let ghost tg = t;
        self.tasks.push(t);
        self.profiles[pi] = p;
        proof {
            lemma_add_effect(pre, *self, pi as int, p, tg);
        }
        Ok(idx)
    }
}

/// The whole effect of storing a fresh task record and advancing the owning
/// profile's counters in a well-formed store.
proof fn lemma_add_effect(pre: TodoStore, post: TodoStore, k: int, p2: UserProfile, t: TodoAccount)
    requires
        pre.wf(),
        0 <= k < pre.profiles@.len(),
        pre.profiles@[k].authority@ == t.authority@,
        !has_task_in(pre.tasks@, t.authority@, t.idx),
        t.idx == pre.profiles@[k].last_todo,
        t.idx < 255,
        !t.marked,
        p2.authority@ == t.authority@,
        p2.last_todo == t.idx + 1,
        p2.todo_count == pre.profiles@[k].todo_count + 1,
        post.profiles@ == pre.profiles@.update(k, p2),
        post.tasks@ == pre.tasks@.push(t),
    ensures
        post.wf(),
        spec_add_todo(pre, post, t.authority@, t.content@, Ok(t.idx)),
{
    let o = t.authority@;
    let ps = pre.profiles@;
    let ps2 = post.profiles@;
    let ts = pre.tasks@;
    let ts2 = post.tasks@;
    let n = ts.len() as int;
    lemma_profile_unique(ps, k, o);
    // Owners stay distinct: only the owner's own profile was replaced.
    assert forall|i: int, j: int| 0 <= i < j < ps2.len() implies ps2[i].authority@
        != ps2[j].authority@ by {
        assert(ps[i].authority@ != ps[j].authority@);
    }
    lemma_profile_unique(ps2, k, o);
    // Task keys stay distinct: the new record's address was unoccupied.
    assert forall|i: int, j: int| 0 <= i < j < ts2.len() implies !(ts2[i].authority@
        == ts2[j].authority@ && ts2[i].idx == ts2[j].idx) by {
        if j == n && ts2[i].authority@ == o && ts2[i].idx == t.idx {
            assert(has_task_in(ts, o, t.idx));
        }
    }
    lemma_task_unique(ts2, n, o, t.idx);
    // Profiles of other owners are untouched.
    assert forall|o2: Seq<u8>| o2 != o implies profile_unchanged(pre, post, o2) by {
        if has_profile_in(ps, o2) {
            let i = profile_index_in(ps, o2);
            assert(0 <= i < ps.len() && ps[i].authority@ == o2);
            lemma_profile_unique(ps, i, o2);
            assert(ps2[i] == ps[i]);
            lemma_profile_unique(ps2, i, o2);
        } else if has_profile_in(ps2, o2) {
            let i = profile_index_in(ps2, o2);
            assert(0 <= i < ps2.len() && ps2[i].authority@ == o2);
            assert(i != k);
            assert(ps[i].authority@ == o2);
            assert(false);
        }
    }
    // Task records at other addresses are untouched.
    assert forall|o2: Seq<u8>, i2: u8| !(o2 == o && i2 == t.idx) implies task_unchanged(
        pre,
        post,
        o2,
        i2,
    ) by {
        if has_task_in(ts, o2, i2) {
            let i = task_index_in(ts, o2, i2);
            assert(0 <= i < ts.len() && ts[i].authority@ == o2 && ts[i].idx == i2);
            lemma_task_unique(ts, i, o2, i2);
            assert(ts2[i] == ts[i]);
            lemma_task_unique(ts2, i, o2, i2);
        } else if has_task_in(ts2, o2, i2) {
            let i = task_index_in(ts2, o2, i2);
            assert(0 <= i < ts2.len() && ts2[i].authority@ == o2 && ts2[i].idx == i2);
            assert(i != n);
            assert(ts[i].authority@ == o2 && ts[i].idx == i2);
            assert(false);
        }
    }
    // Every task still belongs to a profile and sits below its counter.
    assert forall|i: int| 0 <= i < ts2.len() implies {
        &&& has_profile_in(ps2, (#[trigger] ts2[i]).authority@)
        &&& ts2[i].idx < profile_next_in(ps2, ts2[i].authority@)
    } by {
        let a = ts2[i].authority@;
        if i == n {
            assert(ts2[i] == t);
            assert(profile_next_in(ps2, o) == p2.last_todo);
        } else {
            assert(ts2[i] == ts[i]);
            assert(has_profile_in(ps, a));
            if a == o {
                assert(ts[i].idx < profile_next_in(ps, o));
                assert(profile_next_in(ps, o) == ps[k].last_todo);
                assert(profile_next_in(ps2, o) == p2.last_todo);
            } else {
                assert(profile_unchanged(pre, post, a));
            }
        }
    }
    // Every profile's count still matches its live tasks.
    assert forall|i: int| 0 <= i < ps2.len() implies {
        &&& (#[trigger] ps2[i]).todo_count <= ps2[i].last_todo
        &&& ps2[i].todo_count as nat == count_owned(ts2, ps2[i].authority@)
    } by {
        lemma_count_owned_push(ts, t, ps2[i].authority@);
        if i == k {
            assert(ps[k].todo_count as nat == count_owned(ts, o));
        } else {
            assert(ps2[i] == ps[i]);
            assert(ps[i].authority@ != o);
        }
    }
    assert(post.wf());
}

/// What `mark_todo` does: on success the addressed task record goes from
/// unmarked to marked, keeping its content, and nothing else changes. It
/// fails `NotFound` when no record sits at the derived address and
/// `AlreadyCompleted` when the record is already marked — idempotent marking
/// is rejected, not silently accepted — always mutating nothing.
pub open spec fn spec_mark_todo(
    pre: TodoStore,
    post: TodoStore,
    o: Seq<u8>,
    idx: u8,
    r: Result<(), TodoError>,
) -> bool {
    match r {
        Ok(()) => {
            &&& pre.has_task(o, idx)
            &&& !pre.task_marked(o, idx)
            &&& post.has_task(o, idx)
            &&& post.task_marked(o, idx)
            &&& post.task_content(o, idx) == pre.task_content(o, idx)
            &&& forall|o2: Seq<u8>| #[trigger] profile_unchanged(pre, post, o2)
            &&& forall|o2: Seq<u8>, i: u8|
                !(o2 == o && i == idx) ==> #[trigger] task_unchanged(pre, post, o2, i)
        },
        Err(e) => {
            &&& post == pre
            &&& match e {
                TodoError::NotFound => !pre.has_task(o, idx),
                TodoError::AlreadyCompleted => pre.has_task(o, idx) && pre.task_marked(o, idx),
                _ => false,
            }
        },
    }
}

/// What `remove_todo` does: on success the addressed task record is gone,
/// the profile's `task_count` drops by one, and — deliberately — its
/// `next_index` does not move: assigned indices are never recycled. It fails
/// `NotFound` when no record sits at the derived address, always mutating
/// nothing.
pub open spec fn spec_remove_todo(
    pre: TodoStore,
    post: TodoStore,
    o: Seq<u8>,
    idx: u8,
    r: Result<(), TodoError>,
) -> bool {
    match r {
        Ok(()) => {
            &&& pre.has_task(o, idx)
            &&& pre.has_profile(o)
            &&& idx < pre.next_index(o)
            &&& pre.task_count(o) >= 1
            &&& !post.has_task(o, idx)
            &&& post.has_profile(o)
            &&& post.task_count(o) == pre.task_count(o) - 1
            &&& post.next_index(o) == pre.next_index(o)
            &&& forall|o2: Seq<u8>| o2 != o ==> #[trigger] profile_unchanged(pre, post, o2)
            &&& forall|o2: Seq<u8>, i: u8|
                !(o2 == o && i == idx) ==> #[trigger] task_unchanged(pre, post, o2, i)
        },
        Err(e) => {
            &&& post == pre
            &&& match e {
                TodoError::NotFound => !pre.has_task(o, idx),
                _ => false,
            }
        },
    }
}

impl TodoStore {
    /// Marks the caller's task at `todo_idx` completed. A second marking of
    /// the same task is rejected with `AlreadyCompleted` to surface
    /// client-side double submission.
    pub fn mark_todo(&mut self, owner: &Identity, todo_idx: u8) -> (r: Result<(), TodoError>)
        requires
            old(self).wf(),
        ensures
            final(self).wf(),
            spec_mark_todo(*old(self), *final(self), owner@, todo_idx, r),
    {
        let ti = match self.find_task_index(owner, todo_idx) {
            Some(ti) => ti,
            None => {
                return Err(TodoError::NotFound);
            },
        };
        proof {
            lemma_task_unique(self.tasks@, ti as int, owner@, todo_idx);
        }
        if self.tasks[ti].marked {
            return Err(TodoError::AlreadyCompleted);
        }
        let a = self.tasks[ti].authority;
        let mut t2 = TodoAccount::create(&a, self.tasks[ti].idx, self.tasks[ti].content.clone());
        match t2.mark() {
            Ok(()) => {},
            Err(_) => {
                proof {
                    assert(false);
                }
                return Err(TodoError::AlreadyCompleted);
            },
        }
        let ghost pre = *self;
        let ghost t2g = t2;
        self.tasks[ti] = t2;
        proof {
            lemma_mark_effect(pre, *self, ti as int, t2g);
        }
        Ok(())
    }

    /// Destroys the caller's task at `todo_idx` and decrements the profile's
    /// `task_count`. The sequence counter stays where it is: the removed
    /// index is tombstoned, never reassigned.
    pub fn remove_todo(&mut self, owner: &Identity, todo_idx: u8) -> (r: Result<(), TodoError>)
        requires
            old(self).wf(),
        ensures
            final(self).wf(),
            spec_remove_todo(*old(self), *final(self), owner@, todo_idx, r),
    {
        let ti = match self.find_task_index(owner, todo_idx) {
            Some(ti) => ti,
            None => {
                return Err(TodoError::NotFound);
            },
        };
        proof {
            lemma_task_unique(self.tasks@, ti as int, owner@, todo_idx);
        }
        let pi = match self.find_profile_index(owner) {
            Some(pi) => pi,
            None => {
                proof {
                    assert(has_profile_in(self.profiles@, self.tasks@[ti as int].authority@));
                    assert(false);
                }
                return Err(TodoError::NotFound);
            },
        };
        proof {
            lemma_profile_unique(self.profiles@, pi as int, owner@);
        }
        let mut p = self.profiles[pi];
        // Under the invariant, a profile with a live task always counts at
        // least one, so the checked decrement cannot underflow.
        match p.record_task_removed() {
            Ok(()) => {},
            Err(_) => {
                proof {
                    assert(self.profiles@[pi as int].todo_count as nat == count_owned(
                        self.tasks@,
                        owner@,
                    ));
                    lemma_count_owned_remove(self.tasks@, ti as int, owner@);
                    assert(false);
                }
                return Err(TodoError::CounterUnderflow);
            },
        }
        let ghost pre = *self;
        let _removed = self.tasks.remove(ti);
        self.profiles[pi] = p;
        proof {
            lemma_remove_effect(pre, *self, pi as int, ti as int, p);
        }
        Ok(())
    }
}

/// The whole effect of marking a stored task record completed in a
/// well-formed store.
proof fn lemma_mark_effect(pre: TodoStore, post: TodoStore, k: int, t2: TodoAccount)
    requires
        pre.wf(),
        0 <= k < pre.tasks@.len(),
        !pre.tasks@[k].marked,
        t2.authority@ == pre.tasks@[k].authority@,
        t2.idx == pre.tasks@[k].idx,
        t2.content@ == pre.tasks@[k].content@,
        t2.marked,
        post.profiles@ == pre.profiles@,
        post.tasks@ == pre.tasks@.update(k, t2),
    ensures
        post.wf(),
        spec_mark_todo(pre, post, t2.authority@, t2.idx, Ok(())),
{
    let o = t2.authority@;
    let idx = t2.idx;
    let ps = pre.profiles@;
    let ts = pre.tasks@;
    let ts2 = post.tasks@;
    lemma_task_unique(ts, k, o, idx);
    // Task keys stay distinct: the key at `k` is unchanged.
    assert forall|i: int, j: int| 0 <= i < j < ts2.len() implies !(ts2[i].authority@
        == ts2[j].authority@ && ts2[i].idx == ts2[j].idx) by {
        assert(!(ts[i].authority@ == ts[j].authority@ && ts[i].idx == ts[j].idx));
    }
    lemma_task_unique(ts2, k, o, idx);
    // Task records at other addresses are untouched.
    assert forall|o2: Seq<u8>, i2: u8| !(o2 == o && i2 == idx) implies task_unchanged(
        pre,
        post,
        o2,
        i2,
    ) by {
        if has_task_in(ts, o2, i2) {
            let i = task_index_in(ts, o2, i2);
            assert(0 <= i < ts.len() && ts[i].authority@ == o2 && ts[i].idx == i2);
            lemma_task_unique(ts, i, o2, i2);
            assert(i != k);
            assert(ts2[i] == ts[i]);
            lemma_task_unique(ts2, i, o2, i2);
        } else if has_task_in(ts2, o2, i2) {
            let i = task_index_in(ts2, o2, i2);
            assert(0 <= i < ts2.len() && ts2[i].authority@ == o2 && ts2[i].idx == i2);
            assert(i != k);
            assert(ts[i].authority@ == o2 && ts[i].idx == i2);
            assert(false);
        }
    }
    // Every task still belongs to a profile and sits below its counter.
    assert forall|i: int| 0 <= i < ts2.len() implies {
        &&& has_profile_in(ps, (#[trigger] ts2[i]).authority@)
        &&& ts2[i].idx < profile_next_in(ps, ts2[i].authority@)
    } by {
        if i == k {
            assert(ts[k].idx < profile_next_in(ps, ts[k].authority@));
        } else {
            assert(ts2[i] == ts[i]);
        }
    }
    // Every profile's count still matches its live tasks.
    assert forall|i: int| 0 <= i < ps.len() implies (#[trigger] ps[i]).todo_count as nat
        == count_owned(ts2, ps[i].authority@) by {
        lemma_count_owned_update(ts, k, t2, ps[i].authority@);
    }
    assert(post.wf());
}

/// The whole effect of destroying a stored task record and decrementing the
/// owning profile's count in a well-formed store.
proof fn lemma_remove_effect(
    pre: TodoStore,
    post: TodoStore,
    k: int,
    j: int,
    p2: UserProfile,
)
    requires
        pre.wf(),
        0 <= k < pre.profiles@.len(),
        0 <= j < pre.tasks@.len(),
        pre.tasks@[j].authority@ == pre.profiles@[k].authority@,
        p2.authority@ == pre.profiles@[k].authority@,
        p2.last_todo == pre.profiles@[k].last_todo,
        pre.profiles@[k].todo_count >= 1,
        p2.todo_count == pre.profiles@[k].todo_count - 1,
        post.profiles@ == pre.profiles@.update(k, p2),
        post.tasks@ == pre.tasks@.remove(j),
    ensures
        post.wf(),
        spec_remove_todo(pre, post, pre.profiles@[k].authority@, pre.tasks@[j].idx, Ok(())),
{
    let o = pre.profiles@[k].authority@;
    let idx = pre.tasks@[j].idx;
    let ps = pre.profiles@;
    let ps2 = post.profiles@;
    let ts = pre.tasks@;
    let ts2 = post.tasks@;
    lemma_profile_unique(ps, k, o);
    lemma_task_unique(ts, j, o, idx);
    lemma_count_owned_remove(ts, j, o);
    // Where each surviving task record sits after the removal.
    assert forall|i: int| 0 <= i < ts2.len() implies ts2[i] == (if i < j {
        ts[i]
    } else {
        ts[i + 1]
    }) by {}
    // Owners stay distinct: only the owner's own profile was replaced.
    assert forall|i: int, j2: int| 0 <= i < j2 < ps2.len() implies ps2[i].authority@
        != ps2[j2].authority@ by {
        assert(ps[i].authority@ != ps[j2].authority@);
    }
    lemma_profile_unique(ps2, k, o);
    // Task keys stay distinct.
    assert forall|i: int, j2: int| 0 <= i < j2 < ts2.len() implies !(ts2[i].authority@
        == ts2[j2].authority@ && ts2[i].idx == ts2[j2].idx) by {
        let i0 = if i < j { i } else { i + 1 };
        let j0 = if j2 < j { j2 } else { j2 + 1 };
        assert(!(ts[i0].authority@ == ts[j0].authority@ && ts[i0].idx == ts[j0].idx));
    }
    // The removed address is vacated.
    assert(!has_task_in(ts2, o, idx)) by {
        if has_task_in(ts2, o, idx) {
            let i = task_index_in(ts2, o, idx);
            assert(0 <= i < ts2.len() && ts2[i].authority@ == o && ts2[i].idx == idx);
            let i0 = if i < j { i } else { i + 1 };
            assert(ts[i0].authority@ == o && ts[i0].idx == idx);
            assert(i0 != j);
            assert(false);
        }
    }
    // Profiles of other owners are untouched.
    assert forall|o2: Seq<u8>| o2 != o implies profile_unchanged(pre, post, o2) by {
        if has_profile_in(ps, o2) {
            let i = profile_index_in(ps, o2);
            assert(0 <= i < ps.len() && ps[i].authority@ == o2);
            lemma_profile_unique(ps, i, o2);
            assert(ps2[i] == ps[i]);
            lemma_profile_unique(ps2, i, o2);
        } else if has_profile_in(ps2, o2) {
            let i = profile_index_in(ps2, o2);
            assert(0 <= i < ps2.len() && ps2[i].authority@ == o2);
            assert(i != k);
            assert(ps[i].authority@ == o2);
            assert(false);
        }
    }
    // Task records at other addresses are untouched.
    assert forall|o2: Seq<u8>, i2: u8| !(o2 == o && i2 == idx) implies task_unchanged(
        pre,
        post,
        o2,
        i2,
    ) by {
        if has_task_in(ts, o2, i2) {
            let i0 = task_index_in(ts, o2, i2);
            assert(0 <= i0 < ts.len() && ts[i0].authority@ == o2 && ts[i0].idx == i2);
            lemma_task_unique(ts, i0, o2, i2);
            assert(i0 != j);
            let i = if i0 < j { i0 } else { i0 - 1 };
            assert(ts2[i] == ts[i0]);
            lemma_task_unique(ts2, i, o2, i2);
        } else if has_task_in(ts2, o2, i2) {
            let i = task_index_in(ts2, o2, i2);
            assert(0 <= i < ts2.len() && ts2[i].authority@ == o2 && ts2[i].idx == i2);
            let i0 = if i < j { i } else { i + 1 };
            assert(ts[i0].authority@ == o2 && ts[i0].idx == i2);
            assert(false);
        }
    }
    // Every surviving task still belongs to a profile and sits below its
    // counter; the owner's counter did not move.
    assert forall|i: int| 0 <= i < ts2.len() implies {
        &&& has_profile_in(ps2, (#[trigger] ts2[i]).authority@)
        &&& ts2[i].idx < profile_next_in(ps2, ts2[i].authority@)
    } by {
        let i0 = if i < j { i } else { i + 1 };
        let a = ts[i0].authority@;
        assert(has_profile_in(ps, a));
        assert(ts[i0].idx < profile_next_in(ps, a));
        if a == o {
            assert(profile_next_in(ps, o) == ps[k].last_todo);
            assert(profile_next_in(ps2, o) == p2.last_todo);
        } else {
            assert(profile_unchanged(pre, post, a));
        }
    }
    // Every profile's count still matches its live tasks.
    assert forall|i: int| 0 <= i < ps2.len() implies {
        &&& (#[trigger] ps2[i]).todo_count <= ps2[i].last_todo
        &&& ps2[i].todo_count as nat == count_owned(ts2, ps2[i].authority@)
    } by {
        lemma_count_owned_remove(ts, j, ps2[i].authority@);
        if i == k {
            assert(ps[k].todo_count as nat == count_owned(ts, o));
        } else {
            assert(ps2[i] == ps[i]);
            assert(ps[i].authority@ != o);
        }
    }
    assert(post.wf());
}

// ---------------------------------------------------------------------------
// Exposed invariant facts
// ---------------------------------------------------------------------------

/// In a well-formed store, an owner's `task_count` always equals the number
/// of task records currently stored for that owner — marked or not; removed
/// records no longer count.
pub proof fn lemma_task_count_matches_live_tasks(s: TodoStore, o: Seq<u8>)
    requires
        s.wf(),
        s.has_profile(o),
    ensures
        s.task_count(o) as nat == s.live_task_count(o),
{
    let i = profile_index_in(s.profiles@, o);
    assert(0 <= i < s.profiles@.len() && s.profiles@[i].authority@ == o);
    lemma_profile_unique(s.profiles@, i, o);
}

/// In a well-formed store, an owner whose `task_count` is zero has no task
/// record stored at any index: the count never claims fewer records than
/// are really there.
pub proof fn lemma_count_zero_means_no_tasks(s: TodoStore, o: Seq<u8>, idx: u8)
    requires
        s.wf(),
        s.has_profile(o),
        s.task_count(o) == 0,
    ensures
        !s.has_task(o, idx),
{
    if s.has_task(o, idx) {
        let i = task_index_in(s.tasks@, o, idx);
        assert(0 <= i < s.tasks@.len() && s.tasks@[i].authority@ == o && s.tasks@[i].idx == idx);
        lemma_count_owned_remove(s.tasks@, i, o);
        lemma_task_count_matches_live_tasks(s, o);
        assert(false);
    }
}

/// In a well-formed store, every stored task record belongs to a stored
/// profile, and its index sits strictly below that profile's sequence
/// counter: an address at or above the counter is guaranteed vacant.
pub proof fn lemma_task_below_next_index(s: TodoStore, o: Seq<u8>, idx: u8)
    requires
        s.wf(),
        s.has_task(o, idx),
    ensures
        s.has_profile(o),
        idx < s.next_index(o),
{
    let i = task_index_in(s.tasks@, o, idx);
    assert(0 <= i < s.tasks@.len() && s.tasks@[i].authority@ == o && s.tasks@[i].idx == idx);
}

// ---------------------------------------------------------------------------
// Read access
// ---------------------------------------------------------------------------

impl TodoStore {
    /// Loads the caller's profile record, or `None` if none is stored.
    pub fn get_profile(&self, owner: &Identity) -> (r: Option<UserProfile>)
        requires
            self.wf(),
        ensures
            match r {
                Some(p) => {
                    &&& self.has_profile(owner@)
                    &&& p.authority@ == owner@
                    &&& p.todo_count == self.task_count(owner@)
                    &&& p.last_todo == self.next_index(owner@)
                },
                None => !self.has_profile(owner@),
            },
    {
        match self.find_profile_index(owner) {
            Some(i) => {
                proof {
                    lemma_profile_unique(self.profiles@, i as int, owner@);
                }
                Some(self.profiles[i])
            },
            None => None,
        }
    }

    /// Loads the caller's task record at `todo_idx`, or `None` if none is
    /// stored there.
    pub fn get_todo(&self, owner: &Identity, todo_idx: u8) -> (r: Option<&TodoAccount>)
        requires
            self.wf(),
        ensures
            match r {
                Some(t) => {
                    &&& self.has_task(owner@, todo_idx)
                    &&& t.authority@ == owner@
                    &&& t.idx == todo_idx
                    &&& t.marked == self.task_marked(owner@, todo_idx)
                    &&& t.content@ == self.task_content(owner@, todo_idx)
                },
                None => !self.has_task(owner@, todo_idx),
            },
    {
        match self.find_task_index(owner, todo_idx) {
            Some(i) => {
                proof {
                    lemma_task_unique(self.tasks@, i as int, owner@, todo_idx);
                }
                Some(&self.tasks[i])
            },
            None => None,
        }
    }
}

} // verus!
