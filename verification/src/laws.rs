//! Laws that relate the four operations across whole histories of the store:
//! profiles persist, sequence counters only move forward, and assigned task
//! indices are handed out consecutively and never reused.

use vstd::prelude::*;
use crate::errors::TodoError;
use crate::store::{
    profile_unchanged, spec_add_todo, spec_initialize_user, spec_mark_todo, spec_remove_todo,
    TodoStore,
};

verus! {

/// One operation of the service was applied to `pre` with outcome `post`,
/// whatever the arguments and whatever the result.
pub open spec fn spec_step(pre: TodoStore, post: TodoStore) -> bool {
    ||| exists|o: Seq<u8>, r: Result<(), TodoError>|
        #[trigger] spec_initialize_user(pre, post, o, r)
    ||| exists|o: Seq<u8>, c: Seq<char>, r: Result<u8, TodoError>|
        #[trigger] spec_add_todo(pre, post, o, c, r)
    ||| exists|o: Seq<u8>, i: u8, r: Result<(), TodoError>|
        #[trigger] spec_mark_todo(pre, post, o, i, r)
    ||| exists|o: Seq<u8>, i: u8, r: Result<(), TodoError>|
        #[trigger] spec_remove_todo(pre, post, o, i, r)
}

/// `post` is reachable from `pre` by exactly `n` operations.
pub open spec fn spec_reaches(pre: TodoStore, post: TodoStore, n: nat) -> bool
    decreases n,
{
    if n == 0 {
        post == pre
    } else {
        exists|mid: TodoStore|
            #[trigger] spec_step(pre, mid) && spec_reaches(mid, post, (n - 1) as nat)
    }
}

/// No single operation destroys a profile or moves its sequence counter
/// backwards.
pub proof fn lemma_step_preserves_profile(pre: TodoStore, post: TodoStore, o: Seq<u8>)
    requires
        spec_step(pre, post),
        pre.has_profile(o),
    ensures
        post.has_profile(o),
        post.next_index(o) >= pre.next_index(o),
{
    if exists|o2: Seq<u8>, r: Result<(), TodoError>| #[trigger] spec_initialize_user(
        pre,
        post,
        o2,
        r,
    ) {
        let (o2, r) = choose|o2: Seq<u8>, r: Result<(), TodoError>|
            #[trigger] spec_initialize_user(pre, post, o2, r);
        match r {
            Ok(()) => {
                assert(o2 != o);
                assert(profile_unchanged(pre, post, o));
            },
            Err(_) => {},
        }
    } else if exists|o2: Seq<u8>, c: Seq<char>, r: Result<u8, TodoError>| #[trigger] spec_add_todo(
        pre,
        post,
        o2,
        c,
        r,
    ) {
        let (o2, c, r) = choose|o2: Seq<u8>, c: Seq<char>, r: Result<u8, TodoError>|
            #[trigger] spec_add_todo(pre, post, o2, c, r);
        match r {
            Ok(_) => {
                if o2 != o {
                    assert(profile_unchanged(pre, post, o));
                }
            },
            Err(_) => {},
        }
    } else if exists|o2: Seq<u8>, i: u8, r: Result<(), TodoError>| #[trigger] spec_mark_todo(
        pre,
        post,
        o2,
        i,
        r,
    ) {
        let (o2, i, r) = choose|o2: Seq<u8>, i: u8, r: Result<(), TodoError>|
            #[trigger] spec_mark_todo(pre, post, o2, i, r);
        match r {
            Ok(()) => {
                assert(profile_unchanged(pre, post, o));
            },
            Err(_) => {},
        }
    } else {
        let (o2, i, r) = choose|o2: Seq<u8>, i: u8, r: Result<(), TodoError>|
            #[trigger] spec_remove_todo(pre, post, o2, i, r);
        match r {
            Ok(()) => {
                if o2 != o {
                    assert(profile_unchanged(pre, post, o));
                }
            },
            Err(_) => {},
        }
    }
}

/// Along any history: once an owner has a profile it keeps one, and its
/// sequence counter never decreases.
pub proof fn lemma_reaches_preserves_profile(
    pre: TodoStore,
    post: TodoStore,
    n: nat,
    o: Seq<u8>,
)
    requires
        spec_reaches(pre, post, n),
        pre.has_profile(o),
    ensures
        post.has_profile(o),
        post.next_index(o) >= pre.next_index(o),
    decreases n,
{
    if n > 0 {
        let mid = choose|mid: TodoStore|
            #[trigger] spec_step(pre, mid) && spec_reaches(mid, post, (n - 1) as nat);
        lemma_step_preserves_profile(pre, mid, o);
        lemma_reaches_preserves_profile(mid, post, (n - 1) as nat, o);
    }
}

/// `initialize_user` succeeds at most once per owner: after one success, any
/// later attempt for the same owner — with any number of operations in
/// between — fails `AlreadyInitialized` and mutates nothing.
pub proof fn lemma_initialize_user_at_most_once(
    s0: TodoStore,
    s1: TodoStore,
    s2: TodoStore,
    s3: TodoStore,
    n: nat,
    o: Seq<u8>,
    r: Result<(), TodoError>,
)
    requires
        spec_initialize_user(s0, s1, o, Ok(())),
        spec_reaches(s1, s2, n),
        spec_initialize_user(s2, s3, o, r),
    ensures
        r == Err::<(), TodoError>(TodoError::AlreadyInitialized),
        s3 == s2,
{
    lemma_reaches_preserves_profile(s1, s2, n, o);
    match r {
        Ok(()) => {
            assert(false);
        },
        Err(_) => {},
    }
}

/// A successful `add_todo` hands out exactly the profile's current sequence
/// index and advances the counter by one: for a fixed owner, successful adds
/// yield the indices `0, 1, 2, …` in call order, with no gaps or repeats.
pub proof fn lemma_add_todo_assigns_next_index(
    pre: TodoStore,
    post: TodoStore,
    o: Seq<u8>,
    c: Seq<char>,
    idx: u8,
)
    requires
        spec_add_todo(pre, post, o, c, Ok(idx)),
    ensures
        idx == pre.next_index(o),
        post.next_index(o) == idx + 1,
{
}

/// Only a successful `add_todo` by the owner moves the owner's sequence
/// counter, and then by exactly one: interleaving other operations leaves
/// the sequence of assigned indices without gaps or repeats.
pub proof fn lemma_only_add_todo_moves_next_index(pre: TodoStore, post: TodoStore, o: Seq<u8>)
    requires
        spec_step(pre, post),
        pre.has_profile(o),
        post.next_index(o) != pre.next_index(o),
    ensures
        post.next_index(o) == pre.next_index(o) + 1,
        exists|c: Seq<char>| #[trigger] spec_add_todo(pre, post, o, c, Ok(pre.next_index(o))),
{
    lemma_step_preserves_profile(pre, post, o);
    if exists|o2: Seq<u8>, r: Result<(), TodoError>| #[trigger] spec_initialize_user(
        pre,
        post,
        o2,
        r,
    ) {
        let (o2, r) = choose|o2: Seq<u8>, r: Result<(), TodoError>|
            #[trigger] spec_initialize_user(pre, post, o2, r);
        match r {
            Ok(()) => {
                assert(o2 != o);
                assert(profile_unchanged(pre, post, o));
                assert(false);
            },
            Err(_) => {
                assert(false);
            },
        }
    } else if exists|o2: Seq<u8>, c: Seq<char>, r: Result<u8, TodoError>| #[trigger] spec_add_todo(
        pre,
        post,
        o2,
        c,
        r,
    ) {
        let (o2, c, r) = choose|o2: Seq<u8>, c: Seq<char>, r: Result<u8, TodoError>|
            #[trigger] spec_add_todo(pre, post, o2, c, r);
        match r {
            Ok(idx) => {
                if o2 != o {
                    assert(profile_unchanged(pre, post, o));
                    assert(false);
                }
                assert(idx == pre.next_index(o));
                assert(spec_add_todo(pre, post, o, c, Ok(pre.next_index(o))));
            },
            Err(_) => {
                assert(false);
            },
        }
    } else if exists|o2: Seq<u8>, i: u8, r: Result<(), TodoError>| #[trigger] spec_mark_todo(
        pre,
        post,
        o2,
        i,
        r,
    ) {
        let (o2, i, r) = choose|o2: Seq<u8>, i: u8, r: Result<(), TodoError>|
            #[trigger] spec_mark_todo(pre, post, o2, i, r);
        match r {
            Ok(()) => {
                assert(profile_unchanged(pre, post, o));
                assert(false);
            },
            Err(_) => {
                assert(false);
            },
        }
    } else {
        let (o2, i, r) = choose|o2: Seq<u8>, i: u8, r: Result<(), TodoError>|
            #[trigger] spec_remove_todo(pre, post, o2, i, r);
        match r {
            Ok(()) => {
                if o2 != o {
                    assert(profile_unchanged(pre, post, o));
                }
                assert(false);
            },
            Err(_) => {
                assert(false);
            },
        }
    }
}

/// Marking is not idempotent: marking the same task twice in a row yields
/// success and then `AlreadyCompleted`, the second call mutating nothing.
pub proof fn lemma_mark_todo_not_idempotent(
    s0: TodoStore,
    s1: TodoStore,
    s2: TodoStore,
    o: Seq<u8>,
    idx: u8,
    r2: Result<(), TodoError>,
)
    requires
        spec_mark_todo(s0, s1, o, idx, Ok(())),
        spec_mark_todo(s1, s2, o, idx, r2),
    ensures
        r2 == Err::<(), TodoError>(TodoError::AlreadyCompleted),
        s2 == s1,
{
    match r2 {
        Ok(()) => {
            assert(false);
        },
        Err(_) => {},
    }
}

/// A removed index is never reused: whatever operations follow a successful
/// `remove_todo`, the next successful `add_todo` by the same owner hands out
/// a strictly larger index than the one removed.
pub proof fn lemma_removed_index_never_reused(
    s0: TodoStore,
    s1: TodoStore,
    s2: TodoStore,
    s3: TodoStore,
    n: nat,
    o: Seq<u8>,
    idx: u8,
    c: Seq<char>,
    idx2: u8,
)
    requires
        spec_remove_todo(s0, s1, o, idx, Ok(())),
        spec_reaches(s1, s2, n),
        spec_add_todo(s2, s3, o, c, Ok(idx2)),
    ensures
        idx2 > idx,
{
    lemma_reaches_preserves_profile(s1, s2, n, o);
}

} // verus!
