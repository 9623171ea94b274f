//! A verified core for a per-user todo record service.
//!
//! Each user owns one profile record and a bounded set of task records,
//! addressed deterministically from the owner's identity key and a sequence
//! index. The library provides the address deriver, the record state types,
//! and an in-memory record store with the four mutating operations
//! (`initialize_user`, `add_todo`, `mark_todo`, `remove_todo`), each with a
//! full functional contract and with the store invariant proved preserved.

use vstd::prelude::*;

pub mod address;
pub mod errors;
pub mod laws;
pub mod store;
pub mod states;

verus! {

/// A caller's identity key: a fixed-width opaque byte value, usable both for
/// authorization checks and as a derivation input.
#[derive(Copy)]
pub struct Identity {
    pub key: [u8; 32],
}

impl View for Identity {
    type V = Seq<u8>;

    open spec fn view(&self) -> Seq<u8> {
        self.key@
    }
}

impl Identity {
    pub fn new(key: [u8; 32]) -> (r: Identity)
        ensures
            r@ == key@,
    {
        Identity { key }
    }
}

impl Clone for Identity {
    fn clone(&self) -> (r: Identity)
        ensures
            r@ == self@,
    {
        Identity { key: self.key }
    }
}

impl PartialEq for Identity {
    fn eq(&self, other: &Identity) -> (r: bool) {
        let mut i: usize = 0;
        while i < 32
            invariant
                i <= 32,
                forall|j: int| 0 <= j < i ==> self.key@[j] == other.key@[j],
            decreases 32 - i,
        {
            if self.key[i] != other.key[i] {
                return false;
            }
            i += 1;
        }
        proof {
            assert(self.key@ =~= other.key@);
        }
        true
    }
}

impl Eq for Identity {}

impl vstd::std_specs::cmp::PartialEqSpecImpl for Identity {
    open spec fn obeys_eq_spec() -> bool {
        true
    }

    open spec fn eq_spec(&self, other: &Identity) -> bool {
        self@ == other@
    }
}

} // verus!
