//! The address deriver: computes the deterministic storage key of a record
//! from a fixed kind tag, the owner's identity, and (for task records) a
//! sequence index.

use vstd::prelude::*;
use crate::Identity;
use crate::errors::TodoError;

verus! {

/// The kind tag of profile records.
pub const USER_TAG: [u8; 4] = [85, 83, 69, 82];

/// The kind tag of task records.
pub const TODO_TAG: [u8; 4] = [84, 79, 68, 79];

/// The id under which the program owning all derived addresses is deployed.
pub const PROGRAM_ID: [u8; 32] = [
    39, 171, 185, 113, 143, 124, 114, 242, 63, 118, 157, 245, 153, 143, 33, 32, 248, 7, 133, 202,
    167, 95, 128, 161, 231, 155, 228, 157, 115, 77, 16, 83,
];

/// The address and disambiguation byte ("bump") that the derivation scheme
/// assigns to `(tag, owner, index)` under a program id, or `None` when the
/// derivation space is exhausted. The result depends on the inputs alone.
pub uninterp spec fn derived_address(
    tag: Seq<u8>,
    owner: Seq<u8>,
    index: Option<u8>,
    program: Seq<u8>,
) -> Option<(Seq<u8>, u8)>;

/// Relies on `anchor_lang`'s `Pubkey::try_find_program_address`: the returned
/// address and bump seed are a pure function of the seed bytes and the
/// program id, and `None` comes only when no bump seed yields a valid
/// derived address.
#[verifier::external_body]
fn find_program_address(
    tag: &[u8],
    owner: &Identity,
    index: Option<u8>,
    program_id: &[u8; 32],
) -> (r: Option<([u8; 32], u8)>)
    ensures
        match r {
            Some(ab) => derived_address(tag@, owner@, index, program_id@) == Some((ab.0@, ab.1)),
            None => derived_address(tag@, owner@, index, program_id@) is None,
        },
{
    let program = anchor_lang::prelude::Pubkey::new_from_array(*program_id);
    let found = match index {
        Some(i) => anchor_lang::prelude::Pubkey::try_find_program_address(
            &[tag, owner.key.as_ref(), &[i]],
            &program,
        ),
        None => anchor_lang::prelude::Pubkey::try_find_program_address(
            &[tag, owner.key.as_ref()],
            &program,
        ),
    };
    found.map(|ab| (ab.0.to_bytes(), ab.1))
}

/// Derives the storage address of `owner`'s profile record.
pub fn derive_profile_address(owner: &Identity) -> (r: Result<([u8; 32], u8), TodoError>)
    ensures
        match r {
            Ok(ab) => derived_address(USER_TAG@, owner@, None, PROGRAM_ID@) == Some((ab.0@, ab.1)),
            Err(e) => {
                &&& e == TodoError::DerivationExhausted
                &&& derived_address(USER_TAG@, owner@, None, PROGRAM_ID@) is None
            },
        },
{
    match find_program_address(USER_TAG.as_slice(), owner, None, &PROGRAM_ID) {
        Some(ab) => Ok(ab),
        None => Err(TodoError::DerivationExhausted),
    }
}

/// Derives the storage address of `owner`'s task record at `index`.
pub fn derive_task_address(owner: &Identity, index: u8) -> (r: Result<([u8; 32], u8), TodoError>)
    ensures
        match r {
            Ok(ab) => derived_address(TODO_TAG@, owner@, Some(index), PROGRAM_ID@) == Some(
                (ab.0@, ab.1),
            ),
            Err(e) => {
                &&& e == TodoError::DerivationExhausted
                &&& derived_address(TODO_TAG@, owner@, Some(index), PROGRAM_ID@) is None
            },
        },
{
    match find_program_address(TODO_TAG.as_slice(), owner, Some(index), &PROGRAM_ID) {
        Some(ab) => Ok(ab),
        None => Err(TodoError::DerivationExhausted),
    }
}

} // verus!
