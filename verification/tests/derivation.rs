use anchor_lang::prelude::Pubkey;
use todo_onchain::address::{
    derive_profile_address, derive_task_address, PROGRAM_ID, TODO_TAG, USER_TAG,
};
use todo_onchain::Identity;

fn id(byte: u8) -> Identity {
    Identity::new([byte; 32])
}

#[test]
fn derivation_is_deterministic() {
    let owner = id(3);
    assert_eq!(derive_profile_address(&owner), derive_profile_address(&owner));
    assert_eq!(derive_task_address(&owner, 5), derive_task_address(&owner, 5));
}

#[test]
fn derived_address_is_not_the_owner_key() {
    let owner = id(3);
    let (addr, _bump) = derive_profile_address(&owner).unwrap();
    assert_ne!(addr, owner.key);
    let (addr, _bump) = derive_task_address(&owner, 0).unwrap();
    assert_ne!(addr, owner.key);
}

#[test]
fn derived_addresses_are_isolated() {
    let owner_a = id(1);
    let owner_b = id(2);
    // distinct owners never share an address
    assert_ne!(
        derive_profile_address(&owner_a).unwrap().0,
        derive_profile_address(&owner_b).unwrap().0
    );
    assert_ne!(
        derive_task_address(&owner_a, 0).unwrap().0,
        derive_task_address(&owner_b, 0).unwrap().0
    );
    // distinct indices never share an address
    assert_ne!(
        derive_task_address(&owner_a, 0).unwrap().0,
        derive_task_address(&owner_a, 1).unwrap().0
    );
    // a profile and a task of the same owner never share an address
    assert_ne!(
        derive_profile_address(&owner_a).unwrap().0,
        derive_task_address(&owner_a, 0).unwrap().0
    );
}

#[test]
fn derivation_matches_the_program_address_scheme() {
    let owner = id(9);
    let program = Pubkey::new_from_array(PROGRAM_ID);
    let owner_key = Pubkey::new_from_array(owner.key);

    let (profile_addr, profile_bump) = derive_profile_address(&owner).unwrap();
    let (expected, expected_bump) =
        Pubkey::find_program_address(&[&USER_TAG, owner_key.as_ref()], &program);
    assert_eq!(profile_addr, expected.to_bytes());
    assert_eq!(profile_bump, expected_bump);

    let (task_addr, task_bump) = derive_task_address(&owner, 4).unwrap();
    let (expected, expected_bump) =
        Pubkey::find_program_address(&[&TODO_TAG, owner_key.as_ref(), &[4u8]], &program);
    assert_eq!(task_addr, expected.to_bytes());
    assert_eq!(task_bump, expected_bump);
}
