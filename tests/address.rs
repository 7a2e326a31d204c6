use anchor_lang::prelude::Pubkey;
use crudapp::address::entry_address;

fn program() -> [u8; 32] {
    let mut id = [0u8; 32];
    for (i, b) in id.iter_mut().enumerate() {
        *b = (i as u8).wrapping_mul(37).wrapping_add(11);
    }
    id
}

#[test]
fn address_matches_the_host_derivation() {
    let owner = [9u8; 32];
    let title = "log1".to_string();
    let (address, bump) = entry_address(&program(), &title, &owner).unwrap();
    let (expected, expected_bump) = Pubkey::find_program_address(
        &[title.as_bytes(), owner.as_ref()],
        &Pubkey::new_from_array(program()),
    );
    assert_eq!(address, expected.to_bytes());
    assert_eq!(bump, expected_bump);
    assert_ne!(address, owner);
}

#[test]
fn address_depends_on_title_and_owner() {
    let title = "log1".to_string();
    let a = entry_address(&program(), &title, &[1u8; 32]).unwrap();
    let again = entry_address(&program(), &title, &[1u8; 32]).unwrap();
    let b = entry_address(&program(), &title, &[2u8; 32]).unwrap();
    let c = entry_address(&program(), &"log2".to_string(), &[1u8; 32]).unwrap();
    assert_eq!(a, again);
    assert_ne!(a.0, b.0);
    assert_ne!(a.0, c.0);
}

#[test]
fn long_title_has_no_address() {
    let owner = [3u8; 32];
    assert!(entry_address(&program(), &"t".repeat(32), &owner).is_some());
    assert!(entry_address(&program(), &"t".repeat(33), &owner).is_none());
}
