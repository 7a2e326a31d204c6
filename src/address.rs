use vstd::prelude::*;

use anchor_lang::prelude::Pubkey;

use crate::entry::byte_len;

verus! {

/// Longest seed, in bytes, that an address may be derived from.
pub const MAX_SEED_LEN: usize = 32;

/// The address and bump seed derived from a title seed and an owner seed under a
/// program id.
pub uninterp spec fn program_address_of(
    title_seed: Seq<u8>,
    owner_seed: Seq<u8>,
    program_id: Seq<u8>,
) -> Option<(Seq<u8>, u8)>;

/// The address and bump seed of a derivation, as plain values.
pub open spec fn address_view(r: Option<([u8; 32], u8)>) -> Option<(Seq<u8>, u8)> {
    match r {
        Some((a, bump)) => Some((a@, bump)),
        None => None,
    }
}

/// Relies on `Pubkey::try_find_program_address` (solana-program, re-exported by
/// anchor-lang): the address and bump seed that the two seeds derive under the
/// program id, a function of these alone; `None` where a seed is longer than
/// `MAX_SEED_LEN` bytes, or where no bump seed derives an address.
#[verifier::external_body]
fn try_find_address(title_seed: &[u8], owner_seed: &[u8], program_id: &[u8; 32]) -> (r: Option<
    ([u8; 32], u8),
>)
    ensures
        address_view(r) == program_address_of(title_seed@, owner_seed@, program_id@),
        title_seed@.len() > MAX_SEED_LEN || owner_seed@.len() > MAX_SEED_LEN ==> r.is_none(),
{
    let id = Pubkey::new_from_array(*program_id);
    match Pubkey::try_find_program_address(&[title_seed, owner_seed], &id) {
        Some((address, bump)) => Some((address.to_bytes(), bump)),
        None => None,
    }
}

/// Where the host stores the entry `title` of `owner` for the program `program_id`:
/// the address derived from the title's bytes and the owner's identity, and its
/// bump seed. `None` where the title is longer than a seed may be, or where no
/// bump seed derives an address.
pub fn entry_address(program_id: &[u8; 32], title: &String, owner: &[u8; 32]) -> (r: Option<
    ([u8; 32], u8),
>)
    ensures
        address_view(r) == program_address_of(
            vstd::utf8::encode_utf8(title@),
            owner@,
            program_id@,
        ),
        byte_len(title@) > MAX_SEED_LEN ==> r.is_none(),
{
    try_find_address(title.as_str().as_bytes(), owner.as_slice(), program_id)
}

} // verus!
