use vstd::prelude::*;
use crate::key::Key;
use anchor_lang::solana_program::pubkey::Pubkey;

verus! {

/// The namespace tag that sets counter addresses apart from every other kind
/// of derived address of the same program: the bytes of "counter".
pub const COUNTER_SEED: [u8; 7] = [99, 111, 117, 110, 116, 101, 114];

/// The program that owns the counters, as deployed.
pub const PROGRAM_ID: [u8; 32] = [
    166, 44, 155, 171, 238, 180, 209, 163, 28, 219, 30, 194, 40, 222, 67, 54,
    155, 174, 188, 85, 115, 242, 147, 222, 250, 93, 79, 37, 178, 10, 1, 137,
];

/// The address and bump seed that the host derives for a list of seeds under a
/// program id, or `None` where no bump seed gives an address off the curve.
/// It hashes the seeds, the bump and the program id, and depends on those bytes alone.
pub uninterp spec fn program_address(seeds: Seq<Seq<u8>>, program_id: Seq<u8>) -> Option<(Seq<u8>, u8)>;

/// A derivation result, with the address read as its bytes.
pub open spec fn derived_view(d: Option<(Key, u8)>) -> Option<(Seq<u8>, u8)> {
    match d {
        Some((k, bump)) => Some((k.bytes@, bump)),
        None => None,
    }
}

/// The bytes of the namespace tag.
pub open spec fn counter_seed() -> Seq<u8> {
    seq![99u8, 111u8, 117u8, 110u8, 116u8, 101u8, 114u8]
}

/// Where the counter of `owner` lives under `program_id`, with its bump seed.
pub open spec fn counter_address(owner: Key, program_id: Key) -> Option<(Seq<u8>, u8)> {
    program_address(seq![counter_seed(), owner.bytes@], program_id.bytes@)
}

/// Relies on solana_program's `Pubkey::try_find_program_address`: it searches
/// the bump seeds from 255 down for the first address off the curve, a function
/// of the seeds `[tag, owner]` and of `program_id` alone.
#[verifier::external_body]
fn find_program_address(tag: &[u8], owner: &Key, program_id: &Key) -> (r: Option<(Key, u8)>)
    ensures
        derived_view(r) == program_address(seq![tag@, owner.bytes@], program_id.bytes@),
{
    let seeds: [&[u8]; 2] = [tag, &owner.bytes];
    match Pubkey::try_find_program_address(&seeds, &Pubkey::new_from_array(program_id.bytes)) {
        Some((address, bump)) => Some((Key { bytes: address.to_bytes() }, bump)),
        None => None,
    }
}

/// The key of the deployed program.
pub fn program_id() -> (k: Key)
    ensures
        k.bytes@ == PROGRAM_ID@,
{
    Key::new(PROGRAM_ID)
}

/// Derives the address of `owner`'s counter under `program_id`: the same owner
/// always gives the same address and bump seed.
pub fn derive_counter_address(owner: &Key, program_id: &Key) -> (r: Option<(Key, u8)>)
    ensures
        derived_view(r) == counter_address(*owner, *program_id),
{
    let tag: [u8; 7] = COUNTER_SEED;
    let r = find_program_address(tag.as_slice(), owner, program_id);
    proof {
        assert(tag@ =~= counter_seed());
    }
    r
}

} // verus!
