//! Core of a decentralized polling ledger: deterministic storage-address
//! derivation, instruction decoding, account-role resolution, the poll record
//! with its binary codec and validation rules, and the create/vote state
//! transitions. Host collaborators (clock, rent quotes, account creation) hand
//! in plain values and receive plain values back.
use vstd::prelude::*;

pub mod codec;
pub mod entrypoint;
pub mod errors;
pub mod instruction;
pub mod processor;
pub mod state;
pub mod utils;

verus! {

use crate::utils::clone_bytes;

/// The constant tag (the bytes of `"voting"`) appended to the seeds from which
/// the storage address is derived.
pub open spec fn voting_tag() -> Seq<u8> {
    seq![118u8, 111u8, 116u8, 105u8, 110u8, 103u8]
}

/// The bytes of the constant seed tag.
fn voting_tag_bytes() -> (r: Vec<u8>)
    ensures
        r@ == voting_tag(),
{
    let mut r: Vec<u8> = Vec::new();
    r.push(118u8);
    r.push(111u8);
    r.push(116u8);
    r.push(105u8);
    r.push(110u8);
    r.push(103u8);
    proof {
        assert(r@ =~= voting_tag());
    }
    r
}

/// The ordered seed list from which a poll's storage address is derived:
/// owner key, poll identifier, constant tag.
pub fn get_seed(owner_key_bytes: &Vec<u8>, voting_uid: &Vec<u8>) -> (r: Vec<Vec<u8>>)
    ensures
        r@.len() == 3,
        r@[0]@ == owner_key_bytes@,
        r@[1]@ == voting_uid@,
        r@[2]@ == voting_tag(),
{
    let mut r: Vec<Vec<u8>> = Vec::new();
    r.push(clone_bytes(owner_key_bytes));
    r.push(clone_bytes(voting_uid));
    r.push(voting_tag_bytes());
    r
}

/// The seed list extended with the derived nonce, used as the signing
/// credential that stands in for the unkeyable derived address.
pub fn get_pda_sign(owner_key_bytes: &Vec<u8>, voting_uid: &Vec<u8>, bump: &Vec<u8>) -> (r: Vec<
    Vec<u8>,
>)
    ensures
        r@.len() == 4,
        r@[0]@ == owner_key_bytes@,
        r@[1]@ == voting_uid@,
        r@[2]@ == voting_tag(),
        r@[3]@ == bump@,
{
    let mut r: Vec<Vec<u8>> = Vec::new();
    r.push(clone_bytes(owner_key_bytes));
    r.push(clone_bytes(voting_uid));
    r.push(voting_tag_bytes());
    r.push(clone_bytes(bump));
    r
}

/// The address and nonce that the host's program-derived-address search yields
/// for a seed list and a program id, or `None` in the statistically
/// improbable case that no nonce works. The search is a pure function of its
/// arguments, so the same seeds and program id always give the same result.
pub uninterp spec fn pda_of(seeds: Seq<Seq<u8>>, program_id: Seq<u8>) -> Option<(Seq<u8>, u8)>;

/// Relies on `solana_program::pubkey::Pubkey::try_find_program_address`: a
/// deterministic, hash-based search over nonce bytes from 255 downward that
/// returns the first derived address guaranteed to lie outside the space of
/// externally controlled addresses, together with the nonce; `None` if a
/// seed exceeds 32 bytes, the seed list is too long, or no nonce works. The
/// returned address is 32 bytes, and success implies every seed fit the
/// 32-byte seed limit.
#[verifier::external_body]
fn find_program_address_raw(seeds: &Vec<Vec<u8>>, program_id: &Vec<u8>) -> (r: Option<
    (Vec<u8>, u8),
>)
    requires
        program_id@.len() == 32,
    ensures
        match r {
            Some(p) => pda_of(seeds.deep_view(), program_id@) == Some((p.0@, p.1))
                && p.0@.len() == 32 && (forall|i: int|
                0 <= i < seeds@.len() ==> seeds@[i]@.len() <= 32),
            None => pda_of(seeds.deep_view(), program_id@) is None,
        },
{
    let mut arr = [0u8; 32];
    arr.copy_from_slice(program_id.as_slice());
    let pk = solana_program::pubkey::Pubkey::new_from_array(arr);
    let seed_refs: Vec<&[u8]> = seeds.iter().map(|s| s.as_slice()).collect();
    solana_program::pubkey::Pubkey::try_find_program_address(&seed_refs, &pk)
        .map(|(k, b)| (k.to_bytes().to_vec(), b))
}

/// The storage address and nonce derived for `(owner key, poll identifier,
/// program id)` through the seed list of [`get_seed`].
pub open spec fn spec_derive(owner_key: Seq<u8>, voting_uid: Seq<u8>, program_id: Seq<u8>) -> Option<
    (Seq<u8>, u8),
> {
    pda_of(seq![owner_key, voting_uid, voting_tag()], program_id)
}

/// The storage address and disambiguation nonce for a poll, derived from the
/// owner's key, the poll identifier, and the program id. Success implies the
/// identifier fit the host's 32-byte seed limit.
pub fn get_voting_pda_and_bump(owner_key: &Vec<u8>, voting_uid: &Vec<u8>, program_id: &Vec<u8>) -> (r:
    Option<(Vec<u8>, u8)>)
    requires
        program_id@.len() == 32,
    ensures
        match r {
            Some(p) => spec_derive(owner_key@, voting_uid@, program_id@) == Some((p.0@, p.1))
                && p.0@.len() == 32 && voting_uid@.len() <= 32,
            None => spec_derive(owner_key@, voting_uid@, program_id@) is None,
        },
{
    let seeds = get_seed(owner_key, voting_uid);
    proof {
        assert(seeds.deep_view() =~~= seq![owner_key@, voting_uid@, voting_tag()]);
    }
    let r = find_program_address_raw(&seeds, program_id);
    proof {
        if r is Some {
            assert(seeds@[1]@.len() <= 32);
        }
    }
    r
}

/// Deriving a storage address is deterministic: any two derivations from the
/// same owner key, poll identifier, and program id agree on both the address
/// and the nonce.
pub proof fn lemma_derive_deterministic(
    owner_key: Seq<u8>,
    voting_uid: Seq<u8>,
    program_id: Seq<u8>,
    r1: Option<(Seq<u8>, u8)>,
    r2: Option<(Seq<u8>, u8)>,
)
    requires
        r1 == spec_derive(owner_key, voting_uid, program_id),
        r2 == spec_derive(owner_key, voting_uid, program_id),
    ensures
        r1 == r2,
{
}

} // verus!
