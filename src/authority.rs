use vstd::prelude::*;
use solana_program::pubkey::Pubkey;
use crate::address::Address;
use crate::bytes::{le_bytes, u64_le};
use crate::error::ErrorCode;

verus! {

/// What `Pubkey::try_find_program_address` returns for the given seeds and program:
/// the derived address and its bump seed, or nothing when no bump gives an address
/// off the curve or the seeds are out of bounds.
pub uninterp spec fn program_address_of(seeds: Seq<Seq<u8>>, program_id: Seq<u8>) -> Option<(Seq<u8>, u8)>;

pub open spec fn seeds_view(seeds: Seq<Vec<u8>>) -> Seq<Seq<u8>> {
    seeds.map_values(|s: Vec<u8>| s@)
}

pub open spec fn derived_view(r: Option<(Address, u8)>) -> Option<(Seq<u8>, u8)> {
    match r {
        Some((a, bump)) => Some((a@, bump)),
        None => None,
    }
}

/// Relies on solana_program's `Pubkey::try_find_program_address`: the result is a
/// function of the seeds and the program id alone. It returns `None` rather than
/// panicking on seeds out of bounds.
#[verifier::external_body]
fn try_find_program_address(seeds: &Vec<Vec<u8>>, program_id: &Address) -> (r: Option<(Address, u8)>)
    ensures
        derived_view(r) == program_address_of(seeds_view(seeds@), program_id@),
{
    let refs: Vec<&[u8]> = seeds.iter().map(|s| s.as_slice()).collect();
    let id = Pubkey::new_from_array(program_id.bytes);
    Pubkey::try_find_program_address(&refs, &id).map(|(k, bump)| (Address { bytes: k.to_bytes() }, bump))
}

/// Domain seed of the custodian identity: the bytes of "authority".
pub open spec fn custodian_seed() -> Seq<u8> {
    seq![0x61u8, 0x75, 0x74, 0x68, 0x6f, 0x72, 0x69, 0x74, 0x79]
}

/// Domain seed of issuer records: the bytes of "issuer".
pub open spec fn issuer_seed() -> Seq<u8> {
    seq![0x69u8, 0x73, 0x73, 0x75, 0x65, 0x72]
}

/// Domain seed of tree records: the bytes of "tree".
pub open spec fn tree_seed() -> Seq<u8> {
    seq![0x74u8, 0x72, 0x65, 0x65]
}

pub open spec fn custodian_seeds() -> Seq<Seq<u8>> {
    seq![custodian_seed()]
}

pub open spec fn issuer_seeds(authority: Seq<u8>) -> Seq<Seq<u8>> {
    seq![issuer_seed(), authority]
}

pub open spec fn tree_seeds(issuer: Seq<u8>, index: u64) -> Seq<Seq<u8>> {
    seq![tree_seed(), issuer, u64_le(index)]
}

/// The custodian identity of a program and its bump seed.
pub open spec fn custodian_of(program_id: Seq<u8>) -> Option<(Seq<u8>, u8)> {
    program_address_of(custodian_seeds(), program_id)
}

/// The address of the issuer record of `authority`.
pub open spec fn issuer_address_of(program_id: Seq<u8>, authority: Seq<u8>) -> Option<(Seq<u8>, u8)> {
    program_address_of(issuer_seeds(authority), program_id)
}

/// The address of the tree record number `index` of the issuer record at `issuer`.
pub open spec fn tree_address_of(program_id: Seq<u8>, issuer: Seq<u8>, index: u64) -> Option<(Seq<u8>, u8)> {
    program_address_of(tree_seeds(issuer, index), program_id)
}

/// Whether `claimed` is the address derived from `seeds`.
pub open spec fn matches_derivation(derived: Option<(Seq<u8>, u8)>, claimed: Seq<u8>) -> bool {
    derived is Some && derived.unwrap().0 == claimed
}

fn derive(seeds: &Vec<Vec<u8>>, program_id: &Address) -> (r: Result<(Address, u8), ErrorCode>)
    ensures
        match r {
            Ok((a, bump)) => program_address_of(seeds_view(seeds@), program_id@) == Some((a@, bump)),
            Err(e) => e == ErrorCode::InvalidSeeds && program_address_of(seeds_view(seeds@), program_id@) is None,
        },
{
    match try_find_program_address(seeds, program_id) {
        Some(found) => Ok(found),
        None => Err(ErrorCode::InvalidSeeds),
    }
}

/// Derives the custodian identity of `program_id` from its fixed seed, with the
/// bump seed that proves the derivation.
pub fn derive_custodian(program_id: &Address) -> (r: Result<(Address, u8), ErrorCode>)
    ensures
        match r {
            Ok((a, bump)) => custodian_of(program_id@) == Some((a@, bump)),
            Err(e) => e == ErrorCode::InvalidSeeds && custodian_of(program_id@) is None,
        },
{
    let seeds: Vec<Vec<u8>> = vec![vec![0x61u8, 0x75, 0x74, 0x68, 0x6f, 0x72, 0x69, 0x74, 0x79]];
    assert(seeds_view(seeds@) =~= custodian_seeds());
    derive(&seeds, program_id)
}

/// Derives the address of the issuer record of `authority`.
pub fn derive_issuer_address(program_id: &Address, authority: &Address) -> (r: Result<(Address, u8), ErrorCode>)
    ensures
        match r {
            Ok((a, bump)) => issuer_address_of(program_id@, authority@) == Some((a@, bump)),
            Err(e) => e == ErrorCode::InvalidSeeds && issuer_address_of(program_id@, authority@) is None,
        },
{
    let seeds: Vec<Vec<u8>> = vec![vec![0x69u8, 0x73, 0x73, 0x75, 0x65, 0x72], authority.to_vec()];
    assert(seeds_view(seeds@) =~= issuer_seeds(authority@));
    derive(&seeds, program_id)
}

/// Derives the address of tree record number `index` of the issuer record at `issuer`.
pub fn derive_tree_address(program_id: &Address, issuer: &Address, index: u64) -> (r: Result<(Address, u8), ErrorCode>)
    ensures
        match r {
            Ok((a, bump)) => tree_address_of(program_id@, issuer@, index) == Some((a@, bump)),
            Err(e) => e == ErrorCode::InvalidSeeds && tree_address_of(program_id@, issuer@, index) is None,
        },
{
    let seeds: Vec<Vec<u8>> = vec![vec![0x74u8, 0x72, 0x65, 0x65], issuer.to_vec(), le_bytes(index)];
    assert(seeds_view(seeds@) =~= tree_seeds(issuer@, index));
    derive(&seeds, program_id)
}

/// Compares a recomputed derivation with the address a caller supplied: the bump
/// seed when they agree, `InvalidSeeds` when they differ or nothing was derived.
pub fn check_derivation(derived: Result<(Address, u8), ErrorCode>, claimed: &Address) -> (r: Result<u8, ErrorCode>)
    ensures
        match derived {
            Ok((a, bump)) => if a@ == claimed@ { r == Ok::<u8, ErrorCode>(bump) } else { r == Err::<u8, ErrorCode>(ErrorCode::InvalidSeeds) },
            Err(_) => r == Err::<u8, ErrorCode>(ErrorCode::InvalidSeeds),
        },
{
    match derived {
        Ok((a, bump)) => if a.same(claimed) { Ok(bump) } else { Err(ErrorCode::InvalidSeeds) },
        Err(_) => Err(ErrorCode::InvalidSeeds),
    }
}

/// Checks a caller-supplied custodian address against the recomputed one.
pub fn verify_custodian(program_id: &Address, claimed: &Address) -> (r: Result<u8, ErrorCode>)
    ensures
        r is Ok <==> matches_derivation(custodian_of(program_id@), claimed@),
        r is Ok ==> r == Ok::<u8, ErrorCode>(custodian_of(program_id@).unwrap().1),
        r is Err ==> r == Err::<u8, ErrorCode>(ErrorCode::InvalidSeeds),
{
    check_derivation(derive_custodian(program_id), claimed)
}

/// Checks a caller-supplied issuer record address against the recomputed one.
pub fn verify_issuer_address(program_id: &Address, authority: &Address, claimed: &Address) -> (r: Result<u8, ErrorCode>)
    ensures
        r is Ok <==> matches_derivation(issuer_address_of(program_id@, authority@), claimed@),
        r is Ok ==> r == Ok::<u8, ErrorCode>(issuer_address_of(program_id@, authority@).unwrap().1),
        r is Err ==> r == Err::<u8, ErrorCode>(ErrorCode::InvalidSeeds),
{
    check_derivation(derive_issuer_address(program_id, authority), claimed)
}

/// Checks a caller-supplied tree record address against the recomputed one.
pub fn verify_tree_address(program_id: &Address, issuer: &Address, index: u64, claimed: &Address) -> (r: Result<u8, ErrorCode>)
    ensures
        r is Ok <==> matches_derivation(tree_address_of(program_id@, issuer@, index), claimed@),
        r is Ok ==> r == Ok::<u8, ErrorCode>(tree_address_of(program_id@, issuer@, index).unwrap().1),
        r is Err ==> r == Err::<u8, ErrorCode>(ErrorCode::InvalidSeeds),
{
    check_derivation(derive_tree_address(program_id, issuer, index), claimed)
}

/// The custodian identity is a pure function of the program id: two derivations
/// for the same program give the same address and bump seed.
pub proof fn lemma_custodian_deterministic(a: Address, b: Address)
    requires
        a@ == b@,
    ensures
        custodian_of(a@) == custodian_of(b@),
{
}

} // verus!
