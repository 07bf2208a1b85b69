use vstd::prelude::*;
use crate::address::Address;
use crate::authority::{custodian_of, matches_derivation, verify_custodian};
use crate::error::ErrorCode;
use crate::registry::Caller;

verus! {

/// The membership proof of a credential leaf. The tree engine checks it; it is
/// passed through untouched.
#[derive(Clone, Copy, Debug)]
pub struct LeafProof {
    pub root: [u8; 32],
    pub data_hash: [u8; 32],
    pub creator_hash: [u8; 32],
    pub nonce: u64,
    pub index: u32,
}

/// The accounts of a transfer: the address claimed for the custodian identity,
/// the caller, the leaf's recorded owner and delegate, and the new owner.
#[derive(Clone, Copy, Debug)]
pub struct TransferCredential {
    pub program_authority: Address,
    pub tree_authority: Address,
    pub caller: Caller,
    pub leaf_owner: Address,
    pub leaf_delegate: Address,
    pub new_owner: Address,
    pub merkle_tree: Address,
}

/// The accounts of a burn: the caller and the leaf's recorded owner and delegate.
#[derive(Clone, Copy, Debug)]
pub struct BurnCredential {
    pub tree_authority: Address,
    pub caller: Caller,
    pub leaf_owner: Address,
    pub leaf_delegate: Address,
    pub merkle_tree: Address,
}

/// The transfer call to hand to the tree engine.
#[derive(Clone, Copy, Debug)]
pub struct TransferRequest {
    pub merkle_tree: Address,
    pub tree_authority: Address,
    pub leaf_owner: Address,
    pub leaf_delegate: Address,
    pub new_owner: Address,
    pub proof: LeafProof,
}

/// The burn call to hand to the tree engine.
#[derive(Clone, Copy, Debug)]
pub struct BurnRequest {
    pub merkle_tree: Address,
    pub tree_authority: Address,
    pub leaf_owner: Address,
    pub leaf_delegate: Address,
    pub proof: LeafProof,
}

/// A credential is locked while its delegate is the custodian identity.
pub open spec fn is_locked(program_id: Seq<u8>, delegate: Seq<u8>) -> bool {
    matches_derivation(custodian_of(program_id), delegate)
}

pub open spec fn transfer_request_of(accounts: TransferCredential, proof: LeafProof) -> TransferRequest {
    TransferRequest {
        merkle_tree: accounts.merkle_tree,
        tree_authority: accounts.tree_authority,
        leaf_owner: accounts.leaf_owner,
        leaf_delegate: accounts.leaf_delegate,
        new_owner: accounts.new_owner,
        proof,
    }
}

/// The outcome of `transfer_credential`, in the order its checks are made.
pub open spec fn transfer_credential_result(
    program_id: Seq<u8>,
    accounts: TransferCredential,
    proof: LeafProof,
) -> Result<TransferRequest, ErrorCode> {
    if !matches_derivation(custodian_of(program_id), accounts.program_authority@) {
        Err(ErrorCode::InvalidSeeds)
    } else if accounts.leaf_delegate@ == accounts.program_authority@ {
        Err(ErrorCode::SoulboundCredential)
    } else if accounts.caller.key@ != accounts.leaf_owner@ {
        Err(ErrorCode::Unauthorized)
    } else if !accounts.caller.is_signer {
        Err(ErrorCode::MissingSignature)
    } else {
        Ok(transfer_request_of(accounts, proof))
    }
}

/// Guards a transfer. The address claimed for the custodian identity is
/// recomputed first; a credential still delegated to it is soulbound and never
/// moves; otherwise only its signing owner may move it.
pub fn transfer_credential(
    program_id: &Address,
    accounts: &TransferCredential,
    proof: LeafProof,
) -> (r: Result<TransferRequest, ErrorCode>)
    ensures
        r == transfer_credential_result(program_id@, *accounts, proof),
{
    if let Err(e) = verify_custodian(program_id, &accounts.program_authority) {
        return Err(e);
    }
    if accounts.leaf_delegate.same(&accounts.program_authority) {
        return Err(ErrorCode::SoulboundCredential);
    }
    if !accounts.caller.key.same(&accounts.leaf_owner) {
        return Err(ErrorCode::Unauthorized);
    }
    if !accounts.caller.is_signer {
        return Err(ErrorCode::MissingSignature);
    }
    Ok(TransferRequest {
        merkle_tree: accounts.merkle_tree,
        tree_authority: accounts.tree_authority,
        leaf_owner: accounts.leaf_owner,
        leaf_delegate: accounts.leaf_delegate,
        new_owner: accounts.new_owner,
        proof,
    })
}

pub open spec fn burn_request_of(accounts: BurnCredential, proof: LeafProof) -> BurnRequest {
    BurnRequest {
        merkle_tree: accounts.merkle_tree,
        tree_authority: accounts.tree_authority,
        leaf_owner: accounts.leaf_owner,
        leaf_delegate: accounts.leaf_delegate,
        proof,
    }
}

/// The outcome of `burn_credential`, in the order its checks are made.
pub open spec fn burn_credential_result(accounts: BurnCredential, proof: LeafProof) -> Result<BurnRequest, ErrorCode> {
    if accounts.caller.key@ != accounts.leaf_owner@ {
        Err(ErrorCode::Unauthorized)
    } else if !accounts.caller.is_signer {
        Err(ErrorCode::MissingSignature)
    } else {
        Ok(burn_request_of(accounts, proof))
    }
}

/// Guards a burn: the signing owner may burn a credential whether it is locked
/// or not; nobody else may.
pub fn burn_credential(accounts: &BurnCredential, proof: LeafProof) -> (r: Result<BurnRequest, ErrorCode>)
    ensures
        r == burn_credential_result(*accounts, proof),
{
    if !accounts.caller.key.same(&accounts.leaf_owner) {
        return Err(ErrorCode::Unauthorized);
    }
    if !accounts.caller.is_signer {
        return Err(ErrorCode::MissingSignature);
    }
    Ok(BurnRequest {
        merkle_tree: accounts.merkle_tree,
        tree_authority: accounts.tree_authority,
        leaf_owner: accounts.leaf_owner,
        leaf_delegate: accounts.leaf_delegate,
        proof,
    })
}

/// What the tree engine's answer to a transfer or burn call means for the request.
pub open spec fn engine_outcome_of(engine: Result<(), u32>) -> Result<(), ErrorCode> {
    match engine {
        Ok(()) => Ok(()),
        Err(code) => Err(ErrorCode::ExternalEngineFailure(code)),
    }
}

/// Carries the tree engine's answer over: its failure code is kept as it is.
pub fn engine_outcome(engine: Result<(), u32>) -> (r: Result<(), ErrorCode>)
    ensures
        r == engine_outcome_of(engine),
{
    match engine {
        Ok(()) => Ok(()),
        Err(code) => Err(ErrorCode::ExternalEngineFailure(code)),
    }
}

/// The boundary for an additional eligibility proof. No check is wired in yet, so
/// every payload is accepted.
pub fn verify_external_proof(payload: &Vec<u8>) -> (r: Result<(), ErrorCode>)
    ensures
        r is Ok,
{
    Ok(())
}

} // verus!
