use vstd::prelude::*;
use crate::address::Address;
use crate::authority::{custodian_of, matches_derivation};
use crate::error::ErrorCode;
use crate::guard::{burn_credential_result, is_locked, transfer_credential_result, BurnCredential, LeafProof, TransferCredential};
use crate::issuance::{issuance_step, issue_credential_result, MetadataArgsInput, MintCredential};
use crate::registry::{initialize_issuer_result, tree_creation_step, Caller, IssuerData, IssuerProfile, MerkleTreeData};

verus! {

/// A newly initialized issuer starts active, with no tree and no credential.
pub proof fn lemma_issuer_starts_empty(
    program_id: Address,
    authority: Caller,
    issuer_account: Address,
    already_exists: bool,
    profile: IssuerProfile,
)
    ensures
        initialize_issuer_result(program_id@, authority, issuer_account@, already_exists, profile) matches Ok(rec)
            ==> rec.merkle_tree_count == 0 && rec.credential_count == 0 && rec.is_active && rec.authority == authority.key,
{
}

/// Committing a tree registration adds exactly one tree when the tree engine
/// succeeded, and changes nothing otherwise; the credential count never moves.
pub proof fn lemma_tree_count_steps_by_one(issuer: IssuerData, engine: Result<(), u32>)
    ensures
        tree_creation_step(issuer, engine).1 is Ok ==> tree_creation_step(issuer, engine).0.merkle_tree_count
            == issuer.merkle_tree_count + 1,
        tree_creation_step(issuer, engine).1 is Err ==> tree_creation_step(issuer, engine).0 == issuer,
        tree_creation_step(issuer, engine).0.credential_count == issuer.credential_count,
        engine is Err ==> tree_creation_step(issuer, engine).1 is Err,
{
}

/// Committing an issuance adds exactly one credential when the tree engine
/// succeeded, and changes nothing otherwise; the tree count never moves.
pub proof fn lemma_credential_count_steps_by_one(issuer: IssuerData, engine: Result<(), u32>)
    ensures
        issuance_step(issuer, engine).1 is Ok ==> issuance_step(issuer, engine).0.credential_count
            == issuer.credential_count + 1,
        issuance_step(issuer, engine).1 is Err ==> issuance_step(issuer, engine).0 == issuer,
        issuance_step(issuer, engine).0.merkle_tree_count == issuer.merkle_tree_count,
        engine is Err ==> issuance_step(issuer, engine).1 is Err,
{
}

/// Every issuance that passes validation delegates the new leaf to the custodian
/// identity, and to nothing else.
pub proof fn lemma_issued_credential_is_locked(
    program_id: Address,
    issuer: IssuerData,
    tree: MerkleTreeData,
    accounts: MintCredential,
    metadata: MetadataArgsInput,
)
    ensures
        issue_credential_result(program_id@, issuer, tree, accounts, metadata) matches Ok(req)
            ==> is_locked(program_id@, req.leaf_delegate@) && req.leaf_owner == accounts.leaf_owner,
{
}

/// Once the custodian address is verified, a locked credential is never
/// transferred, whoever asks; an unlocked one is transferred for its signing owner.
pub proof fn lemma_soulbound_transfer(program_id: Address, accounts: TransferCredential, proof: LeafProof)
    requires
        matches_derivation(custodian_of(program_id@), accounts.program_authority@),
    ensures
        is_locked(program_id@, accounts.leaf_delegate@) ==> transfer_credential_result(program_id@, accounts, proof)
            == Err::<crate::guard::TransferRequest, ErrorCode>(ErrorCode::SoulboundCredential),
        !is_locked(program_id@, accounts.leaf_delegate@) && accounts.caller.key@ == accounts.leaf_owner@
            && accounts.caller.is_signer ==> transfer_credential_result(program_id@, accounts, proof) is Ok,
{
}

/// The signing owner may burn a credential, locked or not; any other caller is
/// refused as unauthorized.
pub proof fn lemma_burn_by_owner_only(accounts: BurnCredential, proof: LeafProof)
    ensures
        accounts.caller.key@ == accounts.leaf_owner@ && accounts.caller.is_signer ==> burn_credential_result(
            accounts,
            proof,
        ) is Ok,
        accounts.caller.key@ != accounts.leaf_owner@ ==> burn_credential_result(accounts, proof)
            == Err::<crate::guard::BurnRequest, ErrorCode>(ErrorCode::Unauthorized),
{
}

} // verus!
