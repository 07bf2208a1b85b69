use vstd::prelude::*;
use crate::address::Address;
use crate::authority::{custodian_of, matches_derivation, verify_custodian};
use crate::error::ErrorCode;
use crate::registry::{Caller, IssuerData, MerkleTreeData};

verus! {

/// A creator listed in a credential's metadata.
#[derive(Clone, Copy, Debug)]
pub struct CreatorInput {
    pub address: Address,
    pub verified: bool,
    pub share: u8,
}

/// The collection a credential belongs to.
#[derive(Clone, Copy, Debug)]
pub struct CollectionInput {
    pub key: Address,
    pub verified: bool,
}

/// The leaf payload of a credential. It is handed to the tree engine as it is.
#[derive(Clone, Debug)]
pub struct MetadataArgsInput {
    pub name: String,
    pub symbol: String,
    pub uri: String,
    pub seller_fee_basis_points: u16,
    pub creators: Option<Vec<CreatorInput>>,
    pub collection: Option<CollectionInput>,
}

/// The accounts of an issuance: the signing payer, the address it claims for the
/// custodian identity, the recipient and the tree.
#[derive(Clone, Copy, Debug)]
pub struct MintCredential {
    pub payer: Caller,
    pub program_authority: Address,
    pub tree_authority: Address,
    pub leaf_owner: Address,
    pub merkle_tree: Address,
    pub tree_delegate: Address,
}

/// The mint call to hand to the tree engine.
#[derive(Clone, Debug)]
pub struct MintRequest {
    pub merkle_tree: Address,
    pub tree_authority: Address,
    pub tree_delegate: Address,
    pub payer: Address,
    pub leaf_owner: Address,
    pub leaf_delegate: Address,
    pub metadata: MetadataArgsInput,
}

/// The mint call built from the accounts: the recipient owns the leaf and the
/// custodian identity holds its delegation.
pub open spec fn mint_request_of(accounts: MintCredential, metadata: MetadataArgsInput) -> MintRequest {
    MintRequest {
        merkle_tree: accounts.merkle_tree,
        tree_authority: accounts.tree_authority,
        tree_delegate: accounts.tree_delegate,
        payer: accounts.payer.key,
        leaf_owner: accounts.leaf_owner,
        leaf_delegate: accounts.program_authority,
        metadata,
    }
}

/// The outcome of `mint_credential`, in the order its checks are made.
pub open spec fn mint_credential_result(
    program_id: Seq<u8>,
    accounts: MintCredential,
    metadata: MetadataArgsInput,
) -> Result<MintRequest, ErrorCode> {
    if !accounts.payer.is_signer {
        Err(ErrorCode::MissingSignature)
    } else if !matches_derivation(custodian_of(program_id), accounts.program_authority@) {
        Err(ErrorCode::InvalidSeeds)
    } else {
        Ok(mint_request_of(accounts, metadata))
    }
}

/// Builds the mint call of a soulbound credential: the leaf is delegated to the
/// custodian identity, after the address claimed for it has been recomputed.
pub fn mint_credential(
    program_id: &Address,
    accounts: &MintCredential,
    metadata: MetadataArgsInput,
) -> (r: Result<MintRequest, ErrorCode>)
    ensures
        r == mint_credential_result(program_id@, *accounts, metadata),
        r is Ok ==> custodian_of(program_id@) is Some && r->Ok_0.leaf_delegate@ == custodian_of(program_id@).unwrap().0,
{
    if !accounts.payer.is_signer {
        return Err(ErrorCode::MissingSignature);
    }
    if let Err(e) = verify_custodian(program_id, &accounts.program_authority) {
        return Err(e);
    }
    Ok(MintRequest {
        merkle_tree: accounts.merkle_tree,
        tree_authority: accounts.tree_authority,
        tree_delegate: accounts.tree_delegate,
        payer: accounts.payer.key,
        leaf_owner: accounts.leaf_owner,
        leaf_delegate: accounts.program_authority,
        metadata,
    })
}

/// The outcome of `issue_credential`, in the order its checks are made.
pub open spec fn issue_credential_result(
    program_id: Seq<u8>,
    issuer: IssuerData,
    tree: MerkleTreeData,
    accounts: MintCredential,
    metadata: MetadataArgsInput,
) -> Result<MintRequest, ErrorCode> {
    if !accounts.payer.is_signer {
        Err(ErrorCode::MissingSignature)
    } else if accounts.payer.key@ != issuer.authority@ {
        Err(ErrorCode::Unauthorized)
    } else if tree.authority@ != issuer.authority@ {
        Err(ErrorCode::Unauthorized)
    } else if !issuer.is_active {
        Err(ErrorCode::InactiveIssuer)
    } else if !tree.is_active {
        Err(ErrorCode::InactiveTree)
    } else if accounts.merkle_tree@ != tree.merkle_tree@ {
        Err(ErrorCode::TreeMismatch)
    } else if issuer.credential_count == u64::MAX {
        Err(ErrorCode::CounterOverflow)
    } else {
        mint_credential_result(program_id, accounts, metadata)
    }
}

/// Validates an issuance by `issuer` into `tree` and builds the mint call. The
/// payer must be the issuer's authority, the tree must belong to the issuer, and
/// both must be active. Nothing is changed here: once the tree engine has
/// minted the leaf, `record_issuance` commits the count.
pub fn issue_credential(
    program_id: &Address,
    issuer: &IssuerData,
    tree: &MerkleTreeData,
    accounts: &MintCredential,
    metadata: MetadataArgsInput,
) -> (r: Result<MintRequest, ErrorCode>)
    ensures
        r == issue_credential_result(program_id@, *issuer, *tree, *accounts, metadata),
        r is Ok ==> custodian_of(program_id@) is Some && r->Ok_0.leaf_delegate@ == custodian_of(program_id@).unwrap().0,
{
    if !accounts.payer.is_signer {
        return Err(ErrorCode::MissingSignature);
    }
    if !accounts.payer.key.same(&issuer.authority) {
        return Err(ErrorCode::Unauthorized);
    }
    if !tree.authority.same(&issuer.authority) {
        return Err(ErrorCode::Unauthorized);
    }
    if !issuer.is_active {
        return Err(ErrorCode::InactiveIssuer);
    }
    if !tree.is_active {
        return Err(ErrorCode::InactiveTree);
    }
    if !accounts.merkle_tree.same(&tree.merkle_tree) {
        return Err(ErrorCode::TreeMismatch);
    }
    if issuer.credential_count == u64::MAX {
        return Err(ErrorCode::CounterOverflow);
    }
    mint_credential(program_id, accounts, metadata)
}

/// The issuer after the tree engine answered a mint call, and the outcome.
pub open spec fn issuance_step(issuer: IssuerData, engine: Result<(), u32>) -> (IssuerData, Result<(), ErrorCode>) {
    match engine {
        Err(code) => (issuer, Err(ErrorCode::ExternalEngineFailure(code))),
        Ok(()) => if issuer.credential_count == u64::MAX {
            (issuer, Err(ErrorCode::CounterOverflow))
        } else {
            (IssuerData { credential_count: (issuer.credential_count + 1) as u64, ..issuer }, Ok(()))
        },
    }
}

/// Commits an issuance once the tree engine has answered: one more credential on
/// success, nothing changed on failure.
pub fn record_issuance(issuer: &mut IssuerData, engine: Result<(), u32>) -> (r: Result<(), ErrorCode>)
    ensures
        (*final(issuer), r) == issuance_step(*old(issuer), engine),
{
    match engine {
        Err(code) => Err(ErrorCode::ExternalEngineFailure(code)),
        Ok(()) => {
            if issuer.credential_count == u64::MAX {
                return Err(ErrorCode::CounterOverflow);
            }
            issuer.credential_count = issuer.credential_count + 1;
            Ok(())
        },
    }
}

} // verus!
