use vstd::prelude::*;
use crate::address::Address;
use crate::authority::{issuer_address_of, matches_derivation, tree_address_of, verify_issuer_address, verify_tree_address};
use crate::error::ErrorCode;

verus! {

/// An identity taking part in a request, and whether it signed the request.
#[derive(Clone, Copy, Debug)]
pub struct Caller {
    pub key: Address,
    pub is_signer: bool,
}

/// Descriptive metadata of an issuer, stored as given.
#[derive(Clone, Debug)]
pub struct IssuerProfile {
    pub name: String,
    pub logo_uri: String,
    pub website: String,
}

/// The state record of one issuing authority.
#[derive(Clone, Debug)]
pub struct IssuerData {
    pub authority: Address,
    pub name: String,
    pub logo_uri: String,
    pub website: String,
    pub bump: u8,
    pub is_active: bool,
    pub credential_count: u64,
    pub merkle_tree_count: u64,
}

/// The parameters of a membership tree to register.
#[derive(Clone, Debug)]
pub struct TreeParams {
    pub merkle_tree: Address,
    pub max_depth: u32,
    pub max_buffer_size: u32,
    pub tree_name: String,
    pub created_at: i64,
}

/// The state record of one membership tree, owned by one issuer.
#[derive(Clone, Debug)]
pub struct MerkleTreeData {
    pub authority: Address,
    pub merkle_tree: Address,
    pub max_depth: u32,
    pub max_buffer_size: u32,
    pub tree_name: String,
    pub created_at: i64,
    pub is_active: bool,
}

/// The record that a successful initialization creates.
pub open spec fn fresh_issuer(authority: Address, profile: IssuerProfile, bump: u8) -> IssuerData {
    IssuerData {
        authority,
        name: profile.name,
        logo_uri: profile.logo_uri,
        website: profile.website,
        bump,
        is_active: true,
        credential_count: 0,
        merkle_tree_count: 0,
    }
}

/// The outcome of `initialize_issuer`, in the order its checks are made.
pub open spec fn initialize_issuer_result(
    program_id: Seq<u8>,
    authority: Caller,
    issuer_account: Seq<u8>,
    already_exists: bool,
    profile: IssuerProfile,
) -> Result<IssuerData, ErrorCode> {
    let derived = issuer_address_of(program_id, authority.key@);
    if !authority.is_signer {
        Err(ErrorCode::MissingSignature)
    } else if !matches_derivation(derived, issuer_account) {
        Err(ErrorCode::InvalidSeeds)
    } else if already_exists {
        Err(ErrorCode::DuplicateIssuer)
    } else {
        Ok(fresh_issuer(authority.key, profile, derived.unwrap().1))
    }
}

/// Registers a new issuer for the signing `authority`. The record must sit at the
/// address derived from the authority, where no record may exist yet; it starts
/// active with both counters at zero.
pub fn initialize_issuer(
    program_id: &Address,
    authority: &Caller,
    issuer_account: &Address,
    already_exists: bool,
    profile: IssuerProfile,
) -> (r: Result<IssuerData, ErrorCode>)
    ensures
        r == initialize_issuer_result(program_id@, *authority, issuer_account@, already_exists, profile),
{
    if !authority.is_signer {
        return Err(ErrorCode::MissingSignature);
    }
    let bump = match verify_issuer_address(program_id, &authority.key, issuer_account) {
        Ok(b) => b,
        Err(e) => return Err(e),
    };
    if already_exists {
        return Err(ErrorCode::DuplicateIssuer);
    }
    Ok(IssuerData {
        authority: authority.key,
        name: profile.name,
        logo_uri: profile.logo_uri,
        website: profile.website,
        bump,
        is_active: true,
        credential_count: 0,
        merkle_tree_count: 0,
    })
}

/// The tree record that a successful registration creates.
pub open spec fn fresh_tree(authority: Address, params: TreeParams) -> MerkleTreeData {
    MerkleTreeData {
        authority,
        merkle_tree: params.merkle_tree,
        max_depth: params.max_depth,
        max_buffer_size: params.max_buffer_size,
        tree_name: params.tree_name,
        created_at: params.created_at,
        is_active: true,
    }
}

/// The outcome of `create_merkle_tree`, in the order its checks are made.
pub open spec fn create_merkle_tree_result(
    program_id: Seq<u8>,
    authority: Caller,
    issuer_account: Seq<u8>,
    issuer: IssuerData,
    tree_account: Seq<u8>,
    params: TreeParams,
) -> Result<MerkleTreeData, ErrorCode> {
    if !authority.is_signer {
        Err(ErrorCode::MissingSignature)
    } else if authority.key@ != issuer.authority@ {
        Err(ErrorCode::Unauthorized)
    } else if !matches_derivation(issuer_address_of(program_id, issuer.authority@), issuer_account) {
        Err(ErrorCode::InvalidSeeds)
    } else if !matches_derivation(tree_address_of(program_id, issuer_account, issuer.merkle_tree_count), tree_account) {
        Err(ErrorCode::InvalidSeeds)
    } else if issuer.merkle_tree_count == u64::MAX {
        Err(ErrorCode::CounterOverflow)
    } else {
        Ok(fresh_tree(issuer.authority, params))
    }
}

/// Validates the registration of a tree under `issuer` and builds its record.
/// The record must sit at the address derived from the issuer record and the
/// issuer's current tree count. Nothing is changed here: once the tree engine
/// has allocated the tree, `record_tree_creation` commits the count.
pub fn create_merkle_tree(
    program_id: &Address,
    authority: &Caller,
    issuer_account: &Address,
    issuer: &IssuerData,
    tree_account: &Address,
    params: TreeParams,
) -> (r: Result<MerkleTreeData, ErrorCode>)
    ensures
        r == create_merkle_tree_result(program_id@, *authority, issuer_account@, *issuer, tree_account@, params),
{
    if !authority.is_signer {
        return Err(ErrorCode::MissingSignature);
    }
    if !authority.key.same(&issuer.authority) {
        return Err(ErrorCode::Unauthorized);
    }
    if let Err(e) = verify_issuer_address(program_id, &issuer.authority, issuer_account) {
        return Err(e);
    }
    if let Err(e) = verify_tree_address(program_id, issuer_account, issuer.merkle_tree_count, tree_account) {
        return Err(e);
    }
    if issuer.merkle_tree_count == u64::MAX {
        return Err(ErrorCode::CounterOverflow);
    }
    Ok(MerkleTreeData {
        authority: issuer.authority,
        merkle_tree: params.merkle_tree,
        max_depth: params.max_depth,
        max_buffer_size: params.max_buffer_size,
        tree_name: params.tree_name,
        created_at: params.created_at,
        is_active: true,
    })
}

/// The issuer after the tree engine answered a tree allocation, and the outcome.
pub open spec fn tree_creation_step(issuer: IssuerData, engine: Result<(), u32>) -> (IssuerData, Result<(), ErrorCode>) {
    match engine {
        Err(code) => (issuer, Err(ErrorCode::ExternalEngineFailure(code))),
        Ok(()) => if issuer.merkle_tree_count == u64::MAX {
            (issuer, Err(ErrorCode::CounterOverflow))
        } else {
            (IssuerData { merkle_tree_count: (issuer.merkle_tree_count + 1) as u64, ..issuer }, Ok(()))
        },
    }
}

/// Commits a tree registration once the tree engine has answered: one more tree
/// on success, nothing changed on failure.
pub fn record_tree_creation(issuer: &mut IssuerData, engine: Result<(), u32>) -> (r: Result<(), ErrorCode>)
    ensures
        (*final(issuer), r) == tree_creation_step(*old(issuer), engine),
{
    match engine {
        Err(code) => Err(ErrorCode::ExternalEngineFailure(code)),
        Ok(()) => {
            if issuer.merkle_tree_count == u64::MAX {
                return Err(ErrorCode::CounterOverflow);
            }
            issuer.merkle_tree_count = issuer.merkle_tree_count + 1;
            Ok(())
        },
    }
}

} // verus!
