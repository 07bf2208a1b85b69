use credify::address::Address;
use credify::authority::{derive_custodian, derive_issuer_address, derive_tree_address};
use credify::guard::{engine_outcome, verify_external_proof};
use credify::issuance::record_issuance;
use credify::registry::{create_merkle_tree, initialize_issuer, record_tree_creation, Caller, IssuerProfile, TreeParams};
use credify::{
    burn_credential, issue_credential, mint_credential, transfer_credential, BurnCredential, CollectionInput,
    CreatorInput, ErrorCode, IssuerData, LeafProof, MerkleTreeData, MetadataArgsInput, MintCredential,
    TransferCredential,
};

const PROGRAM: [u8; 32] = [42u8; 32];
const ISSUER_A: [u8; 32] = [0xa0u8; 32];
const WALLET_W: [u8; 32] = [0xb0u8; 32];
const WALLET_X: [u8; 32] = [0xc0u8; 32];
const WALLET_Z: [u8; 32] = [0xd0u8; 32];
const TREE_T: [u8; 32] = [0xe0u8; 32];

fn pid() -> Address {
    Address::new(PROGRAM)
}

fn custodian() -> Address {
    derive_custodian(&pid()).unwrap().0
}

fn signer(bytes: [u8; 32]) -> Caller {
    Caller { key: Address::new(bytes), is_signer: true }
}

fn profile() -> IssuerProfile {
    IssuerProfile {
        name: "APEC University".to_string(),
        logo_uri: "https://apecgroup.net/logo.png".to_string(),
        website: "https://apecgroup.net".to_string(),
    }
}

fn issuer_account() -> Address {
    derive_issuer_address(&pid(), &Address::new(ISSUER_A)).unwrap().0
}

fn new_issuer() -> IssuerData {
    initialize_issuer(&pid(), &signer(ISSUER_A), &issuer_account(), false, profile()).unwrap()
}

fn tree_params() -> TreeParams {
    TreeParams {
        merkle_tree: Address::new(TREE_T),
        max_depth: 14,
        max_buffer_size: 64,
        tree_name: "Class of 2025".to_string(),
        created_at: 1_700_000_000,
    }
}

fn new_tree(issuer: &IssuerData) -> MerkleTreeData {
    let tree_account = derive_tree_address(&pid(), &issuer_account(), issuer.merkle_tree_count).unwrap().0;
    create_merkle_tree(&pid(), &signer(ISSUER_A), &issuer_account(), issuer, &tree_account, tree_params()).unwrap()
}

fn metadata() -> MetadataArgsInput {
    MetadataArgsInput {
        name: "Bachelor of Science".to_string(),
        symbol: "CRED".to_string(),
        uri: "https://example.org/credential/1.json".to_string(),
        seller_fee_basis_points: 0,
        creators: Some(vec![CreatorInput { address: Address::new(ISSUER_A), verified: true, share: 100 }]),
        collection: Some(CollectionInput { key: Address::new([0x11u8; 32]), verified: false }),
    }
}

fn mint_accounts(recipient: [u8; 32]) -> MintCredential {
    MintCredential {
        payer: signer(ISSUER_A),
        program_authority: custodian(),
        tree_authority: Address::new([0x22u8; 32]),
        leaf_owner: Address::new(recipient),
        merkle_tree: Address::new(TREE_T),
        tree_delegate: Address::new(ISSUER_A),
    }
}

fn leaf_proof() -> LeafProof {
    LeafProof { root: [1u8; 32], data_hash: [2u8; 32], creator_hash: [3u8; 32], nonce: 0, index: 0 }
}

fn transfer_accounts(caller: [u8; 32], delegate: Address) -> TransferCredential {
    TransferCredential {
        program_authority: custodian(),
        tree_authority: Address::new([0x22u8; 32]),
        caller: signer(caller),
        leaf_owner: Address::new(WALLET_W),
        leaf_delegate: delegate,
        new_owner: Address::new(WALLET_X),
        merkle_tree: Address::new(TREE_T),
    }
}

fn burn_accounts(caller: [u8; 32], delegate: Address) -> BurnCredential {
    BurnCredential {
        tree_authority: Address::new([0x22u8; 32]),
        caller: signer(caller),
        leaf_owner: Address::new(WALLET_W),
        leaf_delegate: delegate,
        merkle_tree: Address::new(TREE_T),
    }
}

#[test]
fn issuer_tree_and_credential_lifecycle() {
    let mut issuer = new_issuer();
    assert_eq!(issuer.merkle_tree_count, 0);
    assert_eq!(issuer.credential_count, 0);
    assert!(issuer.is_active);
    assert_eq!(issuer.authority, Address::new(ISSUER_A));
    assert_eq!(issuer.bump, derive_issuer_address(&pid(), &Address::new(ISSUER_A)).unwrap().1);

    let tree = new_tree(&issuer);
    assert_eq!(tree.max_depth, 14);
    assert_eq!(tree.max_buffer_size, 64);
    assert!(tree.is_active);
    assert_eq!(tree.authority, Address::new(ISSUER_A));
    assert_eq!(record_tree_creation(&mut issuer, Ok(())), Ok(()));
    assert_eq!(issuer.merkle_tree_count, 1);

    let req = issue_credential(&pid(), &issuer, &tree, &mint_accounts(WALLET_W), metadata()).unwrap();
    assert_eq!(req.leaf_delegate, custodian());
    assert_eq!(req.leaf_owner, Address::new(WALLET_W));
    assert_eq!(req.merkle_tree, Address::new(TREE_T));
    assert_eq!(req.metadata.name, "Bachelor of Science");
    assert_eq!(record_issuance(&mut issuer, Ok(())), Ok(()));
    assert_eq!(issuer.credential_count, 1);
    assert_eq!(issuer.merkle_tree_count, 1);
}

#[test]
fn locked_credential_cannot_be_transferred() {
    let r = transfer_credential(&pid(), &transfer_accounts(WALLET_W, custodian()), leaf_proof());
    assert_eq!(r.unwrap_err(), ErrorCode::SoulboundCredential);
}

#[test]
fn locked_credential_transfer_refused_for_anyone() {
    let r = transfer_credential(&pid(), &transfer_accounts(WALLET_Z, custodian()), leaf_proof());
    assert_eq!(r.unwrap_err(), ErrorCode::SoulboundCredential);
}

#[test]
fn unlocked_credential_transfers_for_owner() {
    let accounts = transfer_accounts(WALLET_W, Address::new(WALLET_W));
    let req = transfer_credential(&pid(), &accounts, leaf_proof()).unwrap();
    assert_eq!(req.new_owner, Address::new(WALLET_X));
    assert_eq!(req.leaf_owner, Address::new(WALLET_W));
    assert_eq!(req.proof.root, [1u8; 32]);
    assert_eq!(engine_outcome(Ok(())), Ok(()));
}

#[test]
fn unlocked_credential_transfer_refused_for_non_owner() {
    let r = transfer_credential(&pid(), &transfer_accounts(WALLET_Z, Address::new(WALLET_W)), leaf_proof());
    assert_eq!(r.unwrap_err(), ErrorCode::Unauthorized);
}

#[test]
fn unlocked_transfer_needs_signature() {
    let mut accounts = transfer_accounts(WALLET_W, Address::new(WALLET_W));
    accounts.caller.is_signer = false;
    assert_eq!(transfer_credential(&pid(), &accounts, leaf_proof()).unwrap_err(), ErrorCode::MissingSignature);
}

#[test]
fn transfer_with_wrong_custodian_is_refused() {
    let mut accounts = transfer_accounts(WALLET_W, Address::new(WALLET_W));
    accounts.program_authority = Address::new([0x33u8; 32]);
    assert_eq!(transfer_credential(&pid(), &accounts, leaf_proof()).unwrap_err(), ErrorCode::InvalidSeeds);
}

#[test]
fn owner_burns_locked_credential() {
    let req = burn_credential(&burn_accounts(WALLET_W, custodian()), leaf_proof()).unwrap();
    assert_eq!(req.leaf_owner, Address::new(WALLET_W));
    assert_eq!(req.leaf_delegate, custodian());
    assert_eq!(req.merkle_tree, Address::new(TREE_T));
    assert_eq!(engine_outcome(Ok(())), Ok(()));
}

#[test]
fn owner_burns_unlocked_credential() {
    assert!(burn_credential(&burn_accounts(WALLET_W, Address::new(WALLET_X)), leaf_proof()).is_ok());
}

#[test]
fn non_owner_burn_is_unauthorized() {
    let r = burn_credential(&burn_accounts(WALLET_Z, custodian()), leaf_proof());
    assert_eq!(r.unwrap_err(), ErrorCode::Unauthorized);
}

#[test]
fn unsigned_burn_is_refused() {
    let mut accounts = burn_accounts(WALLET_W, custodian());
    accounts.caller.is_signer = false;
    assert_eq!(burn_credential(&accounts, leaf_proof()).unwrap_err(), ErrorCode::MissingSignature);
}

#[test]
fn wrong_custodian_fails_before_any_engine_call() {
    let issuer = new_issuer();
    let tree = new_tree(&issuer);
    let mut accounts = mint_accounts(WALLET_W);
    accounts.program_authority = Address::new([0x44u8; 32]);
    let r = issue_credential(&pid(), &issuer, &tree, &accounts, metadata());
    assert_eq!(r.unwrap_err(), ErrorCode::InvalidSeeds);
    let r = mint_credential(&pid(), &accounts, metadata());
    assert_eq!(r.unwrap_err(), ErrorCode::InvalidSeeds);
}

#[test]
fn mint_credential_delegates_to_custodian() {
    let req = mint_credential(&pid(), &mint_accounts(WALLET_X), metadata()).unwrap();
    assert_eq!(req.leaf_delegate, custodian());
    assert_ne!(req.leaf_delegate, Address::new(WALLET_X));
    assert_ne!(req.leaf_delegate, Address::new(ISSUER_A));
    assert_eq!(req.payer, Address::new(ISSUER_A));
}

#[test]
fn engine_failure_leaves_counters() {
    let mut issuer = new_issuer();
    assert_eq!(record_tree_creation(&mut issuer, Err(6001)), Err(ErrorCode::ExternalEngineFailure(6001)));
    assert_eq!(issuer.merkle_tree_count, 0);
    assert_eq!(record_issuance(&mut issuer, Err(7)), Err(ErrorCode::ExternalEngineFailure(7)));
    assert_eq!(issuer.credential_count, 0);
    assert_eq!(engine_outcome(Err(3)), Err(ErrorCode::ExternalEngineFailure(3)));
}

#[test]
fn counters_saturate_with_error() {
    let mut issuer = new_issuer();
    issuer.credential_count = u64::MAX;
    issuer.merkle_tree_count = u64::MAX;
    assert_eq!(record_issuance(&mut issuer, Ok(())), Err(ErrorCode::CounterOverflow));
    assert_eq!(record_tree_creation(&mut issuer, Ok(())), Err(ErrorCode::CounterOverflow));
    assert_eq!(issuer.credential_count, u64::MAX);
    let tree = new_tree(&new_issuer());
    let r = issue_credential(&pid(), &issuer, &tree, &mint_accounts(WALLET_W), metadata());
    assert_eq!(r.unwrap_err(), ErrorCode::CounterOverflow);
}

#[test]
fn initialize_requires_signature() {
    let caller = Caller { key: Address::new(ISSUER_A), is_signer: false };
    let r = initialize_issuer(&pid(), &caller, &issuer_account(), false, profile());
    assert_eq!(r.unwrap_err(), ErrorCode::MissingSignature);
}

#[test]
fn initialize_rejects_wrong_address() {
    let r = initialize_issuer(&pid(), &signer(ISSUER_A), &Address::new([0x55u8; 32]), false, profile());
    assert_eq!(r.unwrap_err(), ErrorCode::InvalidSeeds);
}

#[test]
fn initialize_rejects_duplicate() {
    let r = initialize_issuer(&pid(), &signer(ISSUER_A), &issuer_account(), true, profile());
    assert_eq!(r.unwrap_err(), ErrorCode::DuplicateIssuer);
}

#[test]
fn create_tree_by_other_caller_is_unauthorized() {
    let issuer = new_issuer();
    let tree_account = derive_tree_address(&pid(), &issuer_account(), 0).unwrap().0;
    let r = create_merkle_tree(&pid(), &signer(WALLET_Z), &issuer_account(), &issuer, &tree_account, tree_params());
    assert_eq!(r.unwrap_err(), ErrorCode::Unauthorized);
}

#[test]
fn create_tree_needs_signature_and_next_address() {
    let issuer = new_issuer();
    let tree_account = derive_tree_address(&pid(), &issuer_account(), 0).unwrap().0;
    let unsigned = Caller { key: Address::new(ISSUER_A), is_signer: false };
    let r = create_merkle_tree(&pid(), &unsigned, &issuer_account(), &issuer, &tree_account, tree_params());
    assert_eq!(r.unwrap_err(), ErrorCode::MissingSignature);
    let stale = derive_tree_address(&pid(), &issuer_account(), 1).unwrap().0;
    let r = create_merkle_tree(&pid(), &signer(ISSUER_A), &issuer_account(), &issuer, &stale, tree_params());
    assert_eq!(r.unwrap_err(), ErrorCode::InvalidSeeds);
}

#[test]
fn second_tree_uses_next_index() {
    let mut issuer = new_issuer();
    let _first = new_tree(&issuer);
    record_tree_creation(&mut issuer, Ok(())).unwrap();
    let second_account = derive_tree_address(&pid(), &issuer_account(), 1).unwrap().0;
    let r = create_merkle_tree(&pid(), &signer(ISSUER_A), &issuer_account(), &issuer, &second_account, tree_params());
    assert!(r.is_ok());
    record_tree_creation(&mut issuer, Ok(())).unwrap();
    assert_eq!(issuer.merkle_tree_count, 2);
}

#[test]
fn issuance_checks_authority_and_activity() {
    let issuer = new_issuer();
    let tree = new_tree(&issuer);

    let mut accounts = mint_accounts(WALLET_W);
    accounts.payer = signer(WALLET_Z);
    assert_eq!(issue_credential(&pid(), &issuer, &tree, &accounts, metadata()).unwrap_err(), ErrorCode::Unauthorized);

    accounts.payer = Caller { key: Address::new(ISSUER_A), is_signer: false };
    assert_eq!(
        issue_credential(&pid(), &issuer, &tree, &accounts, metadata()).unwrap_err(),
        ErrorCode::MissingSignature
    );

    let mut foreign = tree.clone();
    foreign.authority = Address::new(WALLET_Z);
    let accounts = mint_accounts(WALLET_W);
    assert_eq!(issue_credential(&pid(), &issuer, &foreign, &accounts, metadata()).unwrap_err(), ErrorCode::Unauthorized);

    let mut inactive_issuer = issuer.clone();
    inactive_issuer.is_active = false;
    assert_eq!(
        issue_credential(&pid(), &inactive_issuer, &tree, &accounts, metadata()).unwrap_err(),
        ErrorCode::InactiveIssuer
    );

    let mut inactive_tree = tree.clone();
    inactive_tree.is_active = false;
    assert_eq!(
        issue_credential(&pid(), &issuer, &inactive_tree, &accounts, metadata()).unwrap_err(),
        ErrorCode::InactiveTree
    );

    let mut other_tree = mint_accounts(WALLET_W);
    other_tree.merkle_tree = Address::new([0x66u8; 32]);
    assert_eq!(issue_credential(&pid(), &issuer, &tree, &other_tree, metadata()).unwrap_err(), ErrorCode::TreeMismatch);
}

#[test]
fn unsigned_mint_is_refused() {
    let mut accounts = mint_accounts(WALLET_W);
    accounts.payer.is_signer = false;
    assert_eq!(mint_credential(&pid(), &accounts, metadata()).unwrap_err(), ErrorCode::MissingSignature);
}

#[test]
fn external_proof_stub_accepts() {
    assert_eq!(verify_external_proof(&vec![1, 2, 3]), Ok(()));
    assert_eq!(verify_external_proof(&vec![]), Ok(()));
}
