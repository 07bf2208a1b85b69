//! Soulbound credentials issued by registered issuers.
//!
//! An issuer registers itself and its membership trees; each credential it
//! issues is a leaf minted by an outside tree engine, delegated to a custodian
//! identity derived from fixed seeds. While that delegation stands the
//! credential cannot be transferred; its owner may always burn it. The
//! handlers here validate each request and describe the engine call to make;
//! the caller makes it and reports back, and only then are counters committed.

pub mod address;
pub mod authority;
pub mod bytes;
pub mod error;
pub mod guard;
pub mod instruction;
pub mod issuance;
pub mod lemmas;
pub mod record;
pub mod registry;

pub use address::Address;
pub use error::ErrorCode;
pub use guard::{burn_credential, transfer_credential, BurnCredential, LeafProof, TransferCredential};
pub use issuance::{issue_credential, mint_credential, CollectionInput, CreatorInput, MetadataArgsInput, MintCredential};
pub use registry::{IssuerData, MerkleTreeData};
