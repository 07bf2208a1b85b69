use vstd::prelude::*;

verus! {

/// Every way a request can be refused. Each is terminal for the request.
#[derive(Clone, Copy, Debug, PartialEq, Eq, Structural)]
pub enum ErrorCode {
    /// A required signer did not authorize the request.
    MissingSignature,
    /// The caller is not the authority of the record it acts on.
    Unauthorized,
    /// A supplied address differs from the one derived from its seeds.
    InvalidSeeds,
    /// Stored bytes do not decode into the expected record shape.
    InvalidRecordData,
    /// The tree has been deactivated.
    InactiveTree,
    /// The issuer has been deactivated.
    InactiveIssuer,
    /// The credential is still delegated to the custodian and cannot move.
    SoulboundCredential,
    /// The membership-tree engine refused the call; its own code is kept.
    ExternalEngineFailure(u32),
    /// An issuer record already exists at the derived address.
    DuplicateIssuer,
    /// The instruction tag or its payload is not understood.
    InvalidInstruction,
    /// The request names another tree than the tree record supplied.
    TreeMismatch,
    /// A counter has reached its largest value.
    CounterOverflow,
}

} // verus!
