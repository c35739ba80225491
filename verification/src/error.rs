use vstd::prelude::*;

verus! {

/// Errors surfaced by the core operations. A failed operation aborts the
/// whole invocation; the host rolls back every state change, so an error
/// always leaves prior state exactly as it was.
#[derive(Clone, Copy, Debug, PartialEq, Eq, Structural)]
pub enum ContractError {
    /// Caller identity check failed: wrong sender for a privileged or
    /// bound operation, or a spoofed remote router.
    Unauthorized,
    /// No router configured for the requested domain.
    RouteNotFound,
    /// An asynchronous callback arrived with an unexpected tag.
    InvalidReplyId,
    /// The packed per-hook metadata's offset table is invalid.
    MalformedMetadata,
    /// A wire payload does not match the expected layout.
    DecodeError,
    /// Address re-encoding through the configured prefix failed.
    CodecError,
    /// The token address is not populated yet (bridged mode before the
    /// sub-instantiation callback) or was never configured.
    TokenNotSet,
    /// The Merkle accumulator reached its maximum leaf count.
    MerkleTreeFull,
}

} // verus!
