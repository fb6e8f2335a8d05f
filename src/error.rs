use vstd::prelude::*;

verus! {

/// Every way an instruction can fail; each failure rejects the whole instruction.
#[derive(Debug, Clone, Copy, PartialEq, Eq, Structural)]
pub enum StudentIntroError {
    /// The instruction bytes are malformed.
    DecodingError,
    /// A supplied address differs from the one re-derived from its seeds.
    AddressMismatch,
    /// The target account is already in use.
    AlreadyInitialized,
    /// The record has not been created yet.
    UninitializedAccount,
    /// The encoded record exceeds the maximum size of its class.
    SizeLimitExceeded,
    /// The account is not owned by this program.
    IllegalOwner,
    /// Fewer accounts were supplied than the instruction lists.
    NotEnoughAccountKeys,
    /// The account paying for an allocation did not sign.
    MissingSignature,
    /// The one-byte reply counter cannot go past 255.
    ReplyLimitReached,
}

} // verus!
