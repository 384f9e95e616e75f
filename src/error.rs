//! The ways an operation on the registry can fail.

use vstd::prelude::*;

verus! {

/// Every validation failure maps to exactly one of these.
#[derive(Clone, Copy, Debug, PartialEq, Eq, Structural)]
pub enum DocumentsError {
    /// A supplied account address differs from the one derived from its seeds.
    AddressDerivationMismatch,
    /// The address search found nothing: no bump value yields a
    /// program-owned address, or a seed is too long.
    DerivationExhausted,
    /// An account that must not exist yet already holds data.
    AlreadyInitialized,
    /// An account that must exist holds no data.
    NotInitialized,
    /// The acting party did not sign.
    MissingAuthorization,
    /// An account to be mutated is not owned by the program.
    WrongOwner,
    /// An account's balance is below the minimum for its size.
    NotExemptFromReclamation,
    /// A rent or clock account is not the canonical system one.
    InvalidSystemFact,
    /// Instruction or account bytes are malformed.
    DecodeError,
    /// Fewer accounts were supplied than the operation lists.
    NotEnoughAccountKeys,
    /// The account to be created already holds lamports or belongs to a
    /// program other than the system program.
    AccountAlreadyInUse,
    /// The funding account cannot pay for a new account.
    InsufficientFunds,
    /// A balance or counter would leave its integer range.
    ArithmeticOverflow,
}

} // verus!
