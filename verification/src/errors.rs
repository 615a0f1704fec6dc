use vstd::prelude::*;

verus! {

/// Error taxonomy of the ledger. Every failure of an invocation is reported
/// as exactly one of these kinds, detected before any mutation is committed.
#[derive(Clone, Copy, Debug, PartialEq, Eq, Structural)]
pub enum DaoError {
    /// Instruction or record bytes do not decode.
    MalformedEncoding,
    /// A record is not owned by the executing program.
    WrongOwningProgram,
    /// A required signer proof is absent.
    MissingAuthorization,
    /// The proved identity does not equal the identity stored on the record.
    AuthorizationMismatch,
    /// A record was read before it was created.
    UninitializedRecord,
    /// The proposal voted on is no longer active.
    ProposalInactive,
    /// The vote arrived after the proposal's end time.
    VotingPeriodEnded,
    /// An option index is out of range.
    InvalidIndex,
    /// A stake or vote weight is below the required threshold, or a balance
    /// is too small for the requested withdrawal.
    InsufficientFunds,
    /// A checked addition, subtraction or multiplication would overflow.
    ArithmeticOverflow,
    /// A mutated record does not fit its storage slot, or a field is too
    /// long for its length prefix.
    SerializationCapacityExceeded,
    /// Fewer records were supplied than the instruction requires.
    MissingRecord,
}

} // verus!
