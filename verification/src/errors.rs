//! Error types returned by the voting program's core.
use vstd::prelude::*;

verus! {

/// The specific poll invariant that failed during validation.
#[derive(Clone, Copy, Debug, PartialEq, Eq, Structural)]
pub enum ValidationErrorKind {
    /// The poll identifier is empty after trimming whitespace.
    UidEmpty,
    /// The poll identifier exceeds its length bound.
    UidTooLong,
    /// The poll name is empty after trimming whitespace.
    NameEmpty,
    /// The poll name exceeds its length bound.
    NameTooLong,
    /// The option list is empty.
    OptionsEmpty,
    /// The poll would start before the current wall-clock time.
    StartDateInPast,
    /// The poll would start at or after its end.
    StartDateAfterEndDate,
    /// Two options share the same id.
    DuplicateOptionId,
    /// An option description is empty after trimming whitespace.
    DescriptionEmpty,
    /// An option description exceeds its length bound.
    DescriptionTooLong,
}

/// Which initialization- or identity-check a supplied account handle failed.
#[derive(Clone, Copy, Debug, PartialEq, Eq, Structural)]
pub enum AccountStateKind {
    /// The storage account already holds data, so the poll cannot be created there.
    AlreadyInitialized,
    /// The storage account holds no data, so there is no poll to vote on.
    Uninitialized,
    /// The handle supplied for the system program is not the system program.
    WrongProgram,
}

/// Every way an invocation of the voting program can be rejected.
///
/// All failures are detected before any state is produced, so a caller that
/// receives one of these has mutated nothing.
#[derive(Clone, Copy, Debug, PartialEq, Eq, Structural)]
pub enum VoteProgramError {
    /// Instruction bytes or stored record bytes failed to decode.
    MalformedInput,
    /// Fewer account handles were supplied than the instruction's roles require.
    NotEnoughAccounts,
    /// A required signer role was not authorized.
    MissingSignature,
    /// A supplied account handle is in the wrong initialization state or has
    /// the wrong program identity.
    AccountStateError(AccountStateKind),
    /// The supplied storage handle's address differs from the derived address.
    AddressMismatch,
    /// A poll field bound, option-set, or scheduling invariant was violated.
    ValidationError(ValidationErrorKind),
    /// The owner's balance cannot fund the new record's exemption minimum.
    ResourceError,
    /// The vote references an option id absent from the poll.
    UnknownOption,
    /// The vote was cast before the poll's start.
    VotingNotStartedYet,
    /// The vote was cast after the poll's end.
    VotingExpired,
}

} // verus!
