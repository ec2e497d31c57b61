//! The errors of the program.

use vstd::prelude::*;

verus! {

/// Why the program refuses an instruction.
///
/// The variants are those of the runtime's own error type; only the text that
/// goes with `BorshIoError` is not kept. `Aborted` is no error code: it stands
/// for a stop without one, where an address has no bump seed or an amount
/// cannot be represented.
#[derive(Clone, Copy, Debug, PartialEq, Eq, Structural)]
pub enum ProgramError {
    Custom(u32),
    InvalidArgument,
    InvalidInstructionData,
    InvalidAccountData,
    AccountDataTooSmall,
    InsufficientFunds,
    IncorrectProgramId,
    MissingRequiredSignature,
    AccountAlreadyInitialized,
    UninitializedAccount,
    NotEnoughAccountKeys,
    AccountBorrowFailed,
    MaxSeedLengthExceeded,
    InvalidSeeds,
    BorshIoError,
    AccountNotRentExempt,
    UnsupportedSysvar,
    IllegalOwner,
    MaxAccountsDataAllocationsExceeded,
    InvalidRealloc,
    MaxInstructionTraceLengthExceeded,
    BuiltinProgramsMustConsumeComputeUnits,
    InvalidAccountOwner,
    ArithmeticOverflow,
    Immutable,
    IncorrectAuthority,
    Aborted,
}

/// The program's own error codes.
#[derive(Clone, Copy, Debug, PartialEq, Eq, Structural)]
pub enum IndieGamesError {
    InvalidInstruction,
    AlreadyInitialized,
    RankedGameNotCreated,
    RankedGameNotRunning,
    RankedGameNotFinished,
    CharacterAlreadyInGame,
    Unauthorized,
    InvalidPDA,
    ArithmeticOverflow,
    InsufficientFunds,
    PayoutExceedsPot,
    StringTooLong,
    MaxParticipantsReached,
}

impl IndieGamesError {
    /// The number of the error, counted from 0 in the order of declaration.
    pub open spec fn code(self) -> u32 {
        match self {
            IndieGamesError::InvalidInstruction => 0,
            IndieGamesError::AlreadyInitialized => 1,
            IndieGamesError::RankedGameNotCreated => 2,
            IndieGamesError::RankedGameNotRunning => 3,
            IndieGamesError::RankedGameNotFinished => 4,
            IndieGamesError::CharacterAlreadyInGame => 5,
            IndieGamesError::Unauthorized => 6,
            IndieGamesError::InvalidPDA => 7,
            IndieGamesError::ArithmeticOverflow => 8,
            IndieGamesError::InsufficientFunds => 9,
            IndieGamesError::PayoutExceedsPot => 10,
            IndieGamesError::StringTooLong => 11,
            IndieGamesError::MaxParticipantsReached => 12,
        }
    }

    /// The text shown for the error.
    pub open spec fn text(self) -> Seq<char> {
        match self {
            IndieGamesError::InvalidInstruction => "Invalid instruction data"@,
            IndieGamesError::AlreadyInitialized => "Account is already initialized"@,
            IndieGamesError::RankedGameNotCreated => "Ranked game must be in Created state"@,
            IndieGamesError::RankedGameNotRunning => "Ranked game must be in Running state"@,
            IndieGamesError::RankedGameNotFinished => "Ranked game must be in Finished state"@,
            IndieGamesError::CharacterAlreadyInGame => "Character is already enrolled in a ranked game"@,
            IndieGamesError::Unauthorized => "Unauthorized: signer is not the admin or owner of this account"@,
            IndieGamesError::InvalidPDA => "Provided account does not match the expected PDA"@,
            IndieGamesError::ArithmeticOverflow => "Arithmetic overflow"@,
            IndieGamesError::InsufficientFunds => "Insufficient lamports in the ranked game account"@,
            IndieGamesError::PayoutExceedsPot => "Total payout amounts exceed the ranked game pot"@,
            IndieGamesError::StringTooLong => "String exceeds the maximum allowed length"@,
            IndieGamesError::MaxParticipantsReached => "Ranked game has reached the maximum number of participants"@,
        }
    }

    /// The text shown for the error.
    pub fn message(&self) -> (r: &'static str)
        ensures
            r@ == self.text(),
    {
        match self {
            IndieGamesError::InvalidInstruction => "Invalid instruction data",
            IndieGamesError::AlreadyInitialized => "Account is already initialized",
            IndieGamesError::RankedGameNotCreated => "Ranked game must be in Created state",
            IndieGamesError::RankedGameNotRunning => "Ranked game must be in Running state",
            IndieGamesError::RankedGameNotFinished => "Ranked game must be in Finished state",
            IndieGamesError::CharacterAlreadyInGame => "Character is already enrolled in a ranked game",
            IndieGamesError::Unauthorized => "Unauthorized: signer is not the admin or owner of this account",
            IndieGamesError::InvalidPDA => "Provided account does not match the expected PDA",
            IndieGamesError::ArithmeticOverflow => "Arithmetic overflow",
            IndieGamesError::InsufficientFunds => "Insufficient lamports in the ranked game account",
            IndieGamesError::PayoutExceedsPot => "Total payout amounts exceed the ranked game pot",
            IndieGamesError::StringTooLong => "String exceeds the maximum allowed length",
            IndieGamesError::MaxParticipantsReached => "Ranked game has reached the maximum number of participants",
        }
    }
}

impl From<IndieGamesError> for ProgramError {
    fn from(e: IndieGamesError) -> (r: Self) {
        match e {
            IndieGamesError::InvalidInstruction => ProgramError::Custom(0),
            IndieGamesError::AlreadyInitialized => ProgramError::Custom(1),
            IndieGamesError::RankedGameNotCreated => ProgramError::Custom(2),
            IndieGamesError::RankedGameNotRunning => ProgramError::Custom(3),
            IndieGamesError::RankedGameNotFinished => ProgramError::Custom(4),
            IndieGamesError::CharacterAlreadyInGame => ProgramError::Custom(5),
            IndieGamesError::Unauthorized => ProgramError::Custom(6),
            IndieGamesError::InvalidPDA => ProgramError::Custom(7),
            IndieGamesError::ArithmeticOverflow => ProgramError::Custom(8),
            IndieGamesError::InsufficientFunds => ProgramError::Custom(9),
            IndieGamesError::PayoutExceedsPot => ProgramError::Custom(10),
            IndieGamesError::StringTooLong => ProgramError::Custom(11),
            IndieGamesError::MaxParticipantsReached => ProgramError::Custom(12),
        }
    }
}

impl vstd::std_specs::convert::FromSpecImpl<IndieGamesError> for ProgramError {
    open spec fn obeys_from_spec() -> bool {
        true
    }

    open spec fn from_spec(e: IndieGamesError) -> ProgramError {
        ProgramError::Custom(e.code())
    }
}

} // verus!
