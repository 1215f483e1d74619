//! Error taxonomy of the bridge and the translation between the ledger
//! runtime's internal instruction faults and the program-facing fault codes.
//!
//! The translation is total over the internal enumeration: every internal
//! fault either has a program-facing equivalent or is marked untranslatable
//! and propagates unchanged.  Faults that carry a payload (a caller-defined
//! numeric code, an I/O message) keep that payload exactly.

use vstd::prelude::*;

verus! {

/// The ledger runtime's internal instruction fault codes.
#[derive(Clone, Debug, PartialEq, Eq)]
pub enum InstructionFault {
    GenericError,
    InvalidArgument,
    InvalidInstructionData,
    InvalidAccountData,
    AccountDataTooSmall,
    InsufficientFunds,
    IncorrectProgramId,
    MissingRequiredSignature,
    AccountAlreadyInitialized,
    UninitializedAccount,
    UnbalancedInstruction,
    ModifiedProgramId,
    ExternalAccountLamportSpend,
    ExternalAccountDataModified,
    ReadonlyLamportChange,
    ReadonlyDataModified,
    DuplicateAccountIndex,
    ExecutableModified,
    RentEpochModified,
    NotEnoughAccountKeys,
    AccountDataSizeChanged,
    AccountNotExecutable,
    AccountBorrowFailed,
    AccountBorrowOutstanding,
    DuplicateAccountOutOfSync,
    Custom(u32),
    InvalidError,
    ExecutableDataModified,
    ExecutableLamportChange,
    ExecutableAccountNotRentExempt,
    UnsupportedProgramId,
    CallDepth,
    MissingAccount,
    ReentrancyNotAllowed,
    MaxSeedLengthExceeded,
    InvalidSeeds,
    InvalidRealloc,
    ComputationalBudgetExceeded,
    PrivilegeEscalation,
    ProgramEnvironmentSetupFailure,
    ProgramFailedToComplete,
    ProgramFailedToCompile,
    Immutable,
    IncorrectAuthority,
    BorshIoError(String),
    AccountNotRentExempt,
    InvalidAccountOwner,
    ArithmeticOverflow,
    UnsupportedSysvar,
    IllegalOwner,
    MaxAccountsDataAllocationsExceeded,
    MaxAccountsExceeded,
    MaxInstructionTraceLengthExceeded,
    BuiltinProgramsMustConsumeComputeUnits,
}

/// The program-facing fault codes a program function may return or observe.
#[derive(Clone, Debug, PartialEq, Eq)]
pub enum ProgramFault {
    Custom(u32),
    InvalidArgument,
    InvalidInstructionData,
    InvalidAccountData,
    AccountDataTooSmall,
    InsufficientFunds,
    IncorrectProgramId,
    MissingRequiredSignature,
    AccountAlreadyInitialized,
    UninitializedAccount,
    NotEnoughAccountKeys,
    AccountBorrowFailed,
    MaxSeedLengthExceeded,
    InvalidSeeds,
    BorshIoError(String),
    AccountNotRentExempt,
    UnsupportedSysvar,
    IllegalOwner,
    MaxAccountsDataAllocationsExceeded,
    InvalidRealloc,
    MaxInstructionTraceLengthExceeded,
    BuiltinProgramsMustConsumeComputeUnits,
    InvalidAccountOwner,
    ArithmeticOverflow,
    Immutable,
    IncorrectAuthority,
}

/// Faults of the bridge itself, wrapping an instruction fault where the
/// ledger side produced one.
#[derive(Clone, Debug, PartialEq, Eq)]
pub enum InvokeError {
    /// A capability was used while no invocation context was installed.
    NoActiveContext,
    /// The flat parameter buffer did not match the expected layout.
    Deserialization,
    /// A fault reported through the ledger runtime's taxonomy.
    Fault(InstructionFault),
}

/// What `convert_error` returns for each internal fault: a program-facing
/// equivalent, or the fault itself where no safe program-facing
/// representation exists.
pub open spec fn spec_convert_error(e: InstructionFault) -> Result<ProgramFault, InstructionFault> {
    match e {
        InstructionFault::InvalidArgument => Ok(ProgramFault::InvalidArgument),
        InstructionFault::InvalidInstructionData => Ok(ProgramFault::InvalidInstructionData),
        InstructionFault::InvalidAccountData => Ok(ProgramFault::InvalidAccountData),
        InstructionFault::AccountDataTooSmall => Ok(ProgramFault::AccountDataTooSmall),
        InstructionFault::InsufficientFunds => Ok(ProgramFault::InsufficientFunds),
        InstructionFault::IncorrectProgramId => Ok(ProgramFault::IncorrectProgramId),
        InstructionFault::MissingRequiredSignature => Ok(ProgramFault::MissingRequiredSignature),
        InstructionFault::AccountAlreadyInitialized => Ok(ProgramFault::AccountAlreadyInitialized),
        InstructionFault::UninitializedAccount => Ok(ProgramFault::UninitializedAccount),
        InstructionFault::NotEnoughAccountKeys => Ok(ProgramFault::NotEnoughAccountKeys),
        InstructionFault::AccountBorrowFailed => Ok(ProgramFault::AccountBorrowFailed),
        InstructionFault::Custom(num) => Ok(ProgramFault::Custom(num)),
        InstructionFault::MaxSeedLengthExceeded => Ok(ProgramFault::MaxSeedLengthExceeded),
        InstructionFault::InvalidSeeds => Ok(ProgramFault::InvalidSeeds),
        InstructionFault::InvalidRealloc => Ok(ProgramFault::InvalidRealloc),
        InstructionFault::BorshIoError(msg) => Ok(ProgramFault::BorshIoError(msg)),
        InstructionFault::AccountNotRentExempt => Ok(ProgramFault::AccountNotRentExempt),
        InstructionFault::InvalidAccountOwner => Ok(ProgramFault::InvalidAccountOwner),
        InstructionFault::ArithmeticOverflow => Ok(ProgramFault::ArithmeticOverflow),
        InstructionFault::UnsupportedSysvar => Ok(ProgramFault::UnsupportedSysvar),
        InstructionFault::IllegalOwner => Ok(ProgramFault::IllegalOwner),
        InstructionFault::MaxAccountsDataAllocationsExceeded => Ok(
            ProgramFault::MaxAccountsDataAllocationsExceeded,
        ),
        InstructionFault::MaxInstructionTraceLengthExceeded => Ok(
            ProgramFault::MaxInstructionTraceLengthExceeded,
        ),
        InstructionFault::BuiltinProgramsMustConsumeComputeUnits => Ok(
            ProgramFault::BuiltinProgramsMustConsumeComputeUnits,
        ),
        _ => Err(e),
    }
}

/// Translates an internal instruction fault into the program-facing taxonomy.
///
/// The translation is total: a fault with no safe program-facing equivalent
/// comes back unchanged on the `Err` side, and a payload-carrying fault keeps
/// its payload exactly.
pub fn convert_error(error: InstructionFault) -> (r: Result<ProgramFault, InstructionFault>)
    ensures
        r == spec_convert_error(error),
        r is Err ==> r->Err_0 == error,
        error matches InstructionFault::Custom(num) ==> r == Ok::<ProgramFault, InstructionFault>(
            ProgramFault::Custom(num),
        ),
{
    match error {
        InstructionFault::InvalidArgument => Ok(ProgramFault::InvalidArgument),
        InstructionFault::InvalidInstructionData => Ok(ProgramFault::InvalidInstructionData),
        InstructionFault::InvalidAccountData => Ok(ProgramFault::InvalidAccountData),
        InstructionFault::AccountDataTooSmall => Ok(ProgramFault::AccountDataTooSmall),
        InstructionFault::InsufficientFunds => Ok(ProgramFault::InsufficientFunds),
        InstructionFault::IncorrectProgramId => Ok(ProgramFault::IncorrectProgramId),
        InstructionFault::MissingRequiredSignature => Ok(ProgramFault::MissingRequiredSignature),
        InstructionFault::AccountAlreadyInitialized => Ok(ProgramFault::AccountAlreadyInitialized),
        InstructionFault::UninitializedAccount => Ok(ProgramFault::UninitializedAccount),
        InstructionFault::NotEnoughAccountKeys => Ok(ProgramFault::NotEnoughAccountKeys),
        InstructionFault::AccountBorrowFailed => Ok(ProgramFault::AccountBorrowFailed),
        InstructionFault::Custom(num) => Ok(ProgramFault::Custom(num)),
        InstructionFault::MaxSeedLengthExceeded => Ok(ProgramFault::MaxSeedLengthExceeded),
        InstructionFault::InvalidSeeds => Ok(ProgramFault::InvalidSeeds),
        InstructionFault::InvalidRealloc => Ok(ProgramFault::InvalidRealloc),
        InstructionFault::BorshIoError(msg) => Ok(ProgramFault::BorshIoError(msg)),
        InstructionFault::AccountNotRentExempt => Ok(ProgramFault::AccountNotRentExempt),
        InstructionFault::InvalidAccountOwner => Ok(ProgramFault::InvalidAccountOwner),
        InstructionFault::ArithmeticOverflow => Ok(ProgramFault::ArithmeticOverflow),
        InstructionFault::UnsupportedSysvar => Ok(ProgramFault::UnsupportedSysvar),
        InstructionFault::IllegalOwner => Ok(ProgramFault::IllegalOwner),
        InstructionFault::MaxAccountsDataAllocationsExceeded => Ok(
            ProgramFault::MaxAccountsDataAllocationsExceeded,
        ),
        InstructionFault::MaxInstructionTraceLengthExceeded => Ok(
            ProgramFault::MaxInstructionTraceLengthExceeded,
        ),
        InstructionFault::BuiltinProgramsMustConsumeComputeUnits => Ok(
            ProgramFault::BuiltinProgramsMustConsumeComputeUnits,
        ),
        other => Err(other),
    }
}

/// A copy of an internal fault, equal to the original: written out by hand
/// so that the copy's equality is part of the contract (a derived clone of
/// a payload-carrying enum has no specification to reason with).
pub fn dup_fault(e: &InstructionFault) -> (r: InstructionFault)
    ensures
        r == *e,
{
    match e {
        InstructionFault::GenericError => InstructionFault::GenericError,
        InstructionFault::InvalidArgument => InstructionFault::InvalidArgument,
        InstructionFault::InvalidInstructionData => InstructionFault::InvalidInstructionData,
        InstructionFault::InvalidAccountData => InstructionFault::InvalidAccountData,
        InstructionFault::AccountDataTooSmall => InstructionFault::AccountDataTooSmall,
        InstructionFault::InsufficientFunds => InstructionFault::InsufficientFunds,
        InstructionFault::IncorrectProgramId => InstructionFault::IncorrectProgramId,
        InstructionFault::MissingRequiredSignature => InstructionFault::MissingRequiredSignature,
        InstructionFault::AccountAlreadyInitialized => InstructionFault::AccountAlreadyInitialized,
        InstructionFault::UninitializedAccount => InstructionFault::UninitializedAccount,
        InstructionFault::UnbalancedInstruction => InstructionFault::UnbalancedInstruction,
        InstructionFault::ModifiedProgramId => InstructionFault::ModifiedProgramId,
        InstructionFault::ExternalAccountLamportSpend => InstructionFault::ExternalAccountLamportSpend,
        InstructionFault::ExternalAccountDataModified => InstructionFault::ExternalAccountDataModified,
        InstructionFault::ReadonlyLamportChange => InstructionFault::ReadonlyLamportChange,
        InstructionFault::ReadonlyDataModified => InstructionFault::ReadonlyDataModified,
        InstructionFault::DuplicateAccountIndex => InstructionFault::DuplicateAccountIndex,
        InstructionFault::ExecutableModified => InstructionFault::ExecutableModified,
        InstructionFault::RentEpochModified => InstructionFault::RentEpochModified,
        InstructionFault::NotEnoughAccountKeys => InstructionFault::NotEnoughAccountKeys,
        InstructionFault::AccountDataSizeChanged => InstructionFault::AccountDataSizeChanged,
        InstructionFault::AccountNotExecutable => InstructionFault::AccountNotExecutable,
        InstructionFault::AccountBorrowFailed => InstructionFault::AccountBorrowFailed,
        InstructionFault::AccountBorrowOutstanding => InstructionFault::AccountBorrowOutstanding,
        InstructionFault::DuplicateAccountOutOfSync => InstructionFault::DuplicateAccountOutOfSync,
        InstructionFault::Custom(num) => InstructionFault::Custom(*num),
        InstructionFault::InvalidError => InstructionFault::InvalidError,
        InstructionFault::ExecutableDataModified => InstructionFault::ExecutableDataModified,
        InstructionFault::ExecutableLamportChange => InstructionFault::ExecutableLamportChange,
        InstructionFault::ExecutableAccountNotRentExempt => InstructionFault::ExecutableAccountNotRentExempt,
        InstructionFault::UnsupportedProgramId => InstructionFault::UnsupportedProgramId,
        InstructionFault::CallDepth => InstructionFault::CallDepth,
        InstructionFault::MissingAccount => InstructionFault::MissingAccount,
        InstructionFault::ReentrancyNotAllowed => InstructionFault::ReentrancyNotAllowed,
        InstructionFault::MaxSeedLengthExceeded => InstructionFault::MaxSeedLengthExceeded,
        InstructionFault::InvalidSeeds => InstructionFault::InvalidSeeds,
        InstructionFault::InvalidRealloc => InstructionFault::InvalidRealloc,
        InstructionFault::ComputationalBudgetExceeded => InstructionFault::ComputationalBudgetExceeded,
        InstructionFault::PrivilegeEscalation => InstructionFault::PrivilegeEscalation,
        InstructionFault::ProgramEnvironmentSetupFailure => InstructionFault::ProgramEnvironmentSetupFailure,
        InstructionFault::ProgramFailedToComplete => InstructionFault::ProgramFailedToComplete,
        InstructionFault::ProgramFailedToCompile => InstructionFault::ProgramFailedToCompile,
        InstructionFault::Immutable => InstructionFault::Immutable,
        InstructionFault::IncorrectAuthority => InstructionFault::IncorrectAuthority,
        InstructionFault::BorshIoError(msg) => InstructionFault::BorshIoError(msg.clone()),
        InstructionFault::AccountNotRentExempt => InstructionFault::AccountNotRentExempt,
        InstructionFault::InvalidAccountOwner => InstructionFault::InvalidAccountOwner,
        InstructionFault::ArithmeticOverflow => InstructionFault::ArithmeticOverflow,
        InstructionFault::UnsupportedSysvar => InstructionFault::UnsupportedSysvar,
        InstructionFault::IllegalOwner => InstructionFault::IllegalOwner,
        InstructionFault::MaxAccountsDataAllocationsExceeded => InstructionFault::MaxAccountsDataAllocationsExceeded,
        InstructionFault::MaxAccountsExceeded => InstructionFault::MaxAccountsExceeded,
        InstructionFault::MaxInstructionTraceLengthExceeded => InstructionFault::MaxInstructionTraceLengthExceeded,
        InstructionFault::BuiltinProgramsMustConsumeComputeUnits => InstructionFault::BuiltinProgramsMustConsumeComputeUnits,
    }
}

/// First program-facing fault code that does not stand for a caller-defined
/// custom code: the codes below it are the custom codes themselves.
pub const BUILTIN_CODE_BASE: u64 = 0x1_0000_0000;

pub const CODE_CUSTOM_ZERO: u64 = 0x1_0000_0000;

pub const CODE_INVALID_ARGUMENT: u64 = 0x2_0000_0000;

pub const CODE_INVALID_INSTRUCTION_DATA: u64 = 0x3_0000_0000;

pub const CODE_INVALID_ACCOUNT_DATA: u64 = 0x4_0000_0000;

pub const CODE_ACCOUNT_DATA_TOO_SMALL: u64 = 0x5_0000_0000;

pub const CODE_INSUFFICIENT_FUNDS: u64 = 0x6_0000_0000;

pub const CODE_INCORRECT_PROGRAM_ID: u64 = 0x7_0000_0000;

pub const CODE_MISSING_REQUIRED_SIGNATURES: u64 = 0x8_0000_0000;

pub const CODE_ACCOUNT_ALREADY_INITIALIZED: u64 = 0x9_0000_0000;

pub const CODE_UNINITIALIZED_ACCOUNT: u64 = 0xa_0000_0000;

pub const CODE_NOT_ENOUGH_ACCOUNT_KEYS: u64 = 0xb_0000_0000;

pub const CODE_ACCOUNT_BORROW_FAILED: u64 = 0xc_0000_0000;

pub const CODE_MAX_SEED_LENGTH_EXCEEDED: u64 = 0xd_0000_0000;

pub const CODE_INVALID_SEEDS: u64 = 0xe_0000_0000;

pub const CODE_BORSH_IO_ERROR: u64 = 0xf_0000_0000;

pub const CODE_ACCOUNT_NOT_RENT_EXEMPT: u64 = 0x10_0000_0000;

pub const CODE_UNSUPPORTED_SYSVAR: u64 = 0x11_0000_0000;

pub const CODE_ILLEGAL_OWNER: u64 = 0x12_0000_0000;

pub const CODE_MAX_ACCOUNTS_DATA_ALLOCATIONS_EXCEEDED: u64 = 0x13_0000_0000;

pub const CODE_INVALID_REALLOC: u64 = 0x14_0000_0000;

pub const CODE_MAX_INSTRUCTION_TRACE_LENGTH_EXCEEDED: u64 = 0x15_0000_0000;

pub const CODE_BUILTIN_PROGRAMS_MUST_CONSUME_COMPUTE_UNITS: u64 = 0x16_0000_0000;

pub const CODE_INVALID_ACCOUNT_OWNER: u64 = 0x17_0000_0000;

pub const CODE_ARITHMETIC_OVERFLOW: u64 = 0x18_0000_0000;

pub const CODE_IMMUTABLE: u64 = 0x19_0000_0000;

pub const CODE_INCORRECT_AUTHORITY: u64 = 0x1a_0000_0000;

/// The numeric wire code of a program-facing fault: a caller-defined custom
/// code travels as itself (zero as a reserved marker), every other fault as a
/// fixed code above `BUILTIN_CODE_BASE`.
pub open spec fn spec_fault_code(p: ProgramFault) -> u64 {
    match p {
        ProgramFault::Custom(num) => if num == 0 {
            CODE_CUSTOM_ZERO
        } else {
            num as u64
        },
        ProgramFault::InvalidArgument => CODE_INVALID_ARGUMENT,
        ProgramFault::InvalidInstructionData => CODE_INVALID_INSTRUCTION_DATA,
        ProgramFault::InvalidAccountData => CODE_INVALID_ACCOUNT_DATA,
        ProgramFault::AccountDataTooSmall => CODE_ACCOUNT_DATA_TOO_SMALL,
        ProgramFault::InsufficientFunds => CODE_INSUFFICIENT_FUNDS,
        ProgramFault::IncorrectProgramId => CODE_INCORRECT_PROGRAM_ID,
        ProgramFault::MissingRequiredSignature => CODE_MISSING_REQUIRED_SIGNATURES,
        ProgramFault::AccountAlreadyInitialized => CODE_ACCOUNT_ALREADY_INITIALIZED,
        ProgramFault::UninitializedAccount => CODE_UNINITIALIZED_ACCOUNT,
        ProgramFault::NotEnoughAccountKeys => CODE_NOT_ENOUGH_ACCOUNT_KEYS,
        ProgramFault::AccountBorrowFailed => CODE_ACCOUNT_BORROW_FAILED,
        ProgramFault::MaxSeedLengthExceeded => CODE_MAX_SEED_LENGTH_EXCEEDED,
        ProgramFault::InvalidSeeds => CODE_INVALID_SEEDS,
        ProgramFault::BorshIoError(_) => CODE_BORSH_IO_ERROR,
        ProgramFault::AccountNotRentExempt => CODE_ACCOUNT_NOT_RENT_EXEMPT,
        ProgramFault::UnsupportedSysvar => CODE_UNSUPPORTED_SYSVAR,
        ProgramFault::IllegalOwner => CODE_ILLEGAL_OWNER,
        ProgramFault::MaxAccountsDataAllocationsExceeded => CODE_MAX_ACCOUNTS_DATA_ALLOCATIONS_EXCEEDED,
        ProgramFault::InvalidRealloc => CODE_INVALID_REALLOC,
        ProgramFault::MaxInstructionTraceLengthExceeded => CODE_MAX_INSTRUCTION_TRACE_LENGTH_EXCEEDED,
        ProgramFault::BuiltinProgramsMustConsumeComputeUnits => CODE_BUILTIN_PROGRAMS_MUST_CONSUME_COMPUTE_UNITS,
        ProgramFault::InvalidAccountOwner => CODE_INVALID_ACCOUNT_OWNER,
        ProgramFault::ArithmeticOverflow => CODE_ARITHMETIC_OVERFLOW,
        ProgramFault::Immutable => CODE_IMMUTABLE,
        ProgramFault::IncorrectAuthority => CODE_INCORRECT_AUTHORITY,
    }
}

/// Encodes a program-facing fault as its numeric wire code.
pub fn fault_code(p: &ProgramFault) -> (c: u64)
    ensures
        c == spec_fault_code(*p),
{
    match p {
        ProgramFault::Custom(num) => if *num == 0 {
            CODE_CUSTOM_ZERO
        } else {
            *num as u64
        },
        ProgramFault::InvalidArgument => CODE_INVALID_ARGUMENT,
        ProgramFault::InvalidInstructionData => CODE_INVALID_INSTRUCTION_DATA,
        ProgramFault::InvalidAccountData => CODE_INVALID_ACCOUNT_DATA,
        ProgramFault::AccountDataTooSmall => CODE_ACCOUNT_DATA_TOO_SMALL,
        ProgramFault::InsufficientFunds => CODE_INSUFFICIENT_FUNDS,
        ProgramFault::IncorrectProgramId => CODE_INCORRECT_PROGRAM_ID,
        ProgramFault::MissingRequiredSignature => CODE_MISSING_REQUIRED_SIGNATURES,
        ProgramFault::AccountAlreadyInitialized => CODE_ACCOUNT_ALREADY_INITIALIZED,
        ProgramFault::UninitializedAccount => CODE_UNINITIALIZED_ACCOUNT,
        ProgramFault::NotEnoughAccountKeys => CODE_NOT_ENOUGH_ACCOUNT_KEYS,
        ProgramFault::AccountBorrowFailed => CODE_ACCOUNT_BORROW_FAILED,
        ProgramFault::MaxSeedLengthExceeded => CODE_MAX_SEED_LENGTH_EXCEEDED,
        ProgramFault::InvalidSeeds => CODE_INVALID_SEEDS,
        ProgramFault::BorshIoError(_) => CODE_BORSH_IO_ERROR,
        ProgramFault::AccountNotRentExempt => CODE_ACCOUNT_NOT_RENT_EXEMPT,
        ProgramFault::UnsupportedSysvar => CODE_UNSUPPORTED_SYSVAR,
        ProgramFault::IllegalOwner => CODE_ILLEGAL_OWNER,
        ProgramFault::MaxAccountsDataAllocationsExceeded => CODE_MAX_ACCOUNTS_DATA_ALLOCATIONS_EXCEEDED,
        ProgramFault::InvalidRealloc => CODE_INVALID_REALLOC,
        ProgramFault::MaxInstructionTraceLengthExceeded => CODE_MAX_INSTRUCTION_TRACE_LENGTH_EXCEEDED,
        ProgramFault::BuiltinProgramsMustConsumeComputeUnits => CODE_BUILTIN_PROGRAMS_MUST_CONSUME_COMPUTE_UNITS,
        ProgramFault::InvalidAccountOwner => CODE_INVALID_ACCOUNT_OWNER,
        ProgramFault::ArithmeticOverflow => CODE_ARITHMETIC_OVERFLOW,
        ProgramFault::Immutable => CODE_IMMUTABLE,
        ProgramFault::IncorrectAuthority => CODE_INCORRECT_AUTHORITY,
    }
}

/// The internal instruction fault a numeric wire code decodes to: the fixed
/// codes map back to their fault, a code below `BUILTIN_CODE_BASE` is a
/// caller-defined custom code, and anything else is the reserved
/// invalid-code fault.  The one payload-carrying decode (the I/O fault,
/// whose message a numeric code cannot carry) is stated directly in the
/// `ensures` of `fault_from_code`.
pub open spec fn spec_fault_from_code(c: u64) -> InstructionFault
    recommends
        c != CODE_BORSH_IO_ERROR,
{
    if c == CODE_CUSTOM_ZERO {
        InstructionFault::Custom(0)
    } else if c == CODE_INVALID_ARGUMENT {
        InstructionFault::InvalidArgument
    } else if c == CODE_INVALID_INSTRUCTION_DATA {
        InstructionFault::InvalidInstructionData
    } else if c == CODE_INVALID_ACCOUNT_DATA {
        InstructionFault::InvalidAccountData
    } else if c == CODE_ACCOUNT_DATA_TOO_SMALL {
        InstructionFault::AccountDataTooSmall
    } else if c == CODE_INSUFFICIENT_FUNDS {
        InstructionFault::InsufficientFunds
    } else if c == CODE_INCORRECT_PROGRAM_ID {
        InstructionFault::IncorrectProgramId
    } else if c == CODE_MISSING_REQUIRED_SIGNATURES {
        InstructionFault::MissingRequiredSignature
    } else if c == CODE_ACCOUNT_ALREADY_INITIALIZED {
        InstructionFault::AccountAlreadyInitialized
    } else if c == CODE_UNINITIALIZED_ACCOUNT {
        InstructionFault::UninitializedAccount
    } else if c == CODE_NOT_ENOUGH_ACCOUNT_KEYS {
        InstructionFault::NotEnoughAccountKeys
    } else if c == CODE_ACCOUNT_BORROW_FAILED {
        InstructionFault::AccountBorrowFailed
    } else if c == CODE_MAX_SEED_LENGTH_EXCEEDED {
        InstructionFault::MaxSeedLengthExceeded
    } else if c == CODE_INVALID_SEEDS {
        InstructionFault::InvalidSeeds
    } else if c == CODE_ACCOUNT_NOT_RENT_EXEMPT {
        InstructionFault::AccountNotRentExempt
    } else if c == CODE_UNSUPPORTED_SYSVAR {
        InstructionFault::UnsupportedSysvar
    } else if c == CODE_ILLEGAL_OWNER {
        InstructionFault::IllegalOwner
    } else if c == CODE_MAX_ACCOUNTS_DATA_ALLOCATIONS_EXCEEDED {
        InstructionFault::MaxAccountsDataAllocationsExceeded
    } else if c == CODE_INVALID_REALLOC {
        InstructionFault::InvalidRealloc
    } else if c == CODE_MAX_INSTRUCTION_TRACE_LENGTH_EXCEEDED {
        InstructionFault::MaxInstructionTraceLengthExceeded
    } else if c == CODE_BUILTIN_PROGRAMS_MUST_CONSUME_COMPUTE_UNITS {
        InstructionFault::BuiltinProgramsMustConsumeComputeUnits
    } else if c == CODE_INVALID_ACCOUNT_OWNER {
        InstructionFault::InvalidAccountOwner
    } else if c == CODE_ARITHMETIC_OVERFLOW {
        InstructionFault::ArithmeticOverflow
    } else if c == CODE_IMMUTABLE {
        InstructionFault::Immutable
    } else if c == CODE_INCORRECT_AUTHORITY {
        InstructionFault::IncorrectAuthority
    } else if c < BUILTIN_CODE_BASE {
        InstructionFault::Custom(c as u32)
    } else {
        InstructionFault::InvalidError
    }
}

/// Decodes a numeric wire code back into the internal taxonomy.
///
/// A custom code comes back as itself, the fixed codes as their fault, the
/// I/O fault with a fixed stand-in message (the code cannot carry one), and an
/// unassigned code above `BUILTIN_CODE_BASE` as the invalid-code fault.
pub fn fault_from_code(c: u64) -> (e: InstructionFault)
    ensures
        c != CODE_BORSH_IO_ERROR ==> e == spec_fault_from_code(c),
        c == CODE_BORSH_IO_ERROR ==> (e matches InstructionFault::BorshIoError(msg) && msg@
            == "Unknown"@),
{
    if c == CODE_CUSTOM_ZERO {
        InstructionFault::Custom(0)
    } else if c == CODE_INVALID_ARGUMENT {
        InstructionFault::InvalidArgument
    } else if c == CODE_INVALID_INSTRUCTION_DATA {
        InstructionFault::InvalidInstructionData
    } else if c == CODE_INVALID_ACCOUNT_DATA {
        InstructionFault::InvalidAccountData
    } else if c == CODE_ACCOUNT_DATA_TOO_SMALL {
        InstructionFault::AccountDataTooSmall
    } else if c == CODE_INSUFFICIENT_FUNDS {
        InstructionFault::InsufficientFunds
    } else if c == CODE_INCORRECT_PROGRAM_ID {
        InstructionFault::IncorrectProgramId
    } else if c == CODE_MISSING_REQUIRED_SIGNATURES {
        InstructionFault::MissingRequiredSignature
    } else if c == CODE_ACCOUNT_ALREADY_INITIALIZED {
        InstructionFault::AccountAlreadyInitialized
    } else if c == CODE_UNINITIALIZED_ACCOUNT {
        InstructionFault::UninitializedAccount
    } else if c == CODE_NOT_ENOUGH_ACCOUNT_KEYS {
        InstructionFault::NotEnoughAccountKeys
    } else if c == CODE_ACCOUNT_BORROW_FAILED {
        InstructionFault::AccountBorrowFailed
    } else if c == CODE_MAX_SEED_LENGTH_EXCEEDED {
        InstructionFault::MaxSeedLengthExceeded
    } else if c == CODE_INVALID_SEEDS {
        InstructionFault::InvalidSeeds
    } else if c == CODE_BORSH_IO_ERROR {
        InstructionFault::BorshIoError("Unknown".to_owned())
    } else if c == CODE_ACCOUNT_NOT_RENT_EXEMPT {
        InstructionFault::AccountNotRentExempt
    } else if c == CODE_UNSUPPORTED_SYSVAR {
        InstructionFault::UnsupportedSysvar
    } else if c == CODE_ILLEGAL_OWNER {
        InstructionFault::IllegalOwner
    } else if c == CODE_MAX_ACCOUNTS_DATA_ALLOCATIONS_EXCEEDED {
        InstructionFault::MaxAccountsDataAllocationsExceeded
    } else if c == CODE_INVALID_REALLOC {
        InstructionFault::InvalidRealloc
    } else if c == CODE_MAX_INSTRUCTION_TRACE_LENGTH_EXCEEDED {
        InstructionFault::MaxInstructionTraceLengthExceeded
    } else if c == CODE_BUILTIN_PROGRAMS_MUST_CONSUME_COMPUTE_UNITS {
        InstructionFault::BuiltinProgramsMustConsumeComputeUnits
    } else if c == CODE_INVALID_ACCOUNT_OWNER {
        InstructionFault::InvalidAccountOwner
    } else if c == CODE_ARITHMETIC_OVERFLOW {
        InstructionFault::ArithmeticOverflow
    } else if c == CODE_IMMUTABLE {
        InstructionFault::Immutable
    } else if c == CODE_INCORRECT_AUTHORITY {
        InstructionFault::IncorrectAuthority
    } else if c < BUILTIN_CODE_BASE {
        InstructionFault::Custom(c as u32)
    } else {
        InstructionFault::InvalidError
    }
}

} // verus!
