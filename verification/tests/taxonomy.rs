use trident_stubs::errors::fault_code;
use trident_stubs::errors::fault_from_code;
use trident_stubs::errors::convert_error;
use trident_stubs::errors::InstructionFault;
use trident_stubs::errors::ProgramFault;
use trident_stubs::errors::BUILTIN_CODE_BASE;
use trident_stubs::errors::CODE_BORSH_IO_ERROR;
use trident_stubs::errors::CODE_CUSTOM_ZERO;
use trident_stubs::errors::CODE_INVALID_ARGUMENT;
use trident_stubs::errors::CODE_INVALID_SEEDS;

#[test]
fn custom_payload_is_preserved() {
    assert_eq!(
        convert_error(InstructionFault::Custom(42)),
        Ok(ProgramFault::Custom(42))
    );
    assert_eq!(
        convert_error(InstructionFault::Custom(0)),
        Ok(ProgramFault::Custom(0))
    );
}

#[test]
fn borsh_payload_is_preserved() {
    assert_eq!(
        convert_error(InstructionFault::BorshIoError("broken stream".to_string())),
        Ok(ProgramFault::BorshIoError("broken stream".to_string()))
    );
}

#[test]
fn translatable_faults_cross_over() {
    assert_eq!(
        convert_error(InstructionFault::InvalidArgument),
        Ok(ProgramFault::InvalidArgument)
    );
    assert_eq!(
        convert_error(InstructionFault::InsufficientFunds),
        Ok(ProgramFault::InsufficientFunds)
    );
    assert_eq!(
        convert_error(InstructionFault::MissingRequiredSignature),
        Ok(ProgramFault::MissingRequiredSignature)
    );
    assert_eq!(
        convert_error(InstructionFault::InvalidRealloc),
        Ok(ProgramFault::InvalidRealloc)
    );
    assert_eq!(
        convert_error(InstructionFault::UnsupportedSysvar),
        Ok(ProgramFault::UnsupportedSysvar)
    );
    assert_eq!(
        convert_error(InstructionFault::BuiltinProgramsMustConsumeComputeUnits),
        Ok(ProgramFault::BuiltinProgramsMustConsumeComputeUnits)
    );
}

#[test]
fn untranslatable_faults_propagate_unchanged() {
    assert_eq!(
        convert_error(InstructionFault::GenericError),
        Err(InstructionFault::GenericError)
    );
    assert_eq!(
        convert_error(InstructionFault::ModifiedProgramId),
        Err(InstructionFault::ModifiedProgramId)
    );
    assert_eq!(
        convert_error(InstructionFault::ProgramFailedToComplete),
        Err(InstructionFault::ProgramFailedToComplete)
    );
    assert_eq!(
        convert_error(InstructionFault::ComputationalBudgetExceeded),
        Err(InstructionFault::ComputationalBudgetExceeded)
    );
    assert_eq!(
        convert_error(InstructionFault::CallDepth),
        Err(InstructionFault::CallDepth)
    );
}

#[test]
fn fault_codes_are_the_fixed_values() {
    assert_eq!(fault_code(&ProgramFault::Custom(0)), CODE_CUSTOM_ZERO);
    assert_eq!(fault_code(&ProgramFault::Custom(7)), 7);
    assert_eq!(fault_code(&ProgramFault::InvalidArgument), CODE_INVALID_ARGUMENT);
    assert_eq!(fault_code(&ProgramFault::InvalidArgument), 2u64 << 32);
    assert_eq!(fault_code(&ProgramFault::IncorrectAuthority), 0x1a_0000_0000);
}

#[test]
fn codes_decode_back_to_their_fault() {
    assert_eq!(
        fault_from_code(fault_code(&ProgramFault::InvalidSeeds)),
        InstructionFault::InvalidSeeds
    );
    assert_eq!(fault_from_code(CODE_INVALID_SEEDS), InstructionFault::InvalidSeeds);
    assert_eq!(fault_from_code(CODE_CUSTOM_ZERO), InstructionFault::Custom(0));
    assert_eq!(fault_from_code(99), InstructionFault::Custom(99));
    assert_eq!(
        fault_from_code(CODE_BORSH_IO_ERROR),
        InstructionFault::BorshIoError("Unknown".to_string())
    );
    assert_eq!(
        fault_from_code(BUILTIN_CODE_BASE + 0x70_0000_0000),
        InstructionFault::InvalidError
    );
}
