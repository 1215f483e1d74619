use trident_stubs::account::FlatAccount;
use trident_stubs::account::LedgerAccount;
use trident_stubs::context::ContextSlot;
use trident_stubs::context::LogEntry;
use trident_stubs::context::InstructionFrame;
use trident_stubs::context::InvocationContext;
use trident_stubs::context::SysvarCache;
use trident_stubs::cpi::derive_authority;
use trident_stubs::cpi::AccountMeta;
use trident_stubs::cpi::CpiError;
use trident_stubs::cpi::Instruction;
use trident_stubs::errors::InstructionFault;
use trident_stubs::errors::ProgramFault;
use trident_stubs::stubs::TridentSyscallStubs;

fn ledger(key: u64, lamports: u64, data: Vec<u8>, signer: bool, writable: bool) -> LedgerAccount {
    LedgerAccount {
        key,
        lamports,
        owner: 5,
        data,
        is_signer: signer,
        is_writable: writable,
        is_executable: false,
        data_limit: 64,
    }
}

fn context_with(accounts: Vec<LedgerAccount>) -> InvocationContext {
    InvocationContext {
        accounts,
        frames: vec![InstructionFrame {
            program_id: 900,
            account_indices: vec![],
            instruction_data: vec![],
        }],
        compute_budget: 10,
        return_data_program: 0,
        return_data: vec![],
        sysvars: SysvarCache::new(),
        log: vec![],
    }
}

#[test]
fn unauthorized_signer_seed_fails_without_mutation() {
    let mut slot = ContextSlot::new();
    slot.install(context_with(vec![
        ledger(1, 100, vec![1], false, true),
        ledger(77, 0, vec![], false, false),
    ]));
    let accounts_before: Vec<(u64, Vec<u8>)> = slot
        .active
        .as_ref()
        .unwrap()
        .accounts
        .iter()
        .map(|a| (a.lamports, a.data.clone()))
        .collect();
    let instruction = Instruction {
        program_id: 77,
        // The account demands a signature, it did not sign the
        // transaction, and the seeds below derive some other authority.
        accounts: vec![AccountMeta { key: 1, is_signer: true, is_writable: true }],
        data: vec![],
    };
    let flats = vec![FlatAccount { key: 1, lamports: 100, owner: 5, data: vec![1] }];
    let seeds = vec![vec![b"wrong seed".to_vec()]];
    let stubs = TridentSyscallStubs;
    let r = stubs.sol_invoke_signed_prepare(&mut slot, &instruction, &flats, &seeds);
    assert_eq!(
        r.unwrap_err(),
        CpiError::Program(ProgramFault::MissingRequiredSignature)
    );
    let context = slot.active.as_ref().unwrap();
    assert_eq!(context.frames.len(), 1);
    for (account, (lamports, data)) in context.accounts.iter().zip(accounts_before.iter()) {
        assert_eq!(&account.lamports, lamports);
        assert_eq!(&account.data, data);
    }
}

#[test]
fn derived_authority_satisfies_the_signature_demand() {
    let seeds = vec![b"vault".to_vec()];
    let authority = derive_authority(900, &seeds).unwrap();
    let mut slot = ContextSlot::new();
    slot.install(context_with(vec![
        ledger(authority, 100, vec![1], false, true),
        ledger(77, 0, vec![], false, false),
    ]));
    let instruction = Instruction {
        program_id: 77,
        accounts: vec![AccountMeta { key: authority, is_signer: true, is_writable: true }],
        data: vec![42],
    };
    let flats = vec![FlatAccount { key: authority, lamports: 130, owner: 5, data: vec![2, 3] }];
    let stubs = TridentSyscallStubs;
    let plan = stubs
        .sol_invoke_signed_prepare(&mut slot, &instruction, &flats, &vec![seeds])
        .unwrap();
    assert_eq!(plan.program_id, 77);
    let context = slot.active.as_ref().unwrap();
    // The callee frame is pushed and the caller's state copied forward.
    assert_eq!(context.frames.len(), 2);
    assert_eq!(context.frames[1].program_id, 77);
    assert_eq!(context.frames[1].instruction_data, vec![42]);
    assert_eq!(context.accounts[0].lamports, 130);
    assert_eq!(context.accounts[0].data, vec![2, 3]);
}

#[test]
fn overlong_seed_is_refused() {
    let mut slot = ContextSlot::new();
    slot.install(context_with(vec![ledger(77, 0, vec![], false, false)]));
    let instruction = Instruction { program_id: 77, accounts: vec![], data: vec![] };
    let seeds = vec![vec![vec![0u8; 33]]];
    let stubs = TridentSyscallStubs;
    let r = stubs.sol_invoke_signed_prepare(&mut slot, &instruction, &vec![], &seeds);
    assert_eq!(
        r.unwrap_err(),
        CpiError::Program(ProgramFault::MaxSeedLengthExceeded)
    );
}

#[test]
fn missing_target_program_is_reported() {
    let mut slot = ContextSlot::new();
    slot.install(context_with(vec![ledger(1, 1, vec![], false, true)]));
    let instruction = Instruction { program_id: 404, accounts: vec![], data: vec![] };
    let stubs = TridentSyscallStubs;
    let r = stubs.sol_invoke_signed_prepare(&mut slot, &instruction, &vec![], &vec![]);
    assert_eq!(r.unwrap_err(), CpiError::Internal(InstructionFault::MissingAccount));
}

#[test]
fn finish_copies_callee_state_back_into_caller_views() {
    let mut slot = ContextSlot::new();
    slot.install(context_with(vec![
        ledger(1, 100, vec![1], false, true),
        ledger(77, 0, vec![], false, false),
    ]));
    let instruction = Instruction {
        program_id: 77,
        accounts: vec![AccountMeta { key: 1, is_signer: false, is_writable: true }],
        data: vec![],
    };
    let mut flats = vec![FlatAccount { key: 1, lamports: 100, owner: 5, data: vec![1] }];
    let stubs = TridentSyscallStubs;
    let plan = stubs
        .sol_invoke_signed_prepare(&mut slot, &instruction, &flats, &vec![])
        .unwrap();
    // The nested invocation (elided here) left new state in the ledger slot.
    {
        let context = slot.active.as_mut().unwrap();
        context.accounts[0].lamports = 42;
        context.accounts[0].data = vec![7, 7, 7, 7];
        context.accounts[0].owner = 8;
    }
    stubs
        .sol_invoke_signed_finish(&mut slot, &plan, &mut flats, Ok(()))
        .unwrap();
    assert_eq!(flats[0].lamports, 42);
    assert_eq!(flats[0].owner, 8);
    assert_eq!(flats[0].data, vec![7, 7, 7, 7]);
    assert_eq!(flats[0].key, 1);
    assert_eq!(slot.active.as_ref().unwrap().frames.len(), 1);
}

#[test]
fn nested_failure_is_translated_and_copies_nothing_back() {
    let mut slot = ContextSlot::new();
    slot.install(context_with(vec![
        ledger(1, 100, vec![1], false, true),
        ledger(77, 0, vec![], false, false),
    ]));
    let instruction = Instruction {
        program_id: 77,
        accounts: vec![AccountMeta { key: 1, is_signer: false, is_writable: true }],
        data: vec![],
    };
    let mut flats = vec![FlatAccount { key: 1, lamports: 100, owner: 5, data: vec![1] }];
    let stubs = TridentSyscallStubs;
    let plan = stubs
        .sol_invoke_signed_prepare(&mut slot, &instruction, &flats, &vec![])
        .unwrap();
    {
        let context = slot.active.as_mut().unwrap();
        context.accounts[0].lamports = 42;
    }
    let r = stubs.sol_invoke_signed_finish(
        &mut slot,
        &plan,
        &mut flats,
        Err(InstructionFault::Custom(5)),
    );
    assert_eq!(r.unwrap_err(), CpiError::Program(ProgramFault::Custom(5)));
    assert_eq!(flats[0].lamports, 100);
    assert_eq!(slot.active.as_ref().unwrap().frames.len(), 1);
}

#[test]
fn derivation_depends_on_seed_boundaries_and_caller() {
    let a = derive_authority(900, &vec![b"ab".to_vec(), b"c".to_vec()]).unwrap();
    let b = derive_authority(900, &vec![b"a".to_vec(), b"bc".to_vec()]).unwrap();
    let c = derive_authority(901, &vec![b"ab".to_vec(), b"c".to_vec()]).unwrap();
    assert_ne!(a, b);
    assert_ne!(a, c);
    let again = derive_authority(900, &vec![b"ab".to_vec(), b"c".to_vec()]).unwrap();
    assert_eq!(a, again);
}

#[test]
fn cpi_logs_invoke_before_and_success_after() {
    let mut slot = ContextSlot::new();
    slot.install(context_with(vec![
        ledger(1, 100, vec![1], false, true),
        ledger(77, 0, vec![], false, false),
    ]));
    let instruction = Instruction {
        program_id: 77,
        accounts: vec![AccountMeta { key: 1, is_signer: false, is_writable: true }],
        data: vec![],
    };
    let mut flats = vec![FlatAccount { key: 1, lamports: 100, owner: 5, data: vec![1] }];
    let stubs = TridentSyscallStubs;
    let plan = stubs
        .sol_invoke_signed_prepare(&mut slot, &instruction, &flats, &vec![])
        .unwrap();
    assert!(matches!(
        slot.active.as_ref().unwrap().log.last().unwrap(),
        LogEntry::Invoke { program_id: 77, height: 1 }
    ));
    stubs
        .sol_invoke_signed_finish(&mut slot, &plan, &mut flats, Ok(()))
        .unwrap();
    assert!(matches!(
        slot.active.as_ref().unwrap().log.last().unwrap(),
        LogEntry::Success { program_id: 77 }
    ));
}

#[test]
fn cpi_permission_fault_is_surfaced_not_dropped() {
    // The callee-visible account's flat data differs from the ledger data
    // and the slot forbids the content change: the CPI fails with that
    // permission error as its result.
    let mut slot = ContextSlot::new();
    slot.install(context_with(vec![
        ledger(1, 100, vec![1], false, false),
        ledger(77, 0, vec![], false, false),
    ]));
    let instruction = Instruction {
        program_id: 77,
        accounts: vec![AccountMeta { key: 1, is_signer: false, is_writable: false }],
        data: vec![],
    };
    let flats = vec![FlatAccount { key: 1, lamports: 100, owner: 5, data: vec![2, 2] }];
    let stubs = TridentSyscallStubs;
    let r = stubs.sol_invoke_signed_prepare(&mut slot, &instruction, &flats, &vec![]);
    assert_eq!(
        r.unwrap_err(),
        CpiError::Internal(InstructionFault::ReadonlyDataModified)
    );
    // The ledger slot is untouched.
    assert_eq!(slot.active.as_ref().unwrap().accounts[0].data, vec![1]);
}
