use trident_stubs::account::LedgerAccount;
use trident_stubs::context::ContextSlot;
use trident_stubs::context::InstructionFrame;
use trident_stubs::context::InvocationContext;
use trident_stubs::context::LogEntry;
use trident_stubs::context::SysvarCache;
use trident_stubs::errors::InstructionFault;
use trident_stubs::errors::InvokeError;
use trident_stubs::errors::ProgramFault;
use trident_stubs::errors::CODE_UNSUPPORTED_SYSVAR;
use trident_stubs::stubs::TridentSyscallStubs;
use trident_stubs::stubs::SUCCESS;
use trident_stubs::trampoline::begin_invocation;
use trident_stubs::trampoline::complete_invocation;
use trident_stubs::trampoline::ProgramOutcome;

fn ledger(key: u64, lamports: u64, owner: u64, data: Vec<u8>, writable: bool) -> LedgerAccount {
    LedgerAccount {
        key,
        lamports,
        owner,
        data,
        is_signer: false,
        is_writable: writable,
        is_executable: false,
        data_limit: 64,
    }
}

fn context_with(accounts: Vec<LedgerAccount>, indices: Vec<usize>, budget: u64) -> InvocationContext {
    InvocationContext {
        accounts,
        frames: vec![InstructionFrame {
            program_id: 900,
            account_indices: indices,
            instruction_data: vec![1, 2, 3],
        }],
        compute_budget: budget,
        return_data_program: 0,
        return_data: vec![],
        sysvars: SysvarCache::new(),
        log: vec![],
    }
}

#[test]
fn successful_invocation_commits_program_writes() {
    let mut slot = ContextSlot::new();
    slot.install(context_with(
        vec![ledger(1, 100, 5, vec![1, 2], true), ledger(2, 7, 5, vec![9], false)],
        vec![0, 1, 0],
        10,
    ));
    let mut prep = begin_invocation(&mut slot).unwrap();
    assert_eq!(prep.program_id, 900);
    assert_eq!(prep.dedup_order, vec![0usize, 1]);
    assert_eq!(prep.instruction_data, vec![1, 2, 3]);
    assert_eq!(prep.flat_accounts.len(), 2);
    // The typed views hold exactly the pre-call ledger state.
    assert_eq!(prep.flat_accounts[0].lamports, 100);
    assert_eq!(prep.flat_accounts[0].data, vec![1, 2]);
    // The program mutates its writable view and scribbles on the readonly one.
    prep.flat_accounts[0].lamports = 160;
    prep.flat_accounts[0].data = vec![4, 5, 6];
    prep.flat_accounts[1].lamports = 1_000_000;
    let flats = prep.flat_accounts.clone();
    complete_invocation(&mut slot, &prep, &flats, ProgramOutcome::Success).unwrap();
    let context = slot.active.as_ref().unwrap();
    assert_eq!(context.accounts[0].lamports, 160);
    assert_eq!(context.accounts[0].data, vec![4, 5, 6]);
    // The readonly slot ignored the attempted mutation.
    assert_eq!(context.accounts[1].lamports, 7);
    assert_eq!(context.compute_budget, 9);
    assert!(matches!(context.log[0], LogEntry::Invoke { program_id: 900, height: 1 }));
    assert!(matches!(context.log[1], LogEntry::Success { program_id: 900 }));
}

#[test]
fn abort_reports_failed_to_complete_and_commits_nothing() {
    let mut slot = ContextSlot::new();
    slot.install(context_with(vec![ledger(1, 100, 5, vec![1, 2], true)], vec![0], 10));
    // A first invocation succeeds and commits.
    let mut prep = begin_invocation(&mut slot).unwrap();
    prep.flat_accounts[0].lamports = 150;
    let flats = prep.flat_accounts.clone();
    complete_invocation(&mut slot, &prep, &flats, ProgramOutcome::Success).unwrap();
    assert_eq!(slot.active.as_ref().unwrap().accounts[0].lamports, 150);
    // A second invocation aborts abruptly: failed-to-complete, and the
    // earlier committed state is untouched.
    let mut prep2 = begin_invocation(&mut slot).unwrap();
    prep2.flat_accounts[0].lamports = 999;
    let flats2 = prep2.flat_accounts.clone();
    let r = complete_invocation(&mut slot, &prep2, &flats2, ProgramOutcome::Abort);
    assert_eq!(
        r,
        Err(InvokeError::Fault(InstructionFault::ProgramFailedToComplete))
    );
    let context = slot.active.as_ref().unwrap();
    assert_eq!(context.accounts[0].lamports, 150);
    assert!(matches!(
        context.log.last().unwrap(),
        LogEntry::Failure { program_id: 900, fault: InstructionFault::ProgramFailedToComplete }
    ));
}

#[test]
fn program_failure_is_translated_through_the_code_taxonomy() {
    let mut slot = ContextSlot::new();
    slot.install(context_with(vec![ledger(1, 100, 5, vec![1], true)], vec![0], 10));
    let prep = begin_invocation(&mut slot).unwrap();
    let flats = prep.flat_accounts.clone();
    let r = complete_invocation(
        &mut slot,
        &prep,
        &flats,
        ProgramOutcome::Failure(ProgramFault::Custom(13)),
    );
    assert_eq!(r, Err(InvokeError::Fault(InstructionFault::Custom(13))));
    assert_eq!(slot.active.as_ref().unwrap().accounts[0].lamports, 100);
}

#[test]
fn empty_budget_fails_before_anything_happens() {
    let mut slot = ContextSlot::new();
    slot.install(context_with(vec![ledger(1, 100, 5, vec![1], true)], vec![0], 0));
    let r = begin_invocation(&mut slot);
    assert!(matches!(
        r,
        Err(InvokeError::Fault(InstructionFault::ComputationalBudgetExceeded))
    ));
    let context = slot.active.as_ref().unwrap();
    assert_eq!(context.compute_budget, 0);
    assert!(context.log.is_empty());
}

#[test]
fn no_active_context_fails_every_capability() {
    let mut slot = ContextSlot::new();
    assert!(slot.current().is_err());
    assert!(matches!(begin_invocation(&mut slot), Err(InvokeError::NoActiveContext)));
    let stubs = TridentSyscallStubs;
    assert_eq!(
        stubs.sol_log(&mut slot, "hello".to_string()),
        Err(InvokeError::NoActiveContext)
    );
    assert_eq!(stubs.sol_get_return_data(&slot), Err(InvokeError::NoActiveContext));
    assert_eq!(stubs.sol_get_stack_height(&slot), Err(InvokeError::NoActiveContext));
    let mut out = vec![];
    assert_eq!(
        stubs.sol_get_clock_sysvar(&slot, &mut out),
        Err(InvokeError::NoActiveContext)
    );
}

#[test]
fn sysvar_reads_copy_the_cached_value_or_report_unsupported() {
    let mut slot = ContextSlot::new();
    let mut context = context_with(vec![], vec![], 10);
    context.sysvars = SysvarCache {
        rent: None,
        clock: Some(vec![1, 2, 3, 4]),
        epoch_schedule: None,
        epoch_rewards: None,
        fees: None,
        last_restart_slot: Some(vec![9]),
    };
    slot.install(context);
    let stubs = TridentSyscallStubs;
    let mut out: Vec<u8> = vec![0xaa];
    assert_eq!(stubs.sol_get_clock_sysvar(&slot, &mut out), Ok(SUCCESS));
    assert_eq!(out, vec![1, 2, 3, 4]);
    let mut out2: Vec<u8> = vec![0xbb];
    assert_eq!(
        stubs.sol_get_rent_sysvar(&slot, &mut out2),
        Ok(CODE_UNSUPPORTED_SYSVAR)
    );
    assert_eq!(out2, vec![0xbb]);
    let mut out3: Vec<u8> = vec![];
    assert_eq!(stubs.sol_get_last_restart_slot(&slot, &mut out3), Ok(SUCCESS));
    assert_eq!(out3, vec![9]);
    let mut out4: Vec<u8> = vec![];
    assert_eq!(
        stubs.sol_get_epoch_schedule_sysvar(&slot, &mut out4),
        Ok(CODE_UNSUPPORTED_SYSVAR)
    );
    assert_eq!(
        stubs.sol_get_epoch_rewards_sysvar(&slot, &mut out4),
        Ok(CODE_UNSUPPORTED_SYSVAR)
    );
    assert_eq!(
        stubs.sol_get_fees_sysvar(&slot, &mut out4),
        Ok(CODE_UNSUPPORTED_SYSVAR)
    );
}

#[test]
fn return_data_is_last_writer_wins_keyed_by_current_program() {
    let mut slot = ContextSlot::new();
    slot.install(context_with(vec![], vec![], 10));
    assert!(slot.current().is_ok());
    let stubs = TridentSyscallStubs;
    stubs.sol_set_return_data(&mut slot, &vec![1, 2]).unwrap();
    stubs.sol_set_return_data(&mut slot, &vec![3]).unwrap();
    let (program_id, data) = stubs.sol_get_return_data(&slot).unwrap();
    assert_eq!(program_id, 900);
    assert_eq!(data, vec![3]);
}

#[test]
fn stack_height_counts_frames() {
    let mut slot = ContextSlot::new();
    let mut context = context_with(vec![], vec![], 10);
    context.frames.push(InstructionFrame {
        program_id: 901,
        account_indices: vec![],
        instruction_data: vec![],
    });
    slot.install(context);
    let stubs = TridentSyscallStubs;
    assert_eq!(stubs.sol_get_stack_height(&slot), Ok(2));
}

#[test]
fn program_log_lands_in_the_context_log() {
    let mut slot = ContextSlot::new();
    slot.install(context_with(vec![], vec![], 10));
    let stubs = TridentSyscallStubs;
    stubs.sol_log(&mut slot, "from the program".to_string()).unwrap();
    let context = slot.active.as_ref().unwrap();
    assert!(matches!(&context.log[0], LogEntry::Message(m) if m == "from the program"));
}

#[test]
fn reconcile_fault_is_logged_as_failure_after_the_pass() {
    let mut slot = ContextSlot::new();
    let mut account = ledger(1, 10, 5, vec![1], true);
    account.data_limit = 2;
    slot.install(context_with(vec![account], vec![0], 10));
    let mut prep = begin_invocation(&mut slot).unwrap();
    // The program grows the data beyond the slot's resize permission.
    prep.flat_accounts[0].data = vec![9, 9, 9, 9];
    let flats = prep.flat_accounts.clone();
    let r = complete_invocation(&mut slot, &prep, &flats, ProgramOutcome::Success);
    assert_eq!(r, Err(InvokeError::Fault(InstructionFault::InvalidRealloc)));
    let context = slot.active.as_ref().unwrap();
    // No success entry: the result entry is emitted after reconciliation
    // and carries the fault that stopped the pass.
    assert!(matches!(
        context.log.last().unwrap(),
        LogEntry::Failure { program_id: 900, fault: InstructionFault::InvalidRealloc }
    ));
}
