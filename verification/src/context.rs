//! The invocation context: the transaction-scoped state one invocation tree
//! works on — the ledger-side account slots, the stack of instruction
//! frames, the unit budget, the return-data slot, the cached system
//! variables and the structured log.
//!
//! The context access point is a single-slot holder scoped to one invocation
//! tree.  Every capability re-resolves the context through it instead of
//! caching a reference, since a nested invocation may have replaced the
//! installed context in the meantime.

use vstd::prelude::*;

use crate::account::LedgerAccount;
use crate::errors::InstructionFault;

verus! {

/// One instruction on the invocation stack: the program being run, the
/// ledger slots it references (possibly with duplicates) and its payload.
#[derive(Clone, Debug)]
pub struct InstructionFrame {
    pub program_id: u64,
    pub account_indices: Vec<usize>,
    pub instruction_data: Vec<u8>,
}

/// The kinds of cached system variables a program can ask for.
#[derive(Clone, Copy, Debug, PartialEq, Eq, Structural)]
pub enum SysvarKind {
    Rent,
    Clock,
    EpochSchedule,
    EpochRewards,
    Fees,
    LastRestartSlot,
}

/// The cached system-variable values, one optional encoded value per kind.
#[derive(Clone, Debug)]
pub struct SysvarCache {
    pub rent: Option<Vec<u8>>,
    pub clock: Option<Vec<u8>>,
    pub epoch_schedule: Option<Vec<u8>>,
    pub epoch_rewards: Option<Vec<u8>>,
    pub fees: Option<Vec<u8>>,
    pub last_restart_slot: Option<Vec<u8>>,
}

/// The cached value of one kind.
pub open spec fn spec_sysvar(cache: SysvarCache, kind: SysvarKind) -> Option<Seq<u8>> {
    let slot = match kind {
        SysvarKind::Rent => cache.rent,
        SysvarKind::Clock => cache.clock,
        SysvarKind::EpochSchedule => cache.epoch_schedule,
        SysvarKind::EpochRewards => cache.epoch_rewards,
        SysvarKind::Fees => cache.fees,
        SysvarKind::LastRestartSlot => cache.last_restart_slot,
    };
    match slot {
        Some(v) => Some(v@),
        None => None,
    }
}

impl SysvarCache {
    /// An empty cache: every kind absent.
    pub fn new() -> (r: SysvarCache)
        ensures
            forall|kind: SysvarKind| spec_sysvar(r, kind) is None,
    {
        SysvarCache {
            rent: None,
            clock: None,
            epoch_schedule: None,
            epoch_rewards: None,
            fees: None,
            last_restart_slot: None,
        }
    }

    /// The cached value of `kind`, if any.
    pub fn lookup(&self, kind: SysvarKind) -> (r: &Option<Vec<u8>>)
        ensures
            r is Some <==> spec_sysvar(*self, kind) is Some,
            r matches Some(v) ==> spec_sysvar(*self, kind) == Some(v@),
    {
        match kind {
            SysvarKind::Rent => &self.rent,
            SysvarKind::Clock => &self.clock,
            SysvarKind::EpochSchedule => &self.epoch_schedule,
            SysvarKind::EpochRewards => &self.epoch_rewards,
            SysvarKind::Fees => &self.fees,
            SysvarKind::LastRestartSlot => &self.last_restart_slot,
        }
    }
}

/// One entry of the structured invocation log.
#[derive(Clone, Debug)]
pub enum LogEntry {
    /// A program is about to run at the given call depth.
    Invoke { program_id: u64, height: u64 },
    /// A message the program logged.
    Message(String),
    /// A program returned successfully.
    Success { program_id: u64 },
    /// A program failed with the given fault.
    Failure { program_id: u64, fault: InstructionFault },
}

/// The transaction-scoped state one invocation tree works on.
#[derive(Debug)]
pub struct InvocationContext {
    pub accounts: Vec<LedgerAccount>,
    pub frames: Vec<InstructionFrame>,
    pub compute_budget: u64,
    pub return_data_program: u64,
    pub return_data: Vec<u8>,
    pub sysvars: SysvarCache,
    pub log: Vec<LogEntry>,
}

impl InvocationContext {
    /// Every frame's account indices name existing ledger slots.
    pub open spec fn wf(&self) -> bool {
        forall|fi: int, k: int|
            0 <= fi < self.frames@.len() && 0 <= k
                < self.frames@[fi].account_indices@.len() ==> (
            self.frames@[fi].account_indices@[k] as int) < self.accounts@.len()
    }

    /// The current call depth: how many instructions are on the stack.
    pub fn stack_height(&self) -> (r: u64)
        requires
            self.frames@.len() <= u64::MAX,
        ensures
            r == self.frames@.len(),
    {
        self.frames.len() as u64
    }

    /// The instruction currently being processed, or the call-depth fault
    /// when no instruction is on the stack (a stale or absent frame).
    pub fn current_frame(&self) -> (r: Result<&InstructionFrame, InstructionFault>)
        ensures
            r is Ok <==> self.frames@.len() > 0,
            r matches Ok(f) ==> *f == self.frames@.last(),
            r is Err ==> r->Err_0 == InstructionFault::CallDepth,
    {
        if self.frames.len() > 0 {
            Ok(&self.frames[self.frames.len() - 1])
        } else {
            Err(InstructionFault::CallDepth)
        }
    }

    /// Charges `amount` units against the monotonically decreasing budget,
    /// failing without consuming anything when the budget is short.
    pub fn consume_units(&mut self, amount: u64) -> (r: Result<(), InstructionFault>)
        ensures
            r is Ok <==> old(self).compute_budget >= amount,
            r is Ok ==> final(self).compute_budget == old(self).compute_budget - amount,
            r is Err ==> final(self).compute_budget == old(self).compute_budget && r->Err_0
                == InstructionFault::ComputationalBudgetExceeded,
            final(self).accounts == old(self).accounts,
            final(self).frames == old(self).frames,
            final(self).return_data_program == old(self).return_data_program,
            final(self).return_data == old(self).return_data,
            final(self).sysvars == old(self).sysvars,
            final(self).log == old(self).log,
    {
        if self.compute_budget >= amount {
            self.compute_budget = self.compute_budget - amount;
            Ok(())
        } else {
            Err(InstructionFault::ComputationalBudgetExceeded)
        }
    }

    /// Appends one entry to the structured log.
    pub fn push_log(&mut self, entry: LogEntry)
        ensures
            final(self).log@ == old(self).log@.push(entry),
            final(self).accounts == old(self).accounts,
            final(self).frames == old(self).frames,
            final(self).compute_budget == old(self).compute_budget,
            final(self).return_data_program == old(self).return_data_program,
            final(self).return_data == old(self).return_data,
            final(self).sysvars == old(self).sysvars,
    {
        self.log.push(entry);
    }
}

/// The context access point: the single slot holding the currently active
/// invocation context, if any.
#[derive(Debug)]
pub struct ContextSlot {
    pub active: Option<InvocationContext>,
}

impl ContextSlot {
    /// An empty access point: no invocation is active.
    pub fn new() -> (r: ContextSlot)
        ensures
            r.active is None,
    {
        ContextSlot { active: None }
    }

    /// Installs a context as the active one, replacing whatever was there:
    /// a nested invocation overwrites the slot and the natural call/return
    /// nesting of the trampoline restores it.
    pub fn install(&mut self, context: InvocationContext)
        ensures
            final(self).active == Some(context),
    {
        self.active = Some(context);
    }

    /// The active context, or the no-active-context error when used
    /// outside any invocation.
    pub fn current(&self) -> (r: Result<&InvocationContext, crate::errors::InvokeError>)
        ensures
            r is Ok <==> self.active is Some,
            r matches Ok(c) ==> self.active == Some(*c),
            r is Err ==> r->Err_0 == crate::errors::InvokeError::NoActiveContext,
    {
        match &self.active {
            Some(context) => Ok(context),
            None => Err(crate::errors::InvokeError::NoActiveContext),
        }
    }
}

} // verus!
