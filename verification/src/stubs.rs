//! The capability table: every operation a program can invoke while it runs,
//! implemented over the context access point exactly as the virtual machine
//! would expose it.  Each operation re-resolves the active context through
//! the slot; use without an active invocation fails with the
//! no-active-context error.

use vstd::prelude::*;

use crate::account::copy_bytes;
use crate::context::ContextSlot;
use crate::context::LogEntry;
use crate::context::SysvarKind;
use crate::errors::CODE_UNSUPPORTED_SYSVAR;
use crate::errors::InstructionFault;
use crate::errors::InvokeError;

verus! {

/// Status a capability returns when the requested work was done.
pub const SUCCESS: u64 = 0;

/// Copies a cached system-variable value into `out` when the cache holds
/// one, reporting the unsupported-sysvar status instead of a fault when it
/// does not.
pub fn get_sysvar(sysvar: &Option<Vec<u8>>, out: &mut Vec<u8>) -> (status: u64)
    ensures
        sysvar matches Some(v) ==> status == SUCCESS && final(out)@ == v@,
        sysvar is None ==> status == CODE_UNSUPPORTED_SYSVAR && final(out)@ == old(out)@,
{
    match sysvar {
        Some(value) => {
            let copied = copy_bytes(value);
            *out = copied;
            SUCCESS
        },
        None => CODE_UNSUPPORTED_SYSVAR,
    }
}

/// The capability-table implementation handed to the program function in
/// place of the real virtual-machine syscalls.
pub struct TridentSyscallStubs;

impl TridentSyscallStubs {
    /// Forwards a program log message to the active context's log.
    pub fn sol_log(&self, slot: &mut ContextSlot, message: String) -> (r: Result<(), InvokeError>)
        ensures
            r is Ok <==> old(slot).active is Some,
            r is Err ==> r->Err_0 == InvokeError::NoActiveContext && *final(slot) == *old(slot),
            (old(slot).active matches Some(c) ==> final(slot).active matches Some(d) && d.log@
                == c.log@.push(LogEntry::Message(message)) && d.accounts == c.accounts && d.frames
                == c.frames && d.compute_budget == c.compute_budget && d.return_data_program
                == c.return_data_program && d.return_data == c.return_data && d.sysvars
                == c.sysvars),
    {
        match &mut slot.active {
            Some(context) => {
                context.push_log(LogEntry::Message(message));
                Ok(())
            },
            None => Err(InvokeError::NoActiveContext),
        }
    }

    /// Reads one cached system variable of the active context into `out`,
    /// with the unsupported-sysvar status when the cache has none.
    pub fn sol_get_sysvar(&self, slot: &ContextSlot, kind: SysvarKind, out: &mut Vec<u8>) -> (r:
        Result<u64, InvokeError>)
        ensures
            r is Ok <==> slot.active is Some,
            r is Err ==> r->Err_0 == InvokeError::NoActiveContext && final(out)@ == old(out)@,
            (slot.active matches Some(c) ==> match crate::context::spec_sysvar(c.sysvars, kind) {
                Some(v) => r == Ok::<u64, InvokeError>(SUCCESS) && final(out)@ == v,
                None => r == Ok::<u64, InvokeError>(CODE_UNSUPPORTED_SYSVAR) && final(out)@ == old(
                    out,
                )@,
            }),
    {
        match &slot.active {
            Some(context) => Ok(get_sysvar(context.sysvars.lookup(kind), out)),
            None => Err(InvokeError::NoActiveContext),
        }
    }

    /// Reads the rent system variable.
    pub fn sol_get_rent_sysvar(&self, slot: &ContextSlot, out: &mut Vec<u8>) -> (r: Result<
        u64,
        InvokeError,
    >)
        ensures
            r is Ok <==> slot.active is Some,
            r is Err ==> r->Err_0 == InvokeError::NoActiveContext && final(out)@ == old(out)@,
            (slot.active matches Some(c) ==> match crate::context::spec_sysvar(
                c.sysvars,
                SysvarKind::Rent,
            ) {
                Some(v) => r == Ok::<u64, InvokeError>(SUCCESS) && final(out)@ == v,
                None => r == Ok::<u64, InvokeError>(CODE_UNSUPPORTED_SYSVAR) && final(out)@ == old(
                    out,
                )@,
            }),
    {
        self.sol_get_sysvar(slot, SysvarKind::Rent, out)
    }

    /// Reads the clock system variable.
    pub fn sol_get_clock_sysvar(&self, slot: &ContextSlot, out: &mut Vec<u8>) -> (r: Result<
        u64,
        InvokeError,
    >)
        ensures
            r is Ok <==> slot.active is Some,
            r is Err ==> r->Err_0 == InvokeError::NoActiveContext && final(out)@ == old(out)@,
            (slot.active matches Some(c) ==> match crate::context::spec_sysvar(
                c.sysvars,
                SysvarKind::Clock,
            ) {
                Some(v) => r == Ok::<u64, InvokeError>(SUCCESS) && final(out)@ == v,
                None => r == Ok::<u64, InvokeError>(CODE_UNSUPPORTED_SYSVAR) && final(out)@ == old(
                    out,
                )@,
            }),
    {
        self.sol_get_sysvar(slot, SysvarKind::Clock, out)
    }

    /// Reads the epoch-schedule system variable.
    pub fn sol_get_epoch_schedule_sysvar(&self, slot: &ContextSlot, out: &mut Vec<u8>) -> (r:
        Result<u64, InvokeError>)
        ensures
            r is Ok <==> slot.active is Some,
            r is Err ==> r->Err_0 == InvokeError::NoActiveContext && final(out)@ == old(out)@,
            (slot.active matches Some(c) ==> match crate::context::spec_sysvar(
                c.sysvars,
                SysvarKind::EpochSchedule,
            ) {
                Some(v) => r == Ok::<u64, InvokeError>(SUCCESS) && final(out)@ == v,
                None => r == Ok::<u64, InvokeError>(CODE_UNSUPPORTED_SYSVAR) && final(out)@ == old(
                    out,
                )@,
            }),
    {
        self.sol_get_sysvar(slot, SysvarKind::EpochSchedule, out)
    }

    /// Reads the epoch-rewards system variable.
    pub fn sol_get_epoch_rewards_sysvar(&self, slot: &ContextSlot, out: &mut Vec<u8>) -> (r:
        Result<u64, InvokeError>)
        ensures
            r is Ok <==> slot.active is Some,
            r is Err ==> r->Err_0 == InvokeError::NoActiveContext && final(out)@ == old(out)@,
            (slot.active matches Some(c) ==> match crate::context::spec_sysvar(
                c.sysvars,
                SysvarKind::EpochRewards,
            ) {
                Some(v) => r == Ok::<u64, InvokeError>(SUCCESS) && final(out)@ == v,
                None => r == Ok::<u64, InvokeError>(CODE_UNSUPPORTED_SYSVAR) && final(out)@ == old(
                    out,
                )@,
            }),
    {
        self.sol_get_sysvar(slot, SysvarKind::EpochRewards, out)
    }

    /// Reads the fees system variable.
    pub fn sol_get_fees_sysvar(&self, slot: &ContextSlot, out: &mut Vec<u8>) -> (r: Result<
        u64,
        InvokeError,
    >)
        ensures
            r is Ok <==> slot.active is Some,
            r is Err ==> r->Err_0 == InvokeError::NoActiveContext && final(out)@ == old(out)@,
            (slot.active matches Some(c) ==> match crate::context::spec_sysvar(
                c.sysvars,
                SysvarKind::Fees,
            ) {
                Some(v) => r == Ok::<u64, InvokeError>(SUCCESS) && final(out)@ == v,
                None => r == Ok::<u64, InvokeError>(CODE_UNSUPPORTED_SYSVAR) && final(out)@ == old(
                    out,
                )@,
            }),
    {
        self.sol_get_sysvar(slot, SysvarKind::Fees, out)
    }

    /// Reads the last-restart-slot system variable.
    pub fn sol_get_last_restart_slot(&self, slot: &ContextSlot, out: &mut Vec<u8>) -> (r: Result<
        u64,
        InvokeError,
    >)
        ensures
            r is Ok <==> slot.active is Some,
            r is Err ==> r->Err_0 == InvokeError::NoActiveContext && final(out)@ == old(out)@,
            (slot.active matches Some(c) ==> match crate::context::spec_sysvar(
                c.sysvars,
                SysvarKind::LastRestartSlot,
            ) {
                Some(v) => r == Ok::<u64, InvokeError>(SUCCESS) && final(out)@ == v,
                None => r == Ok::<u64, InvokeError>(CODE_UNSUPPORTED_SYSVAR) && final(out)@ == old(
                    out,
                )@,
            }),
    {
        self.sol_get_sysvar(slot, SysvarKind::LastRestartSlot, out)
    }

    /// Reads the transaction's return-data slot: the last writer's program
    /// id and a copy of the bytes it wrote.
    pub fn sol_get_return_data(&self, slot: &ContextSlot) -> (r: Result<(u64, Vec<u8>), InvokeError>)
        ensures
            r is Ok <==> slot.active is Some,
            r is Err ==> r->Err_0 == InvokeError::NoActiveContext,
            (slot.active matches Some(c) ==> r matches Ok(p) && p.0 == c.return_data_program
                && p.1@ == c.return_data@),
    {
        match &slot.active {
            Some(context) => Ok(
                (context.return_data_program, copy_bytes(&context.return_data)),
            ),
            None => Err(InvokeError::NoActiveContext),
        }
    }

    /// Writes the transaction's return-data slot (last writer wins), keyed
    /// by the program id of the instruction currently running.
    pub fn sol_set_return_data(&self, slot: &mut ContextSlot, data: &Vec<u8>) -> (r: Result<
        (),
        InvokeError,
    >)
        ensures
            r is Ok <==> (old(slot).active matches Some(c) ==> c.frames@.len() > 0) && old(
                slot,
            ).active is Some,
            old(slot).active is None ==> r == Err::<(), InvokeError>(InvokeError::NoActiveContext)
                && *final(slot) == *old(slot),
            (old(slot).active matches Some(c) ==> (c.frames@.len() == 0 ==> r == Err::<
                (),
                InvokeError,
            >(InvokeError::Fault(InstructionFault::CallDepth)) && *final(slot) == *old(slot))),
            (old(slot).active matches Some(c) ==> (c.frames@.len() > 0 ==> (final(slot).active
                matches Some(d)
                && d.return_data_program == c.frames@.last().program_id
                && d.return_data@ == data@ && d.accounts == c.accounts && d.frames == c.frames
                && d.compute_budget == c.compute_budget && d.sysvars == c.sysvars && d.log
                == c.log))),
    {
        match &mut slot.active {
            Some(context) => {
                let caller = match context.current_frame() {
                    Ok(frame) => frame.program_id,
                    Err(e) => {
                        return Err(InvokeError::Fault(e));
                    },
                };
                context.return_data_program = caller;
                context.return_data = copy_bytes(data);
                Ok(())
            },
            None => Err(InvokeError::NoActiveContext),
        }
    }

    /// The current call depth of the active context.
    pub fn sol_get_stack_height(&self, slot: &ContextSlot) -> (r: Result<u64, InvokeError>)
        requires
            (slot.active matches Some(c) ==> c.frames@.len() <= u64::MAX),
        ensures
            r is Ok <==> slot.active is Some,
            r is Err ==> r->Err_0 == InvokeError::NoActiveContext,
            (slot.active matches Some(c) ==> r == Ok::<u64, InvokeError>(c.frames@.len() as u64)),
    {
        match &slot.active {
            Some(context) => Ok(context.stack_height()),
            None => Err(InvokeError::NoActiveContext),
        }
    }
}

} // verus!
