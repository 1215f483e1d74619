//! The invocation trampoline's decision logic, split at the one point Verus
//! cannot cross: actually running the program function under a recoverable
//! failure boundary.  `begin_invocation` performs every step up to the
//! program call — budget charge, invocation log entry, the deduplicated
//! account index set, flattening and the typed views over the buffer — and
//! `complete_invocation` performs every step after it — outcome
//! translation, result logging and the reconciliation of mutated account
//! state back into the ledger slots.  The host glue runs the program
//! function between the two and reports how it ended as a `ProgramOutcome`.

use vstd::prelude::*;

use crate::account::FlatAccount;
use crate::account::LedgerAccount;
use crate::account::copy_bytes;
use crate::bridge::deserialize_parameters;
use crate::bridge::lemma_serialize_round_trip;
use crate::bridge::serialize_parameters;
use crate::bridge::spec_serialize;
use crate::context::ContextSlot;
use crate::context::InstructionFrame;
use crate::context::InvocationContext;
use crate::context::LogEntry;
use crate::errors::InstructionFault;
use crate::errors::InvokeError;
use crate::errors::ProgramFault;
use crate::errors::dup_fault;
use crate::errors::fault_code;
use crate::errors::fault_from_code;
use crate::errors::spec_fault_code;
use crate::errors::spec_fault_from_code;
use crate::reconcile::dedup_indices;
use crate::reconcile::flat_views;
use crate::reconcile::indices_bounded;
use crate::reconcile::ledger_views;
use crate::reconcile::spec_dedup;
use crate::reconcile::spec_reconcile_seq;
use crate::reconcile::reconcile_accounts;

verus! {

/// How one run of the program function ended: a normal return with success,
/// a normal return with a program-reported fault, or an abrupt abort that
/// the recoverable failure boundary intercepted.
#[derive(Clone, Debug, PartialEq, Eq)]
pub enum ProgramOutcome {
    Success,
    Failure(ProgramFault),
    Abort,
}

/// Everything `begin_invocation` hands to the host glue: the typed views
/// the program function receives, the buffer they were read from, and the
/// deduplicated index set reconciliation will need afterwards.
#[derive(Debug)]
pub struct PreparedInvocation {
    pub program_id: u64,
    pub dedup_order: Vec<usize>,
    pub buffer: Vec<u8>,
    pub flat_accounts: Vec<FlatAccount>,
    pub instruction_data: Vec<u8>,
}

/// Whether every index in `order` names an existing slot.
pub fn indices_within(order: &Vec<usize>, len: usize) -> (r: bool)
    ensures
        r == crate::reconcile::indices_bounded(order@, len as int),
{
    let mut j: usize = 0;
    while j < order.len()
        invariant
            j <= order@.len(),
            forall|k: int| 0 <= k < j ==> (order@[k] as int) < len,
        decreases order@.len() - j,
    {
        if order[j] >= len {
            return false;
        }
        j += 1;
    }
    true
}

/// A copy of an index vector.
pub fn clone_indices(v: &Vec<usize>) -> (r: Vec<usize>)
    ensures
        r@ == v@,
{
    let mut out: Vec<usize> = Vec::new();
    let n: usize = v.len();
    let mut i: usize = 0;
    while i < n
        invariant
            n == v@.len(),
            i <= n,
            out@ == v@.take(i as int),
        decreases n - i,
    {
        out.push(v[i]);
        proof {
            assert(out@ =~= v@.take(i + 1 as int));
        }
        i += 1;
    }
    proof {
        assert(v@.take(n as int) =~= v@);
    }
    out
}

/// Copies the ledger slots named by `order` into plain flat records, in
/// order: the account-copy step of the parameter bridge.
pub fn flatten_accounts(accounts: &Vec<LedgerAccount>, order: &Vec<usize>) -> (r: Vec<FlatAccount>)
    requires
        forall|k: int| 0 <= k < order@.len() ==> (order@[k] as int) < accounts@.len(),
    ensures
        r@.len() == order@.len(),
        forall|k: int|
            0 <= k < order@.len() ==> #[trigger] r@[k]@ == accounts@[order@[k] as int]@.state,
        forall|k: int| 0 <= k < order@.len() ==> #[trigger] r@[k]@.data.len() <= u64::MAX,
{
    let mut out: Vec<FlatAccount> = Vec::new();
    let n: usize = order.len();
    let mut i: usize = 0;
    while i < n
        invariant
            n == order@.len(),
            i <= n,
            forall|k: int| 0 <= k < order@.len() ==> (order@[k] as int) < accounts@.len(),
            out@.len() == i,
            forall|k: int|
                0 <= k < i ==> #[trigger] out@[k]@ == accounts@[order@[k] as int]@.state,
            forall|k: int| 0 <= k < i ==> #[trigger] out@[k]@.data.len() <= u64::MAX,
        decreases n - i,
    {
        let a = &accounts[order[i]];
        let data = copy_bytes(&a.data);
        let dlen: usize = data.len();
        proof {
            assert(dlen as int <= u64::MAX as int);
        }
        out.push(FlatAccount { key: a.key, lamports: a.lamports, owner: a.owner, data });
        i += 1;
    }
    out
}

/// Whether the current frame's account indices all name existing slots.
pub open spec fn frame_indices_ok(c: InvocationContext) -> bool {
    forall|k: int|
        0 <= k < c.frames@.last().account_indices@.len() ==> (
        c.frames@.last().account_indices@[k] as int) < c.accounts@.len()
}

/// Performs one invocation's steps up to the program call: resolves the
/// active context and its current instruction, charges the fixed one-unit
/// call cost, emits the invocation log entry, computes the deduplicated
/// account index set, flattens the referenced slots into the parameter
/// buffer and reconstructs the typed views the program function receives.
/// The views handed out are exactly the flattened pre-call ledger state:
/// the serialize/deserialize round trip is proved, not assumed.
pub fn begin_invocation(slot: &mut ContextSlot) -> (r: Result<PreparedInvocation, InvokeError>)
    ensures
        old(slot).active is None ==> r == Err::<PreparedInvocation, InvokeError>(
            InvokeError::NoActiveContext,
        ) && *final(slot) == *old(slot),
        (old(slot).active matches Some(c) ==> (c.frames@.len() == 0 ==> r == Err::<
            PreparedInvocation,
            InvokeError,
        >(InvokeError::Fault(InstructionFault::CallDepth)) && *final(slot) == *old(slot))),
        (old(slot).active matches Some(c) ==> (c.frames@.len() > 0 && c.compute_budget == 0 ==> r
            == Err::<PreparedInvocation, InvokeError>(
            InvokeError::Fault(InstructionFault::ComputationalBudgetExceeded),
        ) && *final(slot) == *old(slot))),
        (old(slot).active matches Some(c) ==> (c.frames@.len() > 0 && c.compute_budget > 0 ==> (
        final(slot).active matches Some(d) && d.accounts == c.accounts && d.frames == c.frames
            && d.compute_budget == c.compute_budget - 1 && d.return_data_program
            == c.return_data_program && d.return_data == c.return_data && d.sysvars == c.sysvars
            && d.log@ == c.log@.push(
            LogEntry::Invoke {
                program_id: c.frames@.last().program_id,
                height: c.frames@.len() as u64,
            },
        ) && (r is Ok <==> frame_indices_ok(c)) && (r is Err ==> r->Err_0 == InvokeError::Fault(
            InstructionFault::NotEnoughAccountKeys,
        )) && (r matches Ok(p) ==> p.program_id == c.frames@.last().program_id && p.dedup_order@
            == spec_dedup(c.frames@.last().account_indices@) && p.instruction_data@
            == c.frames@.last().instruction_data@ && p.flat_accounts@.len() == p.dedup_order@.len()
            && (forall|k: int|
            0 <= k < p.dedup_order@.len() ==> #[trigger] p.flat_accounts@[k]@ == c.accounts@[
                p.dedup_order@[k] as int
            ]@.state) && p.buffer@ == spec_serialize(
            p.program_id,
            flat_views(p.flat_accounts@),
            p.instruction_data@,
        ))))),
{
    let context = match &mut slot.active {
        Some(c) => c,
        None => {
            return Err(InvokeError::NoActiveContext);
        },
    };
    let frame = match context.current_frame() {
        Ok(f) => InstructionFrame {
            program_id: f.program_id,
            account_indices: clone_indices(&f.account_indices),
            instruction_data: copy_bytes(&f.instruction_data),
        },
        Err(e) => {
            return Err(InvokeError::Fault(e));
        },
    };
    if let Err(e) = context.consume_units(1) {
        return Err(InvokeError::Fault(e));
    }
    let frame_count: usize = context.frames.len();
    proof {
        assert(frame_count as int <= u64::MAX as int);
    }
    let height = context.stack_height();
    context.push_log(LogEntry::Invoke { program_id: frame.program_id, height });
    if !indices_within(&frame.account_indices, context.accounts.len()) {
        return Err(InvokeError::Fault(InstructionFault::NotEnoughAccountKeys));
    }
    let order = dedup_indices(&frame.account_indices);
    proof {
        crate::reconcile::lemma_dedup_bounded(
            frame.account_indices@,
            context.accounts@.len() as int,
        );
    }
    let flats = flatten_accounts(&context.accounts, &order);
    let buffer = serialize_parameters(frame.program_id, &flats, &frame.instruction_data);
    let flat_count: usize = flats.len();
    let data_len: usize = frame.instruction_data.len();
    proof {
        assert(flat_count as int <= u64::MAX as int);
        assert(data_len as int <= u64::MAX as int);
        assert(flat_views(flats@).len() == flats@.len());
        assert forall|k: int|
            0 <= k < flat_views(flats@).len() implies #[trigger] flat_views(flats@)[k].data.len()
            <= u64::MAX by {
            assert(flat_views(flats@)[k] == flats@[k]@);
            assert(flats@[k]@.data.len() <= u64::MAX);
        }
        lemma_serialize_round_trip(
            frame.program_id,
            flat_views(flats@),
            frame.instruction_data@,
        );
    }
    let parsed = match deserialize_parameters(&buffer) {
        Ok(t) => t,
        Err(_) => {
            proof {
                assert(false);
            }
            return Err(InvokeError::Deserialization);
        },
    };
    proof {
        assert forall|k: int|
            0 <= k < order@.len() implies #[trigger] parsed.1@[k]@ == context.accounts@[
            order@[k] as int
        ]@.state by {
            assert(flat_views(parsed.1@)[k] == parsed.1@[k]@);
            assert(flat_views(flats@)[k] == flats@[k]@);
        }
    }
    Ok(
        PreparedInvocation {
            program_id: parsed.0,
            dedup_order: order,
            buffer,
            flat_accounts: parsed.1,
            instruction_data: parsed.2,
        },
    )
}

/// Performs one invocation's steps after the program call.  An abrupt abort
/// becomes the failed-to-complete fault; a program-reported fault is
/// translated through the numeric taxonomy; both are logged and commit
/// nothing.  On success the current instruction is re-resolved (it may
/// have been replaced by nested calls) and every writable slot in the
/// deduplicated index set is reconciled against the flat views the program
/// left behind, in order, stopping at the first fault with earlier slots
/// staying committed; only then is the success entry — or the failure
/// entry carrying the fault that stopped the pass — appended to the log.
pub fn complete_invocation(
    slot: &mut ContextSlot,
    prep: &PreparedInvocation,
    flats: &Vec<FlatAccount>,
    outcome: ProgramOutcome,
) -> (r: Result<(), InvokeError>)
    ensures
        old(slot).active is None ==> r == Err::<(), InvokeError>(InvokeError::NoActiveContext)
            && *final(slot) == *old(slot),
        (old(slot).active matches Some(c) ==> (outcome == ProgramOutcome::Abort ==> r == Err::<
            (),
            InvokeError,
        >(InvokeError::Fault(InstructionFault::ProgramFailedToComplete)) && (final(slot).active
            matches Some(d) && d.accounts == c.accounts && d.frames == c.frames
            && d.compute_budget == c.compute_budget && d.return_data_program
            == c.return_data_program && d.return_data == c.return_data && d.sysvars == c.sysvars
            && d.log@ == c.log@.push(
            LogEntry::Failure {
                program_id: prep.program_id,
                fault: InstructionFault::ProgramFailedToComplete,
            },
        )))),
        (old(slot).active matches Some(c) ==> (outcome matches ProgramOutcome::Failure(pf) ==> (r
            matches Err(err) && err matches InvokeError::Fault(e) && (!(pf matches
        ProgramFault::BorshIoError(_)) ==> e == spec_fault_from_code(spec_fault_code(pf))) && (
        final(slot).active matches Some(d) && d.accounts == c.accounts && d.frames == c.frames
            && d.compute_budget == c.compute_budget && d.return_data_program
            == c.return_data_program && d.return_data == c.return_data && d.sysvars == c.sysvars
            && d.log@ == c.log@.push(
            LogEntry::Failure { program_id: prep.program_id, fault: e },
        ))))),
        (old(slot).active matches Some(c) ==> (outcome == ProgramOutcome::Success
            && c.frames@.len() == 0 ==> r == Err::<(), InvokeError>(
            InvokeError::Fault(InstructionFault::CallDepth),
        ) && (final(slot).active matches Some(d) && d.accounts == c.accounts && d.frames
            == c.frames && d.log@ == c.log@.push(
            LogEntry::Failure { program_id: prep.program_id, fault: InstructionFault::CallDepth },
        )))),
        (old(slot).active matches Some(c) ==> (outcome == ProgramOutcome::Success
            && c.frames@.len() > 0 && !indices_bounded(
            prep.dedup_order@,
            c.accounts@.len() as int,
        ) ==> r == Err::<(), InvokeError>(InvokeError::Fault(
            InstructionFault::NotEnoughAccountKeys,
        )) && (final(slot).active matches Some(d) && d.accounts == c.accounts && d.frames
            == c.frames && d.log@ == c.log@.push(
            LogEntry::Failure {
                program_id: prep.program_id,
                fault: InstructionFault::NotEnoughAccountKeys,
            },
        )))),
        (old(slot).active matches Some(c) ==> (outcome == ProgramOutcome::Success
            && c.frames@.len() > 0 && indices_bounded(prep.dedup_order@, c.accounts@.len() as int)
            ==> (final(slot).active matches Some(d) && d.frames == c.frames && d.compute_budget
            == c.compute_budget && d.return_data_program == c.return_data_program
            && d.return_data == c.return_data && d.sysvars == c.sysvars && ({
            let pass = spec_reconcile_seq(
                ledger_views(c.accounts@),
                prep.dedup_order@,
                flat_views(flats@),
            );
            &&& ledger_views(d.accounts@) == pass.0
            &&& (pass.1 is None ==> r is Ok && d.log@ == c.log@.push(
                LogEntry::Success { program_id: prep.program_id },
            ))
            &&& (pass.1 matches Some(e) ==> r == Err::<(), InvokeError>(InvokeError::Fault(e))
                && d.log@ == c.log@.push(
                LogEntry::Failure { program_id: prep.program_id, fault: e },
            ))
        })))),
{
    let context = match &mut slot.active {
        Some(c) => c,
        None => {
            return Err(InvokeError::NoActiveContext);
        },
    };
    match outcome {
        ProgramOutcome::Abort => {
            context.push_log(
                LogEntry::Failure {
                    program_id: prep.program_id,
                    fault: InstructionFault::ProgramFailedToComplete,
                },
            );
            Err(InvokeError::Fault(InstructionFault::ProgramFailedToComplete))
        },
        ProgramOutcome::Failure(pf) => {
            let fault = fault_from_code(fault_code(&pf));
            let logged = dup_fault(&fault);
            context.push_log(LogEntry::Failure { program_id: prep.program_id, fault: logged });
            Err(InvokeError::Fault(fault))
        },
        ProgramOutcome::Success => {
            if context.current_frame().is_err() {
                context.push_log(
                    LogEntry::Failure {
                        program_id: prep.program_id,
                        fault: InstructionFault::CallDepth,
                    },
                );
                return Err(InvokeError::Fault(InstructionFault::CallDepth));
            }
            if !indices_within(&prep.dedup_order, context.accounts.len()) {
                context.push_log(
                    LogEntry::Failure {
                        program_id: prep.program_id,
                        fault: InstructionFault::NotEnoughAccountKeys,
                    },
                );
                return Err(InvokeError::Fault(InstructionFault::NotEnoughAccountKeys));
            }
            match reconcile_accounts(&mut context.accounts, &prep.dedup_order, flats) {
                Ok(()) => {
                    context.push_log(LogEntry::Success { program_id: prep.program_id });
                    Ok(())
                },
                Err(e) => {
                    let logged = dup_fault(&e);
                    context.push_log(
                        LogEntry::Failure { program_id: prep.program_id, fault: logged },
                    );
                    Err(InvokeError::Fault(e))
                },
            }
        },
    }
}

} // verus!
