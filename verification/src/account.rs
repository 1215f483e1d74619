//! The two representations of one account and the reconciliation of a single
//! account between them.
//!
//! The ledger-side representation is mutation-guarded (writability, ownership,
//! data-resize permission); the flat-side representation is a plain record
//! with no enforcement.  Reconciliation copies lamports, then data, then
//! owner — in that fixed order, because the permission checks depend on the
//! owner not yet having changed while data mutation rights are validated.  A
//! disallowed mutation is ignored exactly when both sides already agree
//! (the no-op case); otherwise it surfaces the guard's fault.

use vstd::prelude::*;

use crate::errors::InstructionFault;

verus! {

/// The observable state of one account: the fields both representations
/// must agree on after reconciliation.
pub ghost struct AccountView {
    pub key: u64,
    pub lamports: u64,
    pub owner: u64,
    pub data: Seq<u8>,
}

/// The flat-buffer-side account record handed to the program function:
/// directly mutable, with no enforcement.
#[derive(Clone, Debug, PartialEq, Eq)]
pub struct FlatAccount {
    pub key: u64,
    pub lamports: u64,
    pub owner: u64,
    pub data: Vec<u8>,
}

impl View for FlatAccount {
    type V = AccountView;

    open spec fn view(&self) -> AccountView {
        AccountView {
            key: self.key,
            lamports: self.lamports,
            owner: self.owner,
            data: self.data@,
        }
    }
}

/// The ledger-side account slot: the observable state plus the guards the
/// runtime enforces on every mutation.
pub ghost struct LedgerView {
    pub state: AccountView,
    pub is_signer: bool,
    pub is_writable: bool,
    pub is_executable: bool,
    pub data_limit: nat,
}

/// A ledger-side account slot.  `data_limit` is the resize permission: the
/// largest data length this slot may be resized to during one invocation.
#[derive(Clone, Debug, PartialEq, Eq)]
pub struct LedgerAccount {
    pub key: u64,
    pub lamports: u64,
    pub owner: u64,
    pub data: Vec<u8>,
    pub is_signer: bool,
    pub is_writable: bool,
    pub is_executable: bool,
    pub data_limit: usize,
}

impl View for LedgerAccount {
    type V = LedgerView;

    open spec fn view(&self) -> LedgerView {
        LedgerView {
            state: AccountView {
                key: self.key,
                lamports: self.lamports,
                owner: self.owner,
                data: self.data@,
            },
            is_signer: self.is_signer,
            is_writable: self.is_writable,
            is_executable: self.is_executable,
            data_limit: self.data_limit as nat,
        }
    }
}

/// The guard on resizing a slot's data to `new_len`.
pub open spec fn spec_resize_guard(a: LedgerView, new_len: nat) -> Option<InstructionFault> {
    if new_len == a.state.data.len() {
        None
    } else if a.is_executable {
        Some(InstructionFault::ExecutableDataModified)
    } else if new_len > a.data_limit {
        Some(InstructionFault::InvalidRealloc)
    } else {
        None
    }
}

/// The guard on changing a slot's data bytes at all.
pub open spec fn spec_change_guard(a: LedgerView) -> Option<InstructionFault> {
    if a.is_executable {
        Some(InstructionFault::ExecutableDataModified)
    } else if !a.is_writable {
        Some(InstructionFault::ReadonlyDataModified)
    } else {
        None
    }
}

/// Lamports copy: first step of reconciling one account.
pub open spec fn spec_lamports_step(l: LedgerView, f: AccountView) -> (LedgerView, Option<
    InstructionFault,
>) {
    if l.state.lamports == f.lamports {
        (l, None)
    } else if !l.is_writable {
        (l, Some(InstructionFault::ReadonlyLamportChange))
    } else if l.is_executable {
        (l, Some(InstructionFault::ExecutableLamportChange))
    } else {
        (LedgerView { state: AccountView { lamports: f.lamports, ..l.state }, ..l }, None)
    }
}

/// Data copy: second step.  A guarded copy of data that both sides already
/// agree on is a no-op instead of a fault.
pub open spec fn spec_data_step(l: LedgerView, f: AccountView) -> (LedgerView, Option<
    InstructionFault,
>) {
    let guard = if spec_resize_guard(l, f.data.len()) is Some {
        spec_resize_guard(l, f.data.len())
    } else {
        spec_change_guard(l)
    };
    if guard is None {
        (LedgerView { state: AccountView { data: f.data, ..l.state }, ..l }, None)
    } else if l.state.data == f.data {
        (l, None)
    } else {
        (l, guard)
    }
}

/// Owner copy: last step, after lamports and data, so that the permission
/// checks above ran against the owner the instruction started with.
pub open spec fn spec_owner_step(l: LedgerView, f: AccountView) -> (LedgerView, Option<
    InstructionFault,
>) {
    if l.state.owner == f.owner {
        (l, None)
    } else if !l.is_writable {
        (l, Some(InstructionFault::ModifiedProgramId))
    } else if l.is_executable {
        (l, Some(InstructionFault::ExecutableModified))
    } else {
        (LedgerView { state: AccountView { owner: f.owner, ..l.state }, ..l }, None)
    }
}

/// Reconciling one ledger slot against one flat record: lamports, then data,
/// then owner, stopping at the first fault.  The returned slot is the state
/// the slot is left in even when a fault stops the copy part way (there is
/// no rollback of fields already copied).
pub open spec fn spec_reconcile_account(l: LedgerView, f: AccountView) -> (LedgerView, Option<
    InstructionFault,
>) {
    let (l1, e1) = spec_lamports_step(l, f);
    if e1 is Some {
        (l1, e1)
    } else {
        let (l2, e2) = spec_data_step(l1, f);
        if e2 is Some {
            (l2, e2)
        } else {
            spec_owner_step(l2, f)
        }
    }
}

/// Reconciliation never touches a slot's key or its guards.
pub proof fn lemma_reconcile_account_frame(l: LedgerView, f: AccountView)
    ensures
        spec_reconcile_account(l, f).0.state.key == l.state.key,
        spec_reconcile_account(l, f).0.is_signer == l.is_signer,
        spec_reconcile_account(l, f).0.is_writable == l.is_writable,
        spec_reconcile_account(l, f).0.is_executable == l.is_executable,
        spec_reconcile_account(l, f).0.data_limit == l.data_limit,
{
}

/// After a reconciliation that reports no fault, the ledger slot holds
/// exactly the lamports, data and owner of the flat record.
pub proof fn lemma_reconcile_account_success(l: LedgerView, f: AccountView)
    requires
        spec_reconcile_account(l, f).1 is None,
    ensures
        spec_reconcile_account(l, f).0.state.lamports == f.lamports,
        spec_reconcile_account(l, f).0.state.data == f.data,
        spec_reconcile_account(l, f).0.state.owner == f.owner,
{
}

/// A non-writable slot is never changed by reconciliation, whatever the flat
/// side holds: a disagreeing mutation is a fault and an agreeing one a no-op,
/// and both leave the slot as it was.
pub proof fn lemma_reconcile_account_readonly(l: LedgerView, f: AccountView)
    requires
        !l.is_writable,
    ensures
        spec_reconcile_account(l, f).0 == l,
{
}

/// Reconciling a slot a second time against the same flat record neither
/// changes the slot again nor reports a fault: duplicate references to one
/// account are harmless once the first reconciliation succeeded.
pub proof fn lemma_reconcile_account_idempotent(l: LedgerView, f: AccountView)
    requires
        spec_reconcile_account(l, f).1 is None,
    ensures
        spec_reconcile_account(spec_reconcile_account(l, f).0, f) == (
            spec_reconcile_account(l, f).0,
            None::<InstructionFault>,
        ),
{
}

/// Byte-for-byte equality of two byte vectors.
pub fn bytes_equal(a: &Vec<u8>, b: &Vec<u8>) -> (r: bool)
    ensures
        r == (a@ == b@),
{
    if a.len() != b.len() {
        assert(a@ != b@) by {
            assert(a@.len() != b@.len());
        }
        return false;
    }
    let n: usize = a.len();
    let mut i: usize = 0;
    while i < n
        invariant
            n == a.len() == b.len(),
            i <= n,
            forall|j: int| 0 <= j < i ==> a@[j] == b@[j],
        decreases n - i,
    {
        if a[i] != b[i] {
            return false;
        }
        i += 1;
    }
    proof {
        assert(a@ =~= b@);
    }
    true
}

/// A copy of a byte vector.
pub fn copy_bytes(src: &Vec<u8>) -> (r: Vec<u8>)
    ensures
        r@ == src@,
{
    let mut out: Vec<u8> = Vec::new();
    let n: usize = src.len();
    let mut i: usize = 0;
    while i < n
        invariant
            n == src.len(),
            i <= n,
            out@ == src@.take(i as int),
        decreases n - i,
    {
        out.push(src[i]);
        proof {
            assert(out@ =~= src@.take(i + 1 as int));
        }
        i += 1;
    }
    proof {
        assert(src@.take(n as int) =~= src@);
    }
    out
}

impl LedgerAccount {
    /// Whether this slot's data may be resized to `new_len`, and the fault
    /// when it may not.
    pub fn can_data_be_resized(&self, new_len: usize) -> (r: Result<(), InstructionFault>)
        ensures
            r is Ok <==> spec_resize_guard(self@, new_len as nat) is None,
            r is Err ==> Some(r->Err_0) == spec_resize_guard(self@, new_len as nat),
    {
        if new_len == self.data.len() {
            Ok(())
        } else if self.is_executable {
            Err(InstructionFault::ExecutableDataModified)
        } else if new_len > self.data_limit {
            Err(InstructionFault::InvalidRealloc)
        } else {
            Ok(())
        }
    }

    /// Whether this slot's data bytes may be changed at all, and the fault
    /// when they may not.
    pub fn can_data_be_changed(&self) -> (r: Result<(), InstructionFault>)
        ensures
            r is Ok <==> spec_change_guard(self@) is None,
            r is Err ==> Some(r->Err_0) == spec_change_guard(self@),
    {
        if self.is_executable {
            Err(InstructionFault::ExecutableDataModified)
        } else if !self.is_writable {
            Err(InstructionFault::ReadonlyDataModified)
        } else {
            Ok(())
        }
    }
}

/// Reconciles one ledger slot against one flat record: copies lamports, then
/// data, then owner, each under the slot's guards, stopping at the first
/// fault and leaving fields already copied in place.
pub fn reconcile_account(l: &mut LedgerAccount, f: &FlatAccount) -> (r: Result<
    (),
    InstructionFault,
>)
    ensures
        final(l)@ == spec_reconcile_account(old(l)@, f@).0,
        r is Ok <==> spec_reconcile_account(old(l)@, f@).1 is None,
        r is Err ==> Some(r->Err_0) == spec_reconcile_account(old(l)@, f@).1,
{
    if l.lamports != f.lamports {
        if !l.is_writable {
            return Err(InstructionFault::ReadonlyLamportChange);
        }
        if l.is_executable {
            return Err(InstructionFault::ExecutableLamportChange);
        }
        l.lamports = f.lamports;
    }
    let data_guard = match l.can_data_be_resized(f.data.len()) {
        Ok(()) => l.can_data_be_changed(),
        Err(e) => Err(e),
    };
    match data_guard {
        Ok(()) => {
            l.data = copy_bytes(&f.data);
        },
        Err(e) => {
            if !bytes_equal(&l.data, &f.data) {
                return Err(e);
            }
        },
    }
    if l.owner != f.owner {
        if !l.is_writable {
            return Err(InstructionFault::ModifiedProgramId);
        }
        if l.is_executable {
            return Err(InstructionFault::ExecutableModified);
        }
        l.owner = f.owner;
    }
    Ok(())
}

} // verus!
