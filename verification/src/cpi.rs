//! Cross-program invocation: one program synchronously invoking another
//! within the same transaction, subject to signer-authority checks.
//!
//! The nested call itself re-enters the trampoline, which only the host
//! glue can drive, so the operation is split around it:
//! `sol_invoke_signed_prepare` derives the signer authorities, resolves the
//! target instruction against the ledger slots, copies the caller's latest
//! flat-side state forward into the slots the callee will see (same
//! ordering and permission rules as post-call reconciliation, but
//! pre-call), and pushes the callee's instruction frame;
//! `sol_invoke_signed_finish` pops that frame, translates the nested
//! result, and copies the ledger-side post-call state back into the
//! caller's flat views.

use vstd::prelude::*;

use crate::account::AccountView;
use crate::account::FlatAccount;
use crate::account::LedgerAccount;
use crate::account::LedgerView;
use crate::account::copy_bytes;
use crate::account::reconcile_account;
use crate::account::spec_reconcile_account;
use crate::context::ContextSlot;
use crate::context::InvocationContext;
use crate::context::InstructionFrame;
use crate::context::LogEntry;
use crate::errors::InstructionFault;
use crate::errors::ProgramFault;
use crate::errors::convert_error;
use crate::errors::spec_convert_error;
use crate::reconcile::dedup_indices;
use crate::reconcile::flat_views;
use crate::reconcile::ledger_views;
use crate::reconcile::spec_dedup;
use crate::stubs::TridentSyscallStubs;
use crate::trampoline::clone_indices;

verus! {

/// One account a target instruction names, with the privileges it demands.
#[derive(Clone, Copy, Debug, PartialEq, Eq, Structural)]
pub struct AccountMeta {
    pub key: u64,
    pub is_signer: bool,
    pub is_writable: bool,
}

/// A target instruction: the program to run, the accounts it names and its
/// payload.
#[derive(Debug)]
pub struct Instruction {
    pub program_id: u64,
    pub accounts: Vec<AccountMeta>,
    pub data: Vec<u8>,
}

/// How a cross-program invocation fails: a program-facing fault, an
/// internal fault that has no safe program-facing representation and
/// propagates unchanged, or use outside any active invocation.
#[derive(Clone, Debug, PartialEq, Eq)]
pub enum CpiError {
    NoActiveContext,
    Program(ProgramFault),
    Internal(InstructionFault),
}

/// How an internal fault surfaces to the invoking program: through the
/// taxonomy translation, untranslatable faults staying internal.
pub open spec fn spec_cpi_fault(e: InstructionFault) -> CpiError {
    match spec_convert_error(e) {
        Ok(p) => CpiError::Program(p),
        Err(i) => CpiError::Internal(i),
    }
}

/// Translates an internal fault into the CPI result taxonomy.
pub fn cpi_fault(e: InstructionFault) -> (r: CpiError)
    ensures
        r == spec_cpi_fault(e),
{
    match convert_error(e) {
        Ok(p) => CpiError::Program(p),
        Err(i) => CpiError::Internal(i),
    }
}

/// The most seeds one derivation may use.
pub const MAX_SIGNER_SEEDS: usize = 16;

/// The longest single seed a derivation may use.
pub const MAX_SEED_LEN: usize = 32;

/// One mixing step of the authority derivation.
pub open spec fn spec_mix(h: u64, b: u8) -> u64 {
    (h << 1 | h >> 63) ^ (b as u64)
}

/// Folding a byte string into the derivation state.
pub open spec fn spec_fold_bytes(h: u64, s: Seq<u8>) -> u64
    decreases s.len(),
{
    if s.len() == 0 {
        h
    } else {
        spec_fold_bytes(spec_mix(h, s.first()), s.drop_first())
    }
}

/// Folding a seed list into the derivation state, one terminator byte
/// after each seed so that seed boundaries matter.
pub open spec fn spec_fold_seeds(h: u64, seeds: Seq<Seq<u8>>) -> u64
    decreases seeds.len(),
{
    if seeds.len() == 0 {
        h
    } else {
        spec_fold_seeds(spec_mix(spec_fold_bytes(h, seeds.first()), 0xa5), seeds.drop_first())
    }
}

/// The signer authority a seed list derives relative to a caller program.
pub open spec fn spec_derive_authority(caller: u64, seeds: Seq<Seq<u8>>) -> u64 {
    spec_fold_seeds(spec_mix(caller, 0x5a), seeds)
}

/// The views of a seed list.
pub open spec fn seed_views(seeds: Seq<Vec<u8>>) -> Seq<Seq<u8>> {
    seeds.map_values(|s: Vec<u8>| s@)
}

/// Whether a seed list is within the derivation limits.
pub open spec fn seeds_within_limits(seeds: Seq<Seq<u8>>) -> bool {
    seeds.len() <= MAX_SIGNER_SEEDS && forall|k: int|
        0 <= k < seeds.len() ==> #[trigger] seeds[k].len() <= MAX_SEED_LEN
}

/// The authorities a list of seed lists derives for one caller.
pub open spec fn spec_derived_signers(caller: u64, groups: Seq<Vec<Vec<u8>>>) -> Seq<u64> {
    groups.map_values(|g: Vec<Vec<u8>>| spec_derive_authority(caller, seed_views(g@)))
}

/// One mixing step.
fn mix(h: u64, b: u8) -> (r: u64)
    ensures
        r == spec_mix(h, b),
{
    (h << 1u64 | h >> 63u64) ^ (b as u64)
}

/// Derives the signer authority of one seed list relative to the caller's
/// program id, refusing a list over the seed-count or seed-length limit.
pub fn derive_authority(caller: u64, seeds: &Vec<Vec<u8>>) -> (r: Result<u64, InstructionFault>)
    ensures
        r is Ok <==> seeds_within_limits(seed_views(seeds@)),
        r matches Ok(h) ==> h == spec_derive_authority(caller, seed_views(seeds@)),
        r is Err ==> r->Err_0 == InstructionFault::MaxSeedLengthExceeded,
{
    if seeds.len() > MAX_SIGNER_SEEDS {
        return Err(InstructionFault::MaxSeedLengthExceeded);
    }
    let mut h: u64 = mix(caller, 0x5a);
    let ghost h0 = h;
    let n: usize = seeds.len();
    let mut i: usize = 0;
    proof {
        assert(seed_views(seeds@).skip(0) =~= seed_views(seeds@));
    }
    while i < n
        invariant
            n == seeds@.len(),
            i <= n,
            n <= MAX_SIGNER_SEEDS,
            spec_fold_seeds(h0, seed_views(seeds@)) == spec_fold_seeds(
                h,
                seed_views(seeds@).skip(i as int),
            ),
            h0 == spec_mix(caller, 0x5a),
            forall|k: int| 0 <= k < i ==> #[trigger] seed_views(seeds@)[k].len() <= MAX_SEED_LEN,
        decreases n - i,
    {
        let seed = &seeds[i];
        if seed.len() > MAX_SEED_LEN {
            proof {
                assert(seed_views(seeds@)[i as int].len() > MAX_SEED_LEN);
            }
            return Err(InstructionFault::MaxSeedLengthExceeded);
        }
        let ghost hs = h;
        let m: usize = seed.len();
        let mut j: usize = 0;
        proof {
            assert(seed@.skip(0) =~= seed@);
        }
        while j < m
            invariant
                m == seed@.len(),
                j <= m,
                spec_fold_bytes(hs, seed@) == spec_fold_bytes(h, seed@.skip(j as int)),
            decreases m - j,
        {
            proof {
                assert(seed@.skip(j as int).first() == seed@[j as int]);
                assert(seed@.skip(j as int).drop_first() =~= seed@.skip(j + 1 as int));
            }
            h = mix(h, seed[j]);
            j += 1;
        }
        proof {
            assert(seed@.skip(m as int) =~= Seq::<u8>::empty());
            assert(seed_views(seeds@).skip(i as int).first() == seed@);
            assert(seed_views(seeds@).skip(i as int).drop_first() =~= seed_views(seeds@).skip(
                i + 1 as int,
            ));
        }
        h = mix(h, 0xa5);
        i += 1;
    }
    proof {
        assert(seed_views(seeds@).skip(n as int) =~= Seq::<Seq<u8>>::empty());
    }
    Ok(h)
}

/// No two ledger slots share a key: the stable-key assumption every lookup
/// by key rests on.
pub open spec fn unique_keys(accs: Seq<LedgerView>) -> bool {
    forall|i: int, j: int|
        0 <= i < j < accs.len() ==> #[trigger] accs[i].state.key != #[trigger] accs[j].state.key
}

/// Some ledger slot carries this key.
pub open spec fn key_present(accs: Seq<LedgerView>, key: u64) -> bool {
    exists|i: int| 0 <= i < accs.len() && #[trigger] accs[i].state.key == key
}

/// The slot carrying this key, where one is present.
pub open spec fn spec_index_of_key(accs: Seq<LedgerView>, key: u64) -> int {
    choose|i: int| 0 <= i < accs.len() && #[trigger] accs[i].state.key == key
}

/// The slot each named account of an instruction resolves to, under unique
/// keys.
pub open spec fn spec_resolved_indices(accs: Seq<LedgerView>, metas: Seq<AccountMeta>) -> Seq<
    usize,
> {
    metas.map_values(|m: AccountMeta| spec_index_of_key(accs, m.key) as usize)
}

/// A demanded signature is satisfied: the named slot signed the
/// transaction, or a derived authority vouches for it.
pub open spec fn meta_authorized(accs: Seq<LedgerView>, signers: Seq<u64>, m: AccountMeta) -> bool {
    m.is_signer ==> ((exists|i: int|
        0 <= i < accs.len() && #[trigger] accs[i].state.key == m.key && accs[i].is_signer)
        || signers.contains(m.key))
}

/// Finds the ledger slot with this key.
pub fn find_account(accounts: &Vec<LedgerAccount>, key: u64) -> (r: Option<usize>)
    ensures
        r matches Some(i) ==> i < accounts@.len() && accounts@[i as int].key == key,
        r is None ==> !key_present(ledger_views(accounts@), key),
{
    let n: usize = accounts.len();
    let mut i: usize = 0;
    while i < n
        invariant
            n == accounts@.len(),
            i <= n,
            forall|j: int| 0 <= j < i ==> accounts@[j].key != key,
        decreases n - i,
    {
        if accounts[i].key == key {
            return Some(i);
        }
        i += 1;
    }
    proof {
        assert forall|j: int|
            0 <= j < ledger_views(accounts@).len() implies #[trigger] ledger_views(
            accounts@,
        )[j].state.key != key by {
            assert(ledger_views(accounts@)[j] == accounts@[j]@);
        }
    }
    None
}

/// Whether `x` occurs in `v`.
pub fn contains_key(v: &Vec<u64>, x: u64) -> (r: bool)
    ensures
        r == v@.contains(x),
{
    let mut j: usize = 0;
    while j < v.len()
        invariant
            j <= v@.len(),
            forall|k: int| 0 <= k < j ==> v@[k] != x,
        decreases v@.len() - j,
    {
        if v[j] == x {
            return true;
        }
        j += 1;
    }
    false
}

/// Resolves a target instruction against the ledger slots: one slot index
/// per named account, plus the slot holding the target program, verifying
/// that every demanded signature is satisfied by a transaction signer or a
/// derived authority.
pub fn resolve_instruction(
    accounts: &Vec<LedgerAccount>,
    instruction: &Instruction,
    signers: &Vec<u64>,
) -> (r: Result<(Vec<usize>, usize), InstructionFault>)
    requires
        unique_keys(ledger_views(accounts@)),
    ensures
        r is Ok <==> (forall|k: int|
            0 <= k < instruction.accounts@.len() ==> key_present(
                ledger_views(accounts@),
                (#[trigger] instruction.accounts@[k]).key,
            ) && meta_authorized(ledger_views(accounts@), signers@, instruction.accounts@[k]))
            && key_present(ledger_views(accounts@), instruction.program_id),
        r matches Ok(p) ==> ({
            &&& p.0@ == spec_resolved_indices(ledger_views(accounts@), instruction.accounts@)
            &&& p.0@.len() == instruction.accounts@.len()
            &&& forall|k: int|
                0 <= k < p.0@.len() ==> ((#[trigger] p.0@[k]) as int) < accounts@.len()
                    && accounts@[p.0@[k] as int].key == instruction.accounts@[k].key
            &&& (p.1 as int) < accounts@.len()
            &&& accounts@[p.1 as int].key == instruction.program_id
        }),
        r matches Err(e) ==> (e == InstructionFault::MissingAccount || e
            == InstructionFault::MissingRequiredSignature),
        r == Err::<(Vec<usize>, usize), InstructionFault>(InstructionFault::MissingAccount) ==> ((
        exists|k: int|
            0 <= k < instruction.accounts@.len() && !key_present(
                ledger_views(accounts@),
                (#[trigger] instruction.accounts@[k]).key,
            )) || !key_present(ledger_views(accounts@), instruction.program_id)),
        r == Err::<(Vec<usize>, usize), InstructionFault>(
            InstructionFault::MissingRequiredSignature,
        ) ==> exists|k: int|
            0 <= k < instruction.accounts@.len() && !meta_authorized(
                ledger_views(accounts@),
                signers@,
                #[trigger] instruction.accounts@[k],
            ),
{
    let mut indices: Vec<usize> = Vec::new();
    let n: usize = instruction.accounts.len();
    let mut k: usize = 0;
    while k < n
        invariant
            n == instruction.accounts@.len(),
            k <= n,
            unique_keys(ledger_views(accounts@)),
            indices@.len() == k,
            forall|m: int|
                0 <= m < k ==> ((#[trigger] indices@[m]) as int) < accounts@.len() && accounts@[
                    indices@[m] as int
                ].key == instruction.accounts@[m].key,
            forall|m: int|
                0 <= m < k ==> #[trigger] indices@[m] == spec_index_of_key(
                    ledger_views(accounts@),
                    instruction.accounts@[m].key,
                ) as usize,
            forall|m: int|
                0 <= m < k ==> key_present(
                    ledger_views(accounts@),
                    (#[trigger] instruction.accounts@[m]).key,
                ) && meta_authorized(ledger_views(accounts@), signers@, instruction.accounts@[m]),
        decreases n - k,
    {
        let meta = instruction.accounts[k];
        let i = match find_account(accounts, meta.key) {
            Some(i) => i,
            None => {
                return Err(InstructionFault::MissingAccount);
            },
        };
        proof {
            assert(ledger_views(accounts@)[i as int] == accounts@[i as int]@);
            assert(ledger_views(accounts@)[i as int].state.key == meta.key);
            assert(key_present(ledger_views(accounts@), meta.key));
            let w = spec_index_of_key(ledger_views(accounts@), meta.key);
            assert(0 <= w < ledger_views(accounts@).len() && ledger_views(
                accounts@,
            )[w].state.key == meta.key);
            if w != i as int {
                assert(false);
            }
        }
        if meta.is_signer && !accounts[i].is_signer && !contains_key(signers, meta.key) {
            proof {
                assert forall|w: int|
                    0 <= w < ledger_views(accounts@).len() && #[trigger] ledger_views(
                    accounts@,
                )[w].state.key == meta.key implies !ledger_views(accounts@)[w].is_signer by {
                    assert(ledger_views(accounts@)[w] == accounts@[w]@);
                    if w != i as int {
                        assert(ledger_views(accounts@)[i as int].state.key == meta.key);
                    }
                }
                assert(!meta_authorized(ledger_views(accounts@), signers@, meta));
            }
            return Err(InstructionFault::MissingRequiredSignature);
        }
        proof {
            if meta.is_signer {
                if accounts@[i as int].is_signer {
                    assert(ledger_views(accounts@)[i as int].is_signer);
                }
                assert(meta_authorized(ledger_views(accounts@), signers@, meta));
            }
        }
        indices.push(i);
        k += 1;
    }
    let program_index = match find_account(accounts, instruction.program_id) {
        Some(i) => i,
        None => {
            return Err(InstructionFault::MissingAccount);
        },
    };
    proof {
        assert(ledger_views(accounts@)[program_index as int] == accounts@[program_index as int]@);
        assert(ledger_views(accounts@)[program_index as int].state.key == instruction.program_id);
        assert(key_present(ledger_views(accounts@), instruction.program_id));
        assert(indices@ =~= spec_resolved_indices(
            ledger_views(accounts@),
            instruction.accounts@,
        ));
    }
    Ok((indices, program_index))
}

/// The first flat record with this key: the caller-side view a resolved
/// slot is matched against during cross-program copies.
pub open spec fn spec_first_flat(flats: Seq<AccountView>, key: u64) -> Option<AccountView>
    decreases flats.len(),
{
    if flats.len() == 0 {
        None
    } else if flats.first().key == key {
        Some(flats.first())
    } else {
        spec_first_flat(flats.drop_first(), key)
    }
}

/// The position of the first flat record with this key.
pub open spec fn spec_first_flat_index(flats: Seq<AccountView>, key: u64) -> int
    decreases flats.len(),
{
    if flats.len() == 0 {
        0
    } else if flats.first().key == key {
        0
    } else {
        1 + spec_first_flat_index(flats.drop_first(), key)
    }
}

/// The earliest record carrying a key is the one `spec_first_flat` names,
/// at the position `spec_first_flat_index` names.
pub proof fn lemma_first_flat_index(flats: Seq<AccountView>, key: u64, i: int)
    requires
        0 <= i < flats.len(),
        flats[i].key == key,
        forall|j: int| 0 <= j < i ==> flats[j].key != key,
    ensures
        spec_first_flat_index(flats, key) == i,
        spec_first_flat(flats, key) == Some(flats[i]),
    decreases flats.len(),
{
    if flats.first().key == key {
        assert(i == 0);
    } else {
        assert(i > 0);
        assert(flats.drop_first()[i - 1] == flats[i]);
        assert forall|j: int| 0 <= j < i - 1 implies flats.drop_first()[j].key != key by {
            assert(flats.drop_first()[j] == flats[j + 1]);
        }
        lemma_first_flat_index(flats.drop_first(), key, i - 1);
    }
}

/// Finds the first flat record with this key.
pub fn find_first_flat(flats: &Vec<FlatAccount>, key: u64) -> (r: Option<usize>)
    ensures
        r is None <==> spec_first_flat(flat_views(flats@), key) is None,
        r matches Some(i) ==> i < flats@.len() && spec_first_flat(flat_views(flats@), key) == Some(
            flats@[i as int]@,
        ) && i as int == spec_first_flat_index(flat_views(flats@), key),
{
    let n: usize = flats.len();
    let mut i: usize = 0;
    proof {
        assert(flat_views(flats@).skip(0) =~= flat_views(flats@));
    }
    while i < n
        invariant
            n == flats@.len(),
            i <= n,
            forall|j: int| 0 <= j < i ==> flats@[j].key != key,
            spec_first_flat(flat_views(flats@), key) == spec_first_flat(
                flat_views(flats@).skip(i as int),
                key,
            ),
        decreases n - i,
    {
        proof {
            assert(flat_views(flats@).skip(i as int).first() == flats@[i as int]@);
            assert(flat_views(flats@).skip(i as int).drop_first() =~= flat_views(flats@).skip(
                i + 1 as int,
            ));
        }
        if flats[i].key == key {
            proof {
                assert forall|j: int|
                    0 <= j < i implies flat_views(flats@)[j].key != key by {
                    assert(flat_views(flats@)[j] == flats@[j]@);
                }
                lemma_first_flat_index(flat_views(flats@), key, i as int);
            }
            return Some(i);
        }
        i += 1;
    }
    proof {
        assert(flat_views(flats@).skip(n as int) =~= Seq::<AccountView>::empty());
    }
    None
}

/// What the pre-call copy does to one resolved slot: the slot is matched
/// against the caller's first flat record with its key and reconciled
/// against it under the slot's guards — writability is not waived here, so
/// a disagreeing copy into a protected slot is a fault.
pub open spec fn spec_copy_slot(a: LedgerView, flats: Seq<AccountView>) -> (LedgerView, Option<
    InstructionFault,
>) {
    match spec_first_flat(flats, a.state.key) {
        None => (a, Some(InstructionFault::MissingAccount)),
        Some(f) => spec_reconcile_account(a, f),
    }
}

/// The pre-call copy over the slots named by `order`, front to back,
/// stopping at the first fault, slots already copied staying copied.
pub open spec fn spec_copy_seq(
    accs: Seq<LedgerView>,
    order: Seq<usize>,
    flats: Seq<AccountView>,
) -> (Seq<LedgerView>, Option<InstructionFault>)
    decreases order.len(),
{
    if order.len() == 0 {
        (accs, None)
    } else {
        let i = order[0] as int;
        let (na, e) = spec_copy_slot(accs[i], flats);
        let accs1 = accs.update(i, na);
        if e is Some {
            (accs1, e)
        } else {
            spec_copy_seq(accs1, order.drop_first(), flats)
        }
    }
}

/// No fault of a single-account reconciliation is a signature fault.
pub proof fn lemma_reconcile_fault_kind(l: LedgerView, f: AccountView)
    ensures
        spec_reconcile_account(l, f).1 matches Some(e) ==> e
            != InstructionFault::MissingRequiredSignature,
{
}

/// No fault of the pre-call copy is a signature fault: a signature fault
/// from a cross-program invocation always means resolution refused it
/// before any slot was touched.
pub proof fn lemma_copy_seq_fault_kind(
    accs: Seq<LedgerView>,
    order: Seq<usize>,
    flats: Seq<AccountView>,
)
    ensures
        spec_copy_seq(accs, order, flats).1 matches Some(e) ==> e
            != InstructionFault::MissingRequiredSignature,
    decreases order.len(),
{
    if order.len() > 0 {
        let i = order[0] as int;
        let (na, e) = spec_copy_slot(accs[i], flats);
        match spec_first_flat(flats, accs[i].state.key) {
            None => {},
            Some(f) => {
                lemma_reconcile_fault_kind(accs[i], f);
            },
        }
        if e is None {
            lemma_copy_seq_fault_kind(accs.update(i, na), order.drop_first(), flats);
        }
    }
}

/// Copies the caller's flat-side state forward into the resolved ledger
/// slots, each slot once, under the same guards and in the same
/// lamports-data-owner order as post-call reconciliation.
pub fn copy_in_accounts(
    accounts: &mut Vec<LedgerAccount>,
    order: &Vec<usize>,
    flats: &Vec<FlatAccount>,
) -> (r: Result<(), InstructionFault>)
    requires
        forall|k: int| 0 <= k < order@.len() ==> (order@[k] as int) < old(accounts)@.len(),
    ensures
        ledger_views(final(accounts)@) == spec_copy_seq(
            ledger_views(old(accounts)@),
            order@,
            flat_views(flats@),
        ).0,
        r is Ok <==> spec_copy_seq(ledger_views(old(accounts)@), order@, flat_views(flats@)).1
            is None,
        r is Err ==> Some(r->Err_0) == spec_copy_seq(
            ledger_views(old(accounts)@),
            order@,
            flat_views(flats@),
        ).1,
        final(accounts)@.len() == old(accounts)@.len(),
{
    let ghost orig = ledger_views(accounts@);
    let ghost fl = flat_views(flats@);
    let mut k: usize = 0;
    proof {
        assert(order@.skip(0) =~= order@);
    }
    while k < order.len()
        invariant
            k <= order@.len(),
            forall|m: int| 0 <= m < order@.len() ==> (order@[m] as int) < accounts@.len(),
            accounts@.len() == orig.len(),
            orig == ledger_views(old(accounts)@),
            fl == flat_views(flats@),
            spec_copy_seq(orig, order@, fl) == spec_copy_seq(
                ledger_views(accounts@),
                order@.skip(k as int),
                fl,
            ),
        decreases order@.len() - k,
    {
        let i = order[k];
        proof {
            assert(order@.skip(k as int)[0] == order@[k as int]);
            assert(order@.skip(k as int).drop_first() =~= order@.skip(k + 1 as int));
        }
        let ghost pre = ledger_views(accounts@);
        match find_first_flat(flats, accounts[i].key) {
            Some(fi) => {
                let mut slot = LedgerAccount {
                    key: 0,
                    lamports: 0,
                    owner: 0,
                    data: Vec::new(),
                    is_signer: false,
                    is_writable: false,
                    is_executable: false,
                    data_limit: 0,
                };
                accounts.set_and_swap(i, &mut slot);
                let step = reconcile_account(&mut slot, &flats[fi]);
                accounts.set_and_swap(i, &mut slot);
                proof {
                    assert(spec_copy_slot(pre[i as int], fl) == spec_reconcile_account(
                        pre[i as int],
                        flats@[fi as int]@,
                    ));
                    assert(ledger_views(accounts@) =~= pre.update(
                        i as int,
                        spec_copy_slot(pre[i as int], fl).0,
                    ));
                }
                if let Err(e) = step {
                    proof {
                        assert(spec_copy_seq(pre, order@.skip(k as int), fl) == (
                            ledger_views(accounts@),
                            Some(e),
                        ));
                    }
                    return Err(e);
                }
                proof {
                    assert(spec_copy_seq(pre, order@.skip(k as int), fl) == spec_copy_seq(
                        ledger_views(accounts@),
                        order@.skip(k + 1 as int),
                        fl,
                    ));
                }
            },
            None => {
                proof {
                    assert(pre.update(i as int, pre[i as int]) =~= pre);
                    assert(spec_copy_slot(pre[i as int], fl) == (
                        pre[i as int],
                        Some(InstructionFault::MissingAccount),
                    ));
                    assert(spec_copy_seq(pre, order@.skip(k as int), fl) == (
                        ledger_views(accounts@),
                        Some(InstructionFault::MissingAccount),
                    ));
                }
                return Err(InstructionFault::MissingAccount);
            },
        }
        k += 1;
    }
    proof {
        assert(order@.skip(order@.len() as int) =~= Seq::<usize>::empty());
    }
    Ok(())
}

/// Whether no two ledger slots share a key.
pub fn accounts_have_unique_keys(accounts: &Vec<LedgerAccount>) -> (r: bool)
    ensures
        r == unique_keys(ledger_views(accounts@)),
{
    let n: usize = accounts.len();
    let mut i: usize = 0;
    while i < n
        invariant
            n == accounts@.len(),
            i <= n,
            forall|a: int, b: int| 0 <= a < b < i ==> accounts@[a].key != accounts@[b].key,
        decreases n - i,
    {
        let mut j: usize = 0;
        while j < i
            invariant
                i < n,
                n == accounts@.len(),
                j <= i,
                forall|a: int, b: int| 0 <= a < b < i ==> accounts@[a].key != accounts@[b].key,
                forall|a: int| 0 <= a < j ==> accounts@[a].key != accounts@[i as int].key,
            decreases i - j,
        {
            if accounts[j].key == accounts[i].key {
                proof {
                    assert(ledger_views(accounts@)[j as int].state.key == accounts@[j as int].key);
                    assert(ledger_views(accounts@)[i as int].state.key == accounts@[i as int].key);
                }
                return false;
            }
            j += 1;
        }
        i += 1;
    }
    proof {
        assert forall|a: int, b: int|
            0 <= a < b < ledger_views(accounts@).len() implies #[trigger] ledger_views(
            accounts@,
        )[a].state.key != #[trigger] ledger_views(accounts@)[b].state.key by {
            assert(ledger_views(accounts@)[a] == accounts@[a]@);
            assert(ledger_views(accounts@)[b] == accounts@[b]@);
        }
    }
    true
}

/// What `sol_invoke_signed_prepare` hands to the host glue: the callee's
/// program id and, for each writable named account, the resolved ledger
/// slot paired with the caller's flat record to copy back into afterwards.
#[derive(Debug)]
pub struct CpiPlan {
    pub program_id: u64,
    pub copy_pairs: Vec<(usize, usize)>,
}

/// The copy-back plan a prepared cross-program invocation must carry: for
/// each named account that is writable and has a caller-side flat record,
/// the resolved ledger slot paired with the first flat record of its key,
/// in instruction order.
pub open spec fn spec_copy_pairs(
    views: Seq<LedgerView>,
    metas: Seq<AccountMeta>,
    flats: Seq<AccountView>,
) -> Seq<(usize, usize)>
    decreases metas.len(),
{
    if metas.len() == 0 {
        Seq::empty()
    } else {
        let rest = spec_copy_pairs(views, metas.drop_last(), flats);
        let m = metas.last();
        if m.is_writable && spec_first_flat(flats, m.key) is Some {
            rest.push(
                (
                    spec_index_of_key(views, m.key) as usize,
                    spec_first_flat_index(flats, m.key) as usize,
                ),
            )
        } else {
            rest
        }
    }
}

/// Every planned pair names an existing ledger slot and flat record.
pub open spec fn pairs_bounded(pairs: Seq<(usize, usize)>, slots: int, flats: int) -> bool {
    forall|m: int|
        0 <= m < pairs.len() ==> (((#[trigger] pairs[m]).0 as int) < slots && (pairs[m].1 as int)
            < flats)
}

/// Some planned pair writes this flat record.
pub open spec fn pair_targets(pairs: Seq<(usize, usize)>, fi: int) -> bool {
    exists|m: int| 0 <= m < pairs.len() && ((#[trigger] pairs[m]).1 as int) == fi
}

/// No pair after position `w` (up to `upto`) writes the same flat record
/// as the pair at `w`: the pair at `w` is the last writer so far.
pub open spec fn no_later_writer(pairs: Seq<(usize, usize)>, w: int, upto: int) -> bool {
    forall|v: int| w < v < upto ==> ((#[trigger] pairs[v]).1) != pairs[w].1
}

/// One planned pair was copied back: the flat record holds the slot's
/// post-call lamports, owner and data, under its own key.
pub open spec fn pair_copied(
    p: (usize, usize),
    accs: Seq<LedgerView>,
    flats_old: Seq<AccountView>,
    flats_new: Seq<AccountView>,
) -> bool {
    let ci = p.0 as int;
    let fi = p.1 as int;
    &&& ci < accs.len()
    &&& fi < flats_old.len()
    &&& fi < flats_new.len()
    &&& flats_new[fi].lamports == accs[ci].state.lamports
    &&& flats_new[fi].owner == accs[ci].state.owner
    &&& flats_new[fi].data == accs[ci].state.data
    &&& flats_new[fi].key == flats_old[fi].key
}

/// The caller's flat views after a successful copy-back: every planned
/// pair that no later pair overwrites holds its slot's post-call state
/// (the last writer of a record wins), every record no pair writes is
/// untouched, and no record's key changes.
pub open spec fn flats_updated(
    pairs: Seq<(usize, usize)>,
    accs: Seq<LedgerView>,
    flats_old: Seq<AccountView>,
    flats_new: Seq<AccountView>,
) -> bool {
    &&& flats_new.len() == flats_old.len()
    &&& forall|m: int|
        (0 <= m < pairs.len() && no_later_writer(pairs, m, pairs.len() as int)) ==> pair_copied(
            #[trigger] pairs[m],
            accs,
            flats_old,
            flats_new,
        )
    &&& forall|fi: int|
        0 <= fi < flats_new.len() && !pair_targets(pairs, fi) ==> flats_new[fi] == flats_old[fi]
    &&& forall|fi: int| 0 <= fi < flats_new.len() ==> (#[trigger] flats_new[fi]).key == flats_old[
        fi
    ].key
}

/// Every seed list of a derivation request is within the limits.
pub open spec fn seed_groups_within_limits(groups: Seq<Vec<Vec<u8>>>) -> bool {
    forall|s: int|
        0 <= s < groups.len() ==> seeds_within_limits(seed_views((#[trigger] groups[s])@))
}

/// Resolution admits the instruction: every named account is present and
/// every demanded signature satisfied, and the target program is present.
pub open spec fn resolution_admitted(
    views: Seq<LedgerView>,
    metas: Seq<AccountMeta>,
    program_id: u64,
    signers: Seq<u64>,
) -> bool {
    &&& forall|k: int|
        0 <= k < metas.len() ==> key_present(views, (#[trigger] metas[k]).key) && meta_authorized(
            views,
            signers,
            metas[k],
        )
    &&& key_present(views, program_id)
}

/// The context a successful `sol_invoke_signed_prepare` leaves behind: the
/// callee's frame pushed, naming the resolved slots, and the caller's
/// flat-side state copied forward into the deduplicated resolved slots.
pub open spec fn prepare_ok_state(
    c: InvocationContext,
    d: InvocationContext,
    callee: u64,
    payload: Seq<u8>,
    metas: Seq<AccountMeta>,
    flats: Seq<AccountView>,
) -> bool {
    let views = ledger_views(c.accounts@);
    let resolved = spec_resolved_indices(views, metas);
    let order = spec_dedup(resolved);
    &&& d.frames@.len() == c.frames@.len() + 1
    &&& d.frames@.drop_last() == c.frames@
    &&& d.frames@.last().program_id == callee
    &&& d.frames@.last().instruction_data@ == payload
    &&& d.frames@.last().account_indices@ == resolved
    &&& ledger_views(d.accounts@) == spec_copy_seq(views, order, flats).0
    &&& forall|m: int|
        0 <= m < resolved.len() ==> ((#[trigger] resolved[m]) as int) < d.accounts@.len()
}

impl TridentSyscallStubs {
    /// The steps of a cross-program invocation up to the nested call:
    /// emits the invocation log entry, derives the signer authorities from
    /// the seed lists relative to the caller's program id, resolves the
    /// target instruction (failing on a missing account or an unsatisfied
    /// signature before touching any slot), copies the caller's flat-side
    /// state forward into the resolved slots — each distinct slot once,
    /// which reconciliation idempotence makes equal to copying every
    /// duplicate reference — and pushes the callee's instruction frame.
    /// Any fault is translated through the taxonomy and returned as the
    /// CPI call's error result.
    #[verifier::loop_isolation(false)]
    pub fn sol_invoke_signed_prepare(
        &self,
        slot: &mut ContextSlot,
        instruction: &Instruction,
        flats: &Vec<FlatAccount>,
        signer_seeds: &Vec<Vec<Vec<u8>>>,
    ) -> (r: Result<CpiPlan, CpiError>)
        ensures
            old(slot).active is None ==> r == Err::<CpiPlan, CpiError>(CpiError::NoActiveContext)
                && *final(slot) == *old(slot),
            (old(slot).active matches Some(c) ==> (c.frames@.len() == 0 ==> r == Err::<
                CpiPlan,
                CpiError,
            >(CpiError::Internal(InstructionFault::CallDepth)) && *final(slot) == *old(slot))),
            (old(slot).active matches Some(c) ==> (c.frames@.len() > 0 && !unique_keys(
                ledger_views(c.accounts@),
            ) ==> r == Err::<CpiPlan, CpiError>(
                CpiError::Internal(InstructionFault::DuplicateAccountIndex),
            ) && *final(slot) == *old(slot))),
            (old(slot).active matches Some(c) ==> (r == Err::<CpiPlan, CpiError>(
                CpiError::Program(ProgramFault::MissingRequiredSignature),
            ) ==> (final(slot).active matches Some(d) && d.accounts == c.accounts && d.frames
                == c.frames))),
            (old(slot).active matches Some(c) ==> (r == Err::<CpiPlan, CpiError>(
                CpiError::Program(ProgramFault::MissingRequiredSignature),
            ) ==> exists|k: int|
                0 <= k < instruction.accounts@.len() && !meta_authorized(
                    ledger_views(c.accounts@),
                    spec_derived_signers(c.frames@.last().program_id, signer_seeds@),
                    #[trigger] instruction.accounts@[k],
                ))),
            (old(slot).active matches Some(c) ==> ((c.frames@.len() > 0 && unique_keys(
                ledger_views(c.accounts@),
            ) && seed_groups_within_limits(signer_seeds@) && resolution_admitted(
                ledger_views(c.accounts@),
                instruction.accounts@,
                instruction.program_id,
                spec_derived_signers(c.frames@.last().program_id, signer_seeds@),
            ) && spec_copy_seq(
                ledger_views(c.accounts@),
                spec_dedup(
                    spec_resolved_indices(ledger_views(c.accounts@), instruction.accounts@),
                ),
                flat_views(flats@),
            ).1 is None) ==> r is Ok)),
            (old(slot).active matches Some(c) ==> (c.frames@.len() > 0 && unique_keys(
                ledger_views(c.accounts@),
            ) ==> (final(slot).active matches Some(d) && d.log@ == c.log@.push(
                LogEntry::Invoke {
                    program_id: instruction.program_id,
                    height: c.frames@.len() as u64,
                },
            )))),
            (old(slot).active matches Some(c) ==> (r is Ok ==> (c.frames@.len() > 0
                && unique_keys(ledger_views(c.accounts@)) && seed_groups_within_limits(
                signer_seeds@,
            ) && resolution_admitted(
                ledger_views(c.accounts@),
                instruction.accounts@,
                instruction.program_id,
                spec_derived_signers(c.frames@.last().program_id, signer_seeds@),
            )))),
            (old(slot).active matches Some(c) ==> (r is Ok ==> spec_copy_seq(
                ledger_views(c.accounts@),
                spec_dedup(
                    spec_resolved_indices(ledger_views(c.accounts@), instruction.accounts@),
                ),
                flat_views(flats@),
            ).1 is None)),
            (old(slot).active matches Some(c) ==> (r is Ok ==> (r->Ok_0).copy_pairs@
                == spec_copy_pairs(
                ledger_views(c.accounts@),
                instruction.accounts@,
                flat_views(flats@),
            ))),
            (old(slot).active matches Some(c) ==> ((c.frames@.len() > 0 && unique_keys(
                ledger_views(c.accounts@),
            ) && seed_groups_within_limits(signer_seeds@) && resolution_admitted(
                ledger_views(c.accounts@),
                instruction.accounts@,
                instruction.program_id,
                spec_derived_signers(c.frames@.last().program_id, signer_seeds@),
            )) ==> (spec_copy_seq(
                ledger_views(c.accounts@),
                spec_dedup(
                    spec_resolved_indices(ledger_views(c.accounts@), instruction.accounts@),
                ),
                flat_views(flats@),
            ).1 matches Some(e) ==> r == Err::<CpiPlan, CpiError>(spec_cpi_fault(e))))),
            (old(slot).active matches Some(c) ==> (r is Ok ==> (final(slot).active matches Some(d)
                && prepare_ok_state(
                c,
                d,
                instruction.program_id,
                instruction.data@,
                instruction.accounts@,
                flat_views(flats@),
            ) && pairs_bounded(
                (r->Ok_0).copy_pairs@,
                d.accounts@.len() as int,
                flats@.len() as int,
            ) && (r->Ok_0).program_id == instruction.program_id))),
    {
        let context = match &mut slot.active {
            Some(c) => c,
            None => {
                return Err(CpiError::NoActiveContext);
            },
        };
        let caller = match context.current_frame() {
            Ok(f) => f.program_id,
            Err(_) => {
                return Err(CpiError::Internal(InstructionFault::CallDepth));
            },
        };
        if !accounts_have_unique_keys(&context.accounts) {
            return Err(CpiError::Internal(InstructionFault::DuplicateAccountIndex));
        }
        let frame_count: usize = context.frames.len();
        proof {
            assert(frame_count as int <= u64::MAX as int);
        }
        let height = context.stack_height();
        context.push_log(LogEntry::Invoke { program_id: instruction.program_id, height });
        let mut signers: Vec<u64> = Vec::new();
        let mut s: usize = 0;
        while s < signer_seeds.len()
            invariant
                s <= signer_seeds@.len(),
                signers@.len() == s,
                forall|w: int|
                    0 <= w < s ==> #[trigger] signers@[w] == spec_derive_authority(
                        caller,
                        seed_views(signer_seeds@[w]@),
                    ),
                forall|w: int|
                    0 <= w < s ==> seeds_within_limits(
                        seed_views((#[trigger] signer_seeds@[w])@),
                    ),
            decreases signer_seeds@.len() - s,
        {
            match derive_authority(caller, &signer_seeds[s]) {
                Ok(h) => {
                    signers.push(h);
                },
                Err(e) => {
                    return Err(cpi_fault(e));
                },
            }
            s += 1;
        }
        proof {
            assert(signers@ =~= spec_derived_signers(caller, signer_seeds@));
        }
        let resolved = match resolve_instruction(&context.accounts, instruction, &signers) {
            Ok(p) => p,
            Err(e) => {
                return Err(cpi_fault(e));
            },
        };
        let indices = resolved.0;
        let order = dedup_indices(&indices);
        proof {
            crate::reconcile::lemma_dedup_bounded(indices@, context.accounts@.len() as int);
        }
        if let Err(e) = copy_in_accounts(&mut context.accounts, &order, flats) {
            proof {
                lemma_copy_seq_fault_kind(
                    ledger_views(old(slot).active->Some_0.accounts@),
                    order@,
                    flat_views(flats@),
                );
            }
            return Err(cpi_fault(e));
        }
        let ghost views0 = ledger_views(old(slot).active->Some_0.accounts@);
        let mut copy_pairs: Vec<(usize, usize)> = Vec::new();
        let mut k: usize = 0;
        proof {
            assert(instruction.accounts@.take(0) =~= Seq::<AccountMeta>::empty());
        }
        while k < instruction.accounts.len()
            invariant
                k <= instruction.accounts@.len(),
                indices@.len() == instruction.accounts@.len(),
                copy_pairs@ == spec_copy_pairs(
                    views0,
                    instruction.accounts@.take(k as int),
                    flat_views(flats@),
                ),
                forall|m: int|
                    0 <= m < copy_pairs@.len() ==> (((#[trigger] copy_pairs@[m]).0 as int)
                        < context.accounts@.len() && (copy_pairs@[m].1 as int) < flats@.len()),
                forall|m: int|
                    0 <= m < indices@.len() ==> ((#[trigger] indices@[m]) as int)
                        < context.accounts@.len(),
            decreases instruction.accounts@.len() - k,
        {
            proof {
                assert(instruction.accounts@.take(k + 1 as int).drop_last()
                    =~= instruction.accounts@.take(k as int));
                assert(instruction.accounts@.take(k + 1 as int).last() == instruction.accounts@[
                    k as int
                ]);
                assert(spec_resolved_indices(views0, instruction.accounts@)[k as int]
                    == spec_index_of_key(views0, instruction.accounts@[k as int].key) as usize);
            }
            if instruction.accounts[k].is_writable {
                if let Some(fi) = find_first_flat(flats, instruction.accounts[k].key) {
                    copy_pairs.push((indices[k], fi));
                }
            }
            k += 1;
        }
        proof {
            assert(instruction.accounts@.take(instruction.accounts@.len() as int)
                =~= instruction.accounts@);
        }
        let callee_frame = InstructionFrame {
            program_id: instruction.program_id,
            account_indices: clone_indices(&indices),
            instruction_data: copy_bytes(&instruction.data),
        };
        let ghost frames_pre_push = context.frames@;
        context.frames.push(callee_frame);
        proof {
            assert(context.frames@.drop_last() =~= frames_pre_push);
            assert(context.frames@.last() == callee_frame);
        }
        Ok(CpiPlan { program_id: instruction.program_id, copy_pairs })
    }

    /// The steps of a cross-program invocation after the nested call: pops
    /// the callee's instruction frame, translates a nested fault through
    /// the taxonomy, and on success copies the ledger-side post-call state
    /// of every writable resolved slot back into the caller's flat views
    /// (lamports, owner and data, the flat region taking the new length),
    /// then emits the success log entry.
    #[verifier::loop_isolation(false)]
    pub fn sol_invoke_signed_finish(
        &self,
        slot: &mut ContextSlot,
        plan: &CpiPlan,
        flats: &mut Vec<FlatAccount>,
        nested: Result<(), InstructionFault>,
    ) -> (r: Result<(), CpiError>)
        ensures
            old(slot).active is None ==> r == Err::<(), CpiError>(CpiError::NoActiveContext)
                && *final(slot) == *old(slot) && final(flats)@ == old(flats)@,
            (old(slot).active matches Some(c) ==> (c.frames@.len() == 0 ==> r == Err::<
                (),
                CpiError,
            >(CpiError::Internal(InstructionFault::CallDepth)) && *final(slot) == *old(slot)
                && final(flats)@ == old(flats)@)),
            (old(slot).active matches Some(c) ==> (c.frames@.len() > 0 ==> (nested matches Err(
                e,
            ) ==> r == Err::<(), CpiError>(spec_cpi_fault(e)) && (final(slot).active matches Some(
                d,
            ) && d.accounts == c.accounts && d.frames@ == c.frames@.drop_last() && d.log == c.log
                && final(flats)@ == old(flats)@)))),
            (old(slot).active matches Some(c) ==> ((c.frames@.len() > 0 && nested is Ok && r is Ok)
                ==> (final(slot).active matches Some(d) && d.accounts == c.accounts && d.frames@
                == c.frames@.drop_last() && d.log@ == c.log@.push(
                LogEntry::Success { program_id: plan.program_id },
            ) && flats_updated(
                plan.copy_pairs@,
                ledger_views(c.accounts@),
                flat_views(old(flats)@),
                flat_views(final(flats)@),
            )))),
            (old(slot).active matches Some(c) ==> ((c.frames@.len() > 0 && nested is Ok
                && pairs_bounded(
                plan.copy_pairs@,
                c.accounts@.len() as int,
                old(flats)@.len() as int,
            )) ==> r is Ok)),
    {
        let context = match &mut slot.active {
            Some(c) => c,
            None => {
                return Err(CpiError::NoActiveContext);
            },
        };
        if context.frames.len() == 0 {
            return Err(CpiError::Internal(InstructionFault::CallDepth));
        }
        let ghost frames_before = context.frames@;
        let popped = context.frames.pop();
        proof {
            assert(context.frames@ =~= frames_before.drop_last());
        }
        if let Err(e) = nested {
            return Err(cpi_fault(e));
        }
        let ghost accs0 = ledger_views(context.accounts@);
        let ghost flats0 = flat_views(flats@);
        let pair_count: usize = plan.copy_pairs.len();
        let mut m: usize = 0;
        while m < pair_count
            invariant
                m <= pair_count,
                ledger_views(context.accounts@) == accs0,
                flats@.len() == flats0.len(),
                forall|w: int|
                    (0 <= w < m && no_later_writer(plan.copy_pairs@, w, m as int))
                        ==> pair_copied(
                        #[trigger] plan.copy_pairs@[w],
                        accs0,
                        flats0,
                        flat_views(flats@),
                    ),
                forall|fi: int|
                    0 <= fi < flats@.len() && !pair_targets(plan.copy_pairs@, fi)
                        ==> flat_views(flats@)[fi] == flats0[fi],
                forall|fi: int|
                    0 <= fi < flats@.len() ==> (#[trigger] flat_views(flats@)[fi]).key == flats0[
                        fi
                    ].key,
            decreases pair_count - m,
        {
            let pair = plan.copy_pairs[m];
            let ci = pair.0;
            let fi = pair.1;
            if ci >= context.accounts.len() || fi >= flats.len() {
                return Err(CpiError::Internal(InstructionFault::MissingAccount));
            }
            let src_lamports = context.accounts[ci].lamports;
            let src_owner = context.accounts[ci].owner;
            let src_data = copy_bytes(&context.accounts[ci].data);
            let updated = FlatAccount {
                key: flats[fi].key,
                lamports: src_lamports,
                owner: src_owner,
                data: src_data,
            };
            let ghost before = flat_views(flats@);
            flats.set(fi, updated);
            proof {
                assert(flat_views(flats@) =~= before.update(fi as int, updated@));
                assert(updated@.lamports == accs0[ci as int].state.lamports);
                assert(updated@.owner == accs0[ci as int].state.owner);
                assert(updated@.data == accs0[ci as int].state.data);
                assert(updated@.key == before[fi as int].key);
                assert(pair_copied(plan.copy_pairs@[m as int], accs0, flats0, flat_views(flats@)));
                assert forall|w: int|
                    (0 <= w < m + 1 && no_later_writer(plan.copy_pairs@, w, m + 1))
                        implies pair_copied(
                    #[trigger] plan.copy_pairs@[w],
                    accs0,
                    flats0,
                    flat_views(flats@),
                ) by {
                    if w < m {
                        assert(plan.copy_pairs@[m as int].1 != plan.copy_pairs@[w].1);
                        assert(no_later_writer(plan.copy_pairs@, w, m as int));
                    }
                }
                assert forall|fo: int|
                    0 <= fo < flats@.len() && !pair_targets(plan.copy_pairs@, fo)
                        implies flat_views(flats@)[fo] == flats0[fo] by {
                    assert(plan.copy_pairs@[m as int].1 as int != fo);
                }
            }
            m += 1;
        }
        context.push_log(LogEntry::Success { program_id: plan.program_id });
        Ok(())
    }
}

} // verus!
