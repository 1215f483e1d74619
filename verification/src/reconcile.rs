//! Reconciliation of a whole instruction's accounts: the deduplicated index
//! set, the lookup of a flat record by key, and the pass that commits every
//! writable referenced slot, in first-occurrence order, stopping at the
//! first fault and leaving slots already committed in place.

use vstd::prelude::*;

use crate::account::AccountView;
use crate::account::FlatAccount;
use crate::account::LedgerAccount;
use crate::account::LedgerView;
use crate::account::lemma_reconcile_account_frame;
use crate::account::lemma_reconcile_account_idempotent;
use crate::account::lemma_reconcile_account_success;
use crate::account::reconcile_account;
use crate::account::spec_reconcile_account;
use crate::errors::InstructionFault;

verus! {

/// The observable states of a sequence of flat records.
pub open spec fn flat_views(flats: Seq<FlatAccount>) -> Seq<AccountView> {
    flats.map_values(|f: FlatAccount| f@)
}

/// The models of a sequence of ledger slots.
pub open spec fn ledger_views(accounts: Seq<LedgerAccount>) -> Seq<LedgerView> {
    accounts.map_values(|a: LedgerAccount| a@)
}

/// The flat record a ledger slot with key `key` is matched against: the
/// last record with that key, mirroring a lookup table built front to back
/// where a later record overwrites an earlier one.
pub open spec fn spec_flat_match(flats: Seq<AccountView>, key: u64) -> Option<AccountView>
    decreases flats.len(),
{
    if flats.len() == 0 {
        None
    } else if flats.last().key == key {
        Some(flats.last())
    } else {
        spec_flat_match(flats.drop_last(), key)
    }
}

/// Finds the flat record a slot with key `key` is matched against.
pub fn find_flat(flats: &Vec<FlatAccount>, key: u64) -> (r: Option<usize>)
    ensures
        r is None <==> spec_flat_match(flat_views(flats@), key) is None,
        r matches Some(i) ==> i < flats@.len() && spec_flat_match(flat_views(flats@), key)
            == Some(flats@[i as int]@),
{
    let mut i: usize = flats.len();
    proof {
        assert(flat_views(flats@).take(flats@.len() as int) =~= flat_views(flats@));
    }
    while i > 0
        invariant
            i <= flats@.len(),
            spec_flat_match(flat_views(flats@), key) == spec_flat_match(
                flat_views(flats@).take(i as int),
                key,
            ),
        decreases i,
    {
        i -= 1;
        if flats[i].key == key {
            proof {
                assert(flat_views(flats@).take(i + 1 as int).last() == flats@[i as int]@);
            }
            return Some(i);
        }
        proof {
            assert(flat_views(flats@).take(i + 1 as int).drop_last() =~= flat_views(
                flats@,
            ).take(i as int));
        }
    }
    proof {
        assert(flat_views(flats@).take(0) =~= Seq::<AccountView>::empty());
    }
    None
}

/// Every index names an existing slot.
pub open spec fn indices_bounded(order: Seq<usize>, len: int) -> bool {
    forall|k: int| 0 <= k < order.len() ==> ((#[trigger] order[k]) as int) < len
}

/// No index occurs twice.
pub open spec fn distinct_indices(s: Seq<usize>) -> bool {
    forall|k1: int, k2: int| 0 <= k1 < k2 < s.len() ==> s[k1] != s[k2]
}

/// The first occurrences of a sequence of indices, in order: the
/// deduplicated account index set of one instruction.
pub open spec fn spec_dedup(s: Seq<usize>) -> Seq<usize>
    decreases s.len(),
{
    if s.len() == 0 {
        s
    } else {
        let rest = spec_dedup(s.drop_last());
        if s.drop_last().contains(s.last()) {
            rest
        } else {
            rest.push(s.last())
        }
    }
}

/// Deduplication keeps exactly the indices that were there.
pub proof fn lemma_dedup_contains(s: Seq<usize>, x: usize)
    ensures
        spec_dedup(s).contains(x) == s.contains(x),
    decreases s.len(),
{
    if s.len() > 0 {
        lemma_dedup_contains(s.drop_last(), x);
        assert(s.contains(x) == (s.drop_last().contains(x) || s.last() == x)) by {
            if s.contains(x) {
                let w = choose|w: int| 0 <= w < s.len() && s[w] == x;
                if w < s.len() - 1 {
                    assert(s.drop_last()[w] == x);
                }
            }
            if s.drop_last().contains(x) {
                let w = choose|w: int| 0 <= w < s.drop_last().len() && s.drop_last()[w] == x;
                assert(s[w] == x);
            }
        }
        let d = spec_dedup(s.drop_last());
        if !s.drop_last().contains(s.last()) {
            assert(d.push(s.last()).contains(x) == (d.contains(x) || x == s.last())) by {
                if d.contains(x) {
                    let w = choose|w: int| 0 <= w < d.len() && d[w] == x;
                    assert(d.push(s.last())[w] == x);
                }
                if x == s.last() {
                    assert(d.push(s.last())[d.len() as int] == x);
                }
                if d.push(s.last()).contains(x) {
                    let w = choose|w: int|
                        0 <= w < d.push(s.last()).len() && d.push(s.last())[w] == x;
                    if w < d.len() {
                        assert(d[w] == x);
                    }
                }
            }
        }
    }
}

/// Deduplication leaves no index twice.
pub proof fn lemma_dedup_distinct(s: Seq<usize>)
    ensures
        distinct_indices(spec_dedup(s)),
    decreases s.len(),
{
    if s.len() > 0 {
        lemma_dedup_distinct(s.drop_last());
        if !s.drop_last().contains(s.last()) {
            lemma_dedup_contains(s.drop_last(), s.last());
            let d = spec_dedup(s.drop_last());
            assert forall|k1: int, k2: int|
                0 <= k1 < k2 < spec_dedup(s).len() implies spec_dedup(s)[k1] != spec_dedup(
                s,
            )[k2] by {
                if k2 == spec_dedup(s).len() - 1 {
                    assert(d.contains(d[k1]));
                }
            }
        }
    }
}

/// Every deduplicated index came from the original sequence.
pub proof fn lemma_dedup_bounded(s: Seq<usize>, bound: int)
    requires
        forall|k: int| 0 <= k < s.len() ==> (s[k] as int) < bound,
    ensures
        forall|k: int| 0 <= k < spec_dedup(s).len() ==> (spec_dedup(s)[k] as int) < bound,
{
    assert forall|k: int| 0 <= k < spec_dedup(s).len() implies (spec_dedup(s)[k] as int)
        < bound by {
        assert(spec_dedup(s).contains(spec_dedup(s)[k]));
        lemma_dedup_contains(s, spec_dedup(s)[k]);
        let w = choose|w: int| 0 <= w < s.len() && s[w] == spec_dedup(s)[k];
    }
}

/// Whether `x` occurs in `v`.
pub fn contains_index(v: &Vec<usize>, x: usize) -> (r: bool)
    ensures
        r == v@.contains(x),
{
    let mut j: usize = 0;
    while j < v.len()
        invariant
            j <= v@.len(),
            forall|k: int| 0 <= k < j ==> v@[k] != x,
        decreases v@.len() - j,
    {
        if v[j] == x {
            return true;
        }
        j += 1;
    }
    false
}

/// Computes the deduplicated account index set of one instruction: the first
/// occurrence of each referenced index, in order.
pub fn dedup_indices(indices: &Vec<usize>) -> (r: Vec<usize>)
    ensures
        r@ == spec_dedup(indices@),
{
    let mut out: Vec<usize> = Vec::new();
    let mut j: usize = 0;
    while j < indices.len()
        invariant
            j <= indices@.len(),
            out@ == spec_dedup(indices@.take(j as int)),
        decreases indices@.len() - j,
    {
        proof {
            assert(indices@.take(j + 1 as int).drop_last() =~= indices@.take(j as int));
            lemma_dedup_contains(indices@.take(j as int), indices@[j as int]);
        }
        if !contains_index(&out, indices[j]) {
            out.push(indices[j]);
        } else {
            proof {
                assert(out@.contains(indices@[j as int]));
            }
        }
        j += 1;
    }
    proof {
        assert(indices@.take(indices@.len() as int) =~= indices@);
    }
    out
}

/// What one pass over one ledger slot does: a non-writable slot or one with
/// no matching flat record is left untouched; a writable matched slot is
/// reconciled against its flat record.
pub open spec fn spec_commit_slot(a: LedgerView, flats: Seq<AccountView>) -> (LedgerView, Option<
    InstructionFault,
>) {
    if !a.is_writable {
        (a, None)
    } else {
        match spec_flat_match(flats, a.state.key) {
            None => (a, None),
            Some(f) => spec_reconcile_account(a, f),
        }
    }
}

/// Reconciling the slots named by `order`, front to back, stopping at the
/// first fault: the final ledger state and the fault, if any.  Slots already
/// committed when a fault stops the pass stay committed.
pub open spec fn spec_reconcile_seq(
    accs: Seq<LedgerView>,
    order: Seq<usize>,
    flats: Seq<AccountView>,
) -> (Seq<LedgerView>, Option<InstructionFault>)
    decreases order.len(),
{
    if order.len() == 0 {
        (accs, None)
    } else {
        let i = order[0] as int;
        let (na, e) = spec_commit_slot(accs[i], flats);
        let accs1 = accs.update(i, na);
        if e is Some {
            (accs1, e)
        } else {
            spec_reconcile_seq(accs1, order.drop_first(), flats)
        }
    }
}

/// Ledger-side state of a non-writable slot is unchanged by a whole
/// reconciliation pass, whatever the flat side attempted.
pub proof fn lemma_reconcile_seq_readonly(
    accs: Seq<LedgerView>,
    order: Seq<usize>,
    flats: Seq<AccountView>,
    i: int,
)
    requires
        forall|k: int| 0 <= k < order.len() ==> (order[k] as int) < accs.len(),
        0 <= i < accs.len(),
        !accs[i].is_writable,
    ensures
        spec_reconcile_seq(accs, order, flats).0[i] == accs[i],
        spec_reconcile_seq(accs, order, flats).0.len() == accs.len(),
    decreases order.len(),
{
    if order.len() > 0 {
        let j = order[0] as int;
        let (na, e) = spec_commit_slot(accs[j], flats);
        let accs1 = accs.update(j, na);
        assert(accs1[i] == accs[i]);
        if e is None {
            lemma_reconcile_seq_readonly(accs1, order.drop_first(), flats, i);
        }
    }
}

/// A slot that the order never names is unchanged by the pass.
pub proof fn lemma_reconcile_seq_unreferenced(
    accs: Seq<LedgerView>,
    order: Seq<usize>,
    flats: Seq<AccountView>,
    i: int,
)
    requires
        forall|k: int| 0 <= k < order.len() ==> (order[k] as int) < accs.len(),
        0 <= i < accs.len(),
        !order.contains(i as usize),
    ensures
        spec_reconcile_seq(accs, order, flats).0[i] == accs[i],
        spec_reconcile_seq(accs, order, flats).0.len() == accs.len(),
    decreases order.len(),
{
    if order.len() > 0 {
        let j = order[0] as int;
        assert(order[0] != i as usize) by {
            assert(order.contains(order[0]));
        }
        let (na, e) = spec_commit_slot(accs[j], flats);
        let accs1 = accs.update(j, na);
        if e is None {
            assert forall|k: int|
                0 <= k < order.drop_first().len() implies (order.drop_first()[k] as int)
                < accs1.len() by {
                assert(order.drop_first()[k] == order[k + 1]);
            }
            assert(!order.drop_first().contains(i as usize)) by {
                if order.drop_first().contains(i as usize) {
                    let w = choose|w: int|
                        0 <= w < order.drop_first().len() && order.drop_first()[w] == i as usize;
                    assert(order[w + 1] == i as usize);
                }
            }
            lemma_reconcile_seq_unreferenced(accs1, order.drop_first(), flats, i);
        }
    }
}

/// After a pass that reports no fault, every writable slot the order names
/// that has a matching flat record holds exactly that record's lamports,
/// data and owner: the ledger-side state equals the flat-side state the
/// program observed at return.
pub proof fn lemma_reconcile_seq_commits(
    accs: Seq<LedgerView>,
    order: Seq<usize>,
    flats: Seq<AccountView>,
    k: int,
)
    requires
        forall|m: int| 0 <= m < order.len() ==> (order[m] as int) < accs.len(),
        distinct_indices(order),
        spec_reconcile_seq(accs, order, flats).1 is None,
        0 <= k < order.len(),
        accs[order[k] as int].is_writable,
        spec_flat_match(flats, accs[order[k] as int].state.key) is Some,
    ensures
        ({
            let i = order[k] as int;
            let f = spec_flat_match(flats, accs[i].state.key)->Some_0;
            let fin = spec_reconcile_seq(accs, order, flats).0;
            &&& fin.len() == accs.len()
            &&& fin[i].state.lamports == f.lamports
            &&& fin[i].state.data == f.data
            &&& fin[i].state.owner == f.owner
        }),
    decreases order.len(),
{
    let j = order[0] as int;
    let (na, e) = spec_commit_slot(accs[j], flats);
    let accs1 = accs.update(j, na);
    assert(e is None);
    assert forall|m: int|
        0 <= m < order.drop_first().len() implies (order.drop_first()[m] as int)
        < accs1.len() by {
        assert(order.drop_first()[m] == order[m + 1]);
    }
    if k == 0 {
        let f = spec_flat_match(flats, accs[j].state.key)->Some_0;
        lemma_reconcile_account_success(accs[j], f);
        lemma_reconcile_account_frame(accs[j], f);
        assert(!order.drop_first().contains(order[0])) by {
            if order.drop_first().contains(order[0]) {
                let w = choose|w: int|
                    0 <= w < order.drop_first().len() && order.drop_first()[w] == order[0];
                assert(order[w + 1] == order[0]);
            }
        }
        lemma_reconcile_seq_unreferenced(accs1, order.drop_first(), flats, j);
    } else {
        let i = order[k] as int;
        assert(order[0] != order[k]);
        assert(accs1[i] == accs[i]);
        assert(order.drop_first()[k - 1] == order[k]);
        assert(distinct_indices(order.drop_first())) by {
            assert forall|k1: int, k2: int|
                0 <= k1 < k2 < order.drop_first().len() implies order.drop_first()[k1]
                != order.drop_first()[k2] by {
                assert(order.drop_first()[k1] == order[k1 + 1]);
                assert(order.drop_first()[k2] == order[k2 + 1]);
            }
        }
        lemma_reconcile_seq_commits(accs1, order.drop_first(), flats, k - 1);
    }
}

/// Running the whole pass a second time over the same index set neither
/// changes any slot nor reports a fault: processing an account more than
/// once is harmless, so reconciling each distinct referenced slot exactly
/// once gives the same ledger state as processing every duplicate
/// reference.
pub proof fn lemma_reconcile_seq_idempotent(
    accs: Seq<LedgerView>,
    order: Seq<usize>,
    flats: Seq<AccountView>,
)
    requires
        forall|k: int| 0 <= k < order.len() ==> (order[k] as int) < accs.len(),
        distinct_indices(order),
        spec_reconcile_seq(accs, order, flats).1 is None,
    ensures
        spec_reconcile_seq(spec_reconcile_seq(accs, order, flats).0, order, flats) == (
            spec_reconcile_seq(accs, order, flats).0,
            None::<InstructionFault>,
        ),
    decreases order.len(),
{
    if order.len() > 0 {
        let i = order[0] as int;
        let (na, e) = spec_commit_slot(accs[i], flats);
        assert(e is None);
        let accs1 = accs.update(i, na);
        assert forall|m: int|
            0 <= m < order.drop_first().len() implies (order.drop_first()[m] as int)
            < accs1.len() by {
            assert(order.drop_first()[m] == order[m + 1]);
        }
        assert(distinct_indices(order.drop_first())) by {
            assert forall|k1: int, k2: int|
                0 <= k1 < k2 < order.drop_first().len() implies order.drop_first()[k1]
                != order.drop_first()[k2] by {
                assert(order.drop_first()[k1] == order[k1 + 1]);
                assert(order.drop_first()[k2] == order[k2 + 1]);
            }
        }
        assert(!order.drop_first().contains(order[0])) by {
            if order.drop_first().contains(order[0]) {
                let w = choose|w: int|
                    0 <= w < order.drop_first().len() && order.drop_first()[w] == order[0];
                assert(order[w + 1] == order[0]);
            }
        }
        lemma_reconcile_seq_idempotent(accs1, order.drop_first(), flats);
        let fin = spec_reconcile_seq(accs1, order.drop_first(), flats).0;
        lemma_reconcile_seq_unreferenced(accs1, order.drop_first(), flats, i);
        assert(fin[i] == na);
        assert(spec_commit_slot(fin[i], flats) == (fin[i], None::<InstructionFault>)) by {
            if accs[i].is_writable {
                match spec_flat_match(flats, accs[i].state.key) {
                    None => {},
                    Some(f) => {
                        lemma_reconcile_account_idempotent(accs[i], f);
                        lemma_reconcile_account_frame(accs[i], f);
                    },
                }
            }
        }
        assert(fin.update(i, fin[i]) =~= fin);
    }
}

/// Reconciles the slots named by `order` against the flat records, front to
/// back: each writable named slot with a matching flat record (matched by
/// key, last record winning) is copied lamports-then-data-then-owner under
/// its guards; the pass stops at the first fault, leaving slots already
/// committed in place.
pub fn reconcile_accounts(
    accounts: &mut Vec<LedgerAccount>,
    order: &Vec<usize>,
    flats: &Vec<FlatAccount>,
) -> (r: Result<(), InstructionFault>)
    requires
        forall|k: int| 0 <= k < order@.len() ==> (order@[k] as int) < old(accounts)@.len(),
    ensures
        ledger_views(final(accounts)@) == spec_reconcile_seq(
            ledger_views(old(accounts)@),
            order@,
            flat_views(flats@),
        ).0,
        r is Ok <==> spec_reconcile_seq(ledger_views(old(accounts)@), order@, flat_views(flats@)).1
            is None,
        r is Err ==> Some(r->Err_0) == spec_reconcile_seq(
            ledger_views(old(accounts)@),
            order@,
            flat_views(flats@),
        ).1,
        final(accounts)@.len() == old(accounts)@.len(),
{
    let ghost orig = ledger_views(accounts@);
    let ghost fl = flat_views(flats@);
    let mut k: usize = 0;
    proof {
        assert(order@.skip(0) =~= order@);
    }
    while k < order.len()
        invariant
            k <= order@.len(),
            forall|m: int| 0 <= m < order@.len() ==> (order@[m] as int) < accounts@.len(),
            accounts@.len() == orig.len(),
            orig == ledger_views(old(accounts)@),
            fl == flat_views(flats@),
            spec_reconcile_seq(orig, order@, fl) == spec_reconcile_seq(
                ledger_views(accounts@),
                order@.skip(k as int),
                fl,
            ),
        decreases order@.len() - k,
    {
        let i = order[k];
        proof {
            assert(order@.skip(k as int)[0] == order@[k as int]);
            assert(order@.skip(k as int).drop_first() =~= order@.skip(k + 1 as int));
        }
        let ghost pre = ledger_views(accounts@);
        if accounts[i].is_writable {
            match find_flat(flats, accounts[i].key) {
                Some(fi) => {
                    let mut slot = LedgerAccount {
                        key: 0,
                        lamports: 0,
                        owner: 0,
                        data: Vec::new(),
                        is_signer: false,
                        is_writable: false,
                        is_executable: false,
                        data_limit: 0,
                    };
                    accounts.set_and_swap(i, &mut slot);
                    let step = reconcile_account(&mut slot, &flats[fi]);
                    accounts.set_and_swap(i, &mut slot);
                    proof {
                        assert(spec_commit_slot(pre[i as int], fl) == spec_reconcile_account(
                            pre[i as int],
                            flats@[fi as int]@,
                        ));
                        assert(ledger_views(accounts@) =~= pre.update(
                            i as int,
                            spec_commit_slot(pre[i as int], fl).0,
                        ));
                    }
                    if let Err(e) = step {
                        proof {
                            assert(spec_reconcile_seq(pre, order@.skip(k as int), fl) == (
                                ledger_views(accounts@),
                                Some(e),
                            ));
                        }
                        return Err(e);
                    }
                    proof {
                        assert(spec_reconcile_seq(pre, order@.skip(k as int), fl)
                            == spec_reconcile_seq(
                            ledger_views(accounts@),
                            order@.skip(k + 1 as int),
                            fl,
                        ));
                    }
                },
                None => {
                    proof {
                        assert(pre.update(i as int, pre[i as int]) =~= pre);
                        assert(spec_commit_slot(pre[i as int], fl) == (pre[i as int], None::<
                            InstructionFault,
                        >));
                        assert(spec_reconcile_seq(pre, order@.skip(k as int), fl)
                            == spec_reconcile_seq(
                            ledger_views(accounts@),
                            order@.skip(k + 1 as int),
                            fl,
                        ));
                    }
                },
            }
        } else {
            proof {
                assert(pre.update(i as int, pre[i as int]) =~= pre);
                assert(spec_commit_slot(pre[i as int], fl) == (pre[i as int], None::<
                    InstructionFault,
                >));
                assert(spec_reconcile_seq(pre, order@.skip(k as int), fl) == spec_reconcile_seq(
                    ledger_views(accounts@),
                    order@.skip(k + 1 as int),
                    fl,
                ));
            }
        }
        k += 1;
    }
    proof {
        assert(order@.skip(order@.len() as int) =~= Seq::<usize>::empty());
    }
    Ok(())
}

} // verus!
