use trident_stubs::account::reconcile_account;
use trident_stubs::account::FlatAccount;
use trident_stubs::account::LedgerAccount;
use trident_stubs::errors::InstructionFault;
use trident_stubs::reconcile::dedup_indices;
use trident_stubs::reconcile::reconcile_accounts;

fn ledger(
    key: u64,
    lamports: u64,
    owner: u64,
    data: Vec<u8>,
    is_writable: bool,
    is_executable: bool,
    data_limit: usize,
) -> LedgerAccount {
    LedgerAccount {
        key,
        lamports,
        owner,
        data,
        is_signer: false,
        is_writable,
        is_executable,
        data_limit,
    }
}

fn flat(key: u64, lamports: u64, owner: u64, data: Vec<u8>) -> FlatAccount {
    FlatAccount { key, lamports, owner, data }
}

#[test]
fn writable_account_commits_exactly() {
    let mut slot = ledger(1, 100, 7, vec![1, 2, 3], true, false, 16);
    let view = flat(1, 250, 9, vec![4, 5, 6, 7]);
    assert!(reconcile_account(&mut slot, &view).is_ok());
    assert_eq!(slot.lamports, 250);
    assert_eq!(slot.owner, 9);
    assert_eq!(slot.data, vec![4, 5, 6, 7]);
    assert_eq!(slot.key, 1);
    assert!(slot.is_writable);
}

#[test]
fn readonly_account_rejects_lamport_change() {
    let mut slot = ledger(1, 100, 7, vec![1, 2, 3], false, false, 16);
    let view = flat(1, 250, 7, vec![1, 2, 3]);
    assert_eq!(
        reconcile_account(&mut slot, &view),
        Err(InstructionFault::ReadonlyLamportChange)
    );
    assert_eq!(slot.lamports, 100);
}

#[test]
fn readonly_account_is_never_committed() {
    let mut accounts = vec![ledger(1, 100, 7, vec![1, 2, 3], false, false, 16)];
    let order = vec![0usize];
    let flats = vec![flat(1, 999, 8, vec![9, 9])];
    assert!(reconcile_accounts(&mut accounts, &order, &flats).is_ok());
    assert_eq!(accounts[0].lamports, 100);
    assert_eq!(accounts[0].owner, 7);
    assert_eq!(accounts[0].data, vec![1, 2, 3]);
}

#[test]
fn agreeing_noop_on_guarded_account_is_ok() {
    let mut slot = ledger(1, 100, 7, vec![1, 2, 3], true, true, 3);
    let view = flat(1, 100, 7, vec![1, 2, 3]);
    assert!(reconcile_account(&mut slot, &view).is_ok());
    assert_eq!(slot.data, vec![1, 2, 3]);
}

#[test]
fn duplicate_references_dedup_to_first_occurrences() {
    let order = vec![2usize, 0, 2, 1, 0, 1];
    assert_eq!(dedup_indices(&order), vec![2usize, 0, 1]);
}

#[test]
fn second_reconcile_is_a_noop() {
    let mut slot = ledger(1, 100, 7, vec![1, 2, 3], true, false, 16);
    let view = flat(1, 250, 9, vec![4, 5, 6, 7]);
    assert!(reconcile_account(&mut slot, &view).is_ok());
    let lamports = slot.lamports;
    let owner = slot.owner;
    let data = slot.data.clone();
    assert!(reconcile_account(&mut slot, &view).is_ok());
    assert_eq!(slot.lamports, lamports);
    assert_eq!(slot.owner, owner);
    assert_eq!(slot.data, data);
}

#[test]
fn resize_within_headroom_commits_new_length() {
    let mut accounts = vec![ledger(1, 10, 7, vec![1, 2, 3], true, false, 7)];
    let order = vec![0usize];
    let flats = vec![flat(1, 10, 7, vec![1, 2, 3, 4, 5, 6, 7])];
    assert!(reconcile_accounts(&mut accounts, &order, &flats).is_ok());
    assert_eq!(accounts[0].data.len(), 7);
    assert_eq!(accounts[0].data, vec![1, 2, 3, 4, 5, 6, 7]);
}

#[test]
fn resize_beyond_headroom_fails_and_keeps_earlier_commits() {
    let mut accounts = vec![
        ledger(1, 10, 7, vec![1], true, false, 4),
        ledger(2, 20, 7, vec![2], true, false, 2),
    ];
    let order = vec![0usize, 1];
    let flats = vec![flat(1, 11, 7, vec![1, 1, 1]), flat(2, 22, 7, vec![2, 2, 2])];
    assert_eq!(
        reconcile_accounts(&mut accounts, &order, &flats),
        Err(InstructionFault::InvalidRealloc)
    );
    // The first slot was processed before the fault and stays committed.
    assert_eq!(accounts[0].lamports, 11);
    assert_eq!(accounts[0].data, vec![1, 1, 1]);
    // The failing slot had its lamports copied before the data guard fired:
    // there is no rollback of fields already copied.
    assert_eq!(accounts[1].lamports, 22);
    assert_eq!(accounts[1].data, vec![2]);
}

#[test]
fn executable_data_change_is_rejected() {
    let mut slot = ledger(1, 100, 7, vec![1, 2, 3], true, true, 16);
    let view = flat(1, 100, 7, vec![9, 9, 9]);
    assert_eq!(
        reconcile_account(&mut slot, &view),
        Err(InstructionFault::ExecutableDataModified)
    );
    assert_eq!(slot.data, vec![1, 2, 3]);
}

#[test]
fn owner_changes_last_after_lamports_and_data() {
    let mut slot = ledger(1, 5, 7, vec![1], true, false, 8);
    let view = flat(1, 6, 8, vec![1, 2]);
    assert!(reconcile_account(&mut slot, &view).is_ok());
    assert_eq!((slot.lamports, slot.owner), (6, 8));
    assert_eq!(slot.data, vec![1, 2]);
}

#[test]
fn unmatched_account_is_left_alone() {
    let mut accounts = vec![ledger(5, 50, 7, vec![5], true, false, 8)];
    let order = vec![0usize];
    let flats = vec![flat(6, 60, 8, vec![6])];
    assert!(reconcile_accounts(&mut accounts, &order, &flats).is_ok());
    assert_eq!(accounts[0].lamports, 50);
    assert_eq!(accounts[0].data, vec![5]);
}

#[test]
fn last_flat_record_with_key_wins() {
    let mut accounts = vec![ledger(1, 10, 7, vec![0], true, false, 8)];
    let order = vec![0usize];
    let flats = vec![flat(1, 111, 7, vec![1]), flat(1, 222, 7, vec![2])];
    assert!(reconcile_accounts(&mut accounts, &order, &flats).is_ok());
    assert_eq!(accounts[0].lamports, 222);
    assert_eq!(accounts[0].data, vec![2]);
}
