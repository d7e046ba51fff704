use space_owners::owners::proposals::ProposalStore;
use space_owners::owners::records::OwnershipRecords;
use space_owners::owners::types::{SpaceOwners, Transaction};
use space_owners::utils::WhoAndWhen;

fn owner_set(space_id: u64, owners: Vec<u64>, threshold: u16) -> SpaceOwners {
    SpaceOwners {
        created: WhoAndWhen::new(owners[0], 1, 1000),
        space_id,
        owners,
        threshold,
        changes_count: 0,
    }
}

fn proposal(id: u64, space_id: u64, by: u64) -> Transaction {
    Transaction {
        created: WhoAndWhen::new(by, 1, 1000),
        id,
        space_id,
        add_owners: vec![9],
        remove_owners: vec![],
        new_threshold: None,
        notes: vec![],
        confirmed_by: vec![by],
        expires_at: 101,
    }
}

#[test]
fn the_index_follows_every_owner_set_that_is_written() {
    let mut records = OwnershipRecords::new();
    assert!(records.get(7).is_none());
    assert!(!records.is_member(&1, 7));

    records.put(7, owner_set(7, vec![1, 2, 3], 2));
    records.put(8, owner_set(8, vec![2], 1));
    assert_eq!(records.get(7).unwrap().owners, vec![1, 2, 3]);
    assert_eq!(records.get(7).unwrap().threshold, 2);
    assert!(records.is_member(&1, 7));
    assert!(records.is_member(&2, 7));
    assert!(records.is_member(&2, 8));
    assert!(!records.is_member(&1, 8));
    let of_2: Vec<u64> = records.spaces_of(2).into_iter().collect();
    assert_eq!(of_2, vec![7, 8]);

    records.put(7, owner_set(7, vec![3, 4], 1));
    assert_eq!(records.get(7).unwrap().owners, vec![3, 4]);
    assert!(!records.is_member(&1, 7));
    assert!(!records.is_member(&2, 7));
    assert!(records.is_member(&3, 7));
    assert!(records.is_member(&4, 7));
    assert!(records.is_member(&2, 8));
    let of_2: Vec<u64> = records.spaces_of(2).into_iter().collect();
    assert_eq!(of_2, vec![8]);
    assert!(records.spaces_of(1).is_empty());
    assert!(records.spaces_of(99).is_empty());
}

#[test]
fn proposals_are_kept_by_id() {
    let mut store = ProposalStore::new();
    assert_eq!(store.next_tx_id(), 1);
    assert!(store.get(1).is_none());
    assert_eq!(store.take_next_tx_id(), 1);
    assert_eq!(store.take_next_tx_id(), 2);
    assert_eq!(store.next_tx_id(), 3);

    store.put(1, proposal(1, 7, 5));
    store.put(2, proposal(2, 8, 6));
    assert_eq!(store.get(1).unwrap().space_id, 7);
    assert_eq!(store.get(2).unwrap().created.account, 6);

    assert_eq!(store.add_confirmation(1, 4), 2);
    assert_eq!(store.add_confirmation(1, 3), 3);
    assert_eq!(store.get(1).unwrap().confirmed_by, vec![5, 4, 3]);
    assert_eq!(store.get(2).unwrap().confirmed_by, vec![6]);

    store.remove(1);
    assert!(store.get(1).is_none());
    assert!(store.get(2).is_some());
    store.remove(1);
    assert!(store.get(2).is_some());
    assert_eq!(store.next_tx_id(), 3);
}

#[test]
fn pending_proposals_are_tracked_by_space_and_by_id() {
    let mut store = ProposalStore::new();
    assert_eq!(store.pending_for(7), None);
    assert!(store.all_pending().is_empty());

    store.set_pending(7, 1);
    store.set_pending(8, 2);
    assert_eq!(store.pending_for(7), Some(1));
    assert_eq!(store.pending_for(8), Some(2));
    let all: Vec<u64> = store.all_pending().into_iter().collect();
    assert_eq!(all, vec![1, 2]);

    store.clear_pending(7);
    assert_eq!(store.pending_for(7), None);
    assert_eq!(store.pending_for(8), Some(2));
    let all: Vec<u64> = store.all_pending().into_iter().collect();
    assert_eq!(all, vec![2]);

    store.clear_pending(7);
    store.clear_pending(9);
    let all: Vec<u64> = store.all_pending().into_iter().collect();
    assert_eq!(all, vec![2]);
}

#[test]
fn executed_proposals_are_listed_oldest_first() {
    let mut store = ProposalStore::new();
    assert!(store.history(7).is_empty());
    store.append_history(7, 3);
    store.append_history(8, 4);
    store.append_history(7, 5);
    assert_eq!(store.history(7), vec![3, 5]);
    assert_eq!(store.history(8), vec![4]);
    assert!(store.history(9).is_empty());
}
