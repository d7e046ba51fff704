use space_owners::owners::engine::{Module, SpaceOwnersShared};
use space_owners::owners::types::{Config, Error, Event};
use space_owners::utils::WhoAndWhen;

const A: u64 = 1;
const B: u64 = 2;
const C: u64 = 3;
const D: u64 = 4;

fn config() -> Config {
    Config {
        min_space_owners: 1,
        max_space_owners: 1000,
        max_tx_notes_length: 1024,
        blocks_to_live: 100,
        clean_expired_txs_period: 1,
    }
}

fn at(account: u64, block: u64) -> WhoAndWhen {
    WhoAndWhen::new(account, block, block * 6000)
}

fn module_with_space_7() -> Module {
    let mut module = Module::new(config()).unwrap();
    let created = module.create_space_owners(at(A, 1), 7, vec![A, B, C], 2);
    assert_eq!(created, Ok(Event::SpaceOwnersCreated(A, 7)));
    module
}

#[test]
fn quorum_executes_the_proposal() {
    let mut module = module_with_space_7();
    let proposed = module.propose_change(at(A, 2), 7, vec![D], vec![], None, vec![]);
    assert_eq!(proposed, Ok(Event::ChangeProposed(A, 7, 1)));
    assert_eq!(module.pending_tx_id_by_space_id(7), Some(1));
    assert_eq!(module.tx_by_id(1).unwrap().confirmed_by, vec![A]);

    let confirmed = module.confirm_change(B, 7, 1);
    assert_eq!(
        confirmed,
        Ok(vec![Event::SpaceOwnersUpdated(B, 7, 1), Event::ChangeConfirmed(B, 7, 1)])
    );
    let set = module.space_owners_by_space_id(7).unwrap();
    assert_eq!(set.owners, vec![A, B, C, D]);
    assert_eq!(set.threshold, 2);
    assert_eq!(set.changes_count, 1);
    assert_eq!(module.pending_tx_id_by_space_id(7), None);
    assert!(module.pending_tx_ids().is_empty());
    assert_eq!(module.executed_tx_ids_by_space_id(7), vec![1]);
    assert_eq!(module.tx_by_id(1).unwrap().confirmed_by, vec![A, B]);
    assert!(module.is_account_a_space_owner(&D, 7));
}

#[test]
fn threshold_above_resulting_owners_is_refused() {
    let mut module = module_with_space_7();
    let proposed = module.propose_change(at(A, 2), 7, vec![], vec![B], Some(3), vec![]);
    assert_eq!(proposed, Err(Error::TooBigThreshold));
    assert_eq!(module.next_tx_id(), 1);
    assert_eq!(module.pending_tx_id_by_space_id(7), None);
    assert!(module.pending_tx_ids().is_empty());
    assert!(module.tx_by_id(1).is_none());
    let set = module.space_owners_by_space_id(7).unwrap();
    assert_eq!(set.owners, vec![A, B, C]);
    assert_eq!(set.threshold, 2);
    assert_eq!(set.changes_count, 0);
}

#[test]
fn only_the_proposer_cancels() {
    let mut module = module_with_space_7();
    let proposed = module.propose_change(at(A, 2), 7, vec![D], vec![], None, vec![]);
    assert_eq!(proposed, Ok(Event::ChangeProposed(A, 7, 1)));

    assert_eq!(module.cancel_proposal(C, 7, 1), Err(Error::NotAProposalCreator));
    assert_eq!(module.pending_tx_id_by_space_id(7), Some(1));
    assert!(module.tx_by_id(1).is_some());

    assert_eq!(module.cancel_proposal(A, 7, 1), Ok(Event::ProposalCanceled(A, 7)));
    assert!(module.tx_by_id(1).is_none());
    assert_eq!(module.pending_tx_id_by_space_id(7), None);
    assert!(module.pending_tx_ids().is_empty());
    assert!(module.executed_tx_ids_by_space_id(7).is_empty());
    assert_eq!(module.space_owners_by_space_id(7).unwrap().changes_count, 0);
}

#[test]
fn proposal_expires_at_its_block() {
    let mut module = module_with_space_7();
    let proposed = module.propose_change(at(A, 10), 7, vec![D], vec![], None, vec![]);
    assert_eq!(proposed, Ok(Event::ChangeProposed(A, 7, 1)));
    assert_eq!(module.tx_by_id(1).unwrap().expires_at, 110);

    module.clean_pending_txs(109);
    assert_eq!(module.pending_tx_id_by_space_id(7), Some(1));
    assert!(module.pending_tx_ids().contains(&1));
    assert!(module.tx_by_id(1).is_some());

    module.clean_pending_txs(111);
    assert_eq!(module.pending_tx_id_by_space_id(7), None);
    assert!(module.pending_tx_ids().is_empty());
    assert!(module.tx_by_id(1).is_none());
    assert!(module.executed_tx_ids_by_space_id(7).is_empty());
}

#[test]
fn proposal_expires_in_the_block_of_its_expiry() {
    let mut module = module_with_space_7();
    module.propose_change(at(A, 10), 7, vec![D], vec![], None, vec![]).unwrap();
    module.clean_pending_txs(110);
    assert_eq!(module.pending_tx_id_by_space_id(7), None);
    assert!(module.tx_by_id(1).is_none());
}

#[test]
fn cleaning_twice_changes_nothing_more() {
    let mut module = module_with_space_7();
    module.create_space_owners(at(B, 1), 8, vec![B], 1).unwrap();
    module.propose_change(at(A, 10), 7, vec![D], vec![], None, vec![]).unwrap();
    module.propose_change(at(B, 50), 8, vec![D], vec![], None, vec![]).unwrap();

    module.clean_pending_txs(120);
    assert_eq!(module.pending_tx_id_by_space_id(7), None);
    assert_eq!(module.pending_tx_id_by_space_id(8), Some(2));
    assert!(module.tx_by_id(1).is_none());
    assert!(module.tx_by_id(2).is_some());
    let pending: Vec<u64> = module.pending_tx_ids().into_iter().collect();
    assert_eq!(pending, vec![2]);

    module.clean_pending_txs(120);
    assert_eq!(module.pending_tx_id_by_space_id(7), None);
    assert_eq!(module.pending_tx_id_by_space_id(8), Some(2));
    assert!(module.tx_by_id(2).is_some());
    let pending: Vec<u64> = module.pending_tx_ids().into_iter().collect();
    assert_eq!(pending, vec![2]);
    assert_eq!(module.next_tx_id(), 3);
}

#[test]
fn cleaning_with_nothing_pending_is_no_failure() {
    let mut module = module_with_space_7();
    module.clean_pending_txs(1_000_000);
    assert_eq!(module.space_owners_by_space_id(7).unwrap().owners, vec![A, B, C]);
    assert_eq!(module.next_tx_id(), 1);
}

#[test]
fn on_finalize_cleans_every_period() {
    let mut cfg = config();
    cfg.clean_expired_txs_period = 10;
    let mut module = Module::new(cfg).unwrap();
    module.create_space_owners(at(A, 1), 7, vec![A, B], 2).unwrap();
    module.propose_change(at(A, 1), 7, vec![C], vec![], None, vec![]).unwrap();
    assert_eq!(module.tx_by_id(1).unwrap().expires_at, 101);

    module.on_finalize(105);
    assert_eq!(module.pending_tx_id_by_space_id(7), Some(1));
    module.on_finalize(100);
    assert_eq!(module.pending_tx_id_by_space_id(7), Some(1));
    module.on_finalize(110);
    assert_eq!(module.pending_tx_id_by_space_id(7), None);
    assert!(module.tx_by_id(1).is_none());
}

#[test]
fn a_space_is_free_for_a_new_proposal_after_expiry() {
    let mut module = module_with_space_7();
    module.propose_change(at(A, 10), 7, vec![D], vec![], None, vec![]).unwrap();
    assert_eq!(
        module.propose_change(at(B, 11), 7, vec![D], vec![], None, vec![]),
        Err(Error::PendingTxAlreadyExists)
    );
    module.clean_pending_txs(110);
    assert_eq!(
        module.propose_change(at(B, 111), 7, vec![D], vec![], None, vec![]),
        Ok(Event::ChangeProposed(B, 7, 2))
    );
    assert_eq!(module.pending_tx_id_by_space_id(7), Some(2));
    assert_eq!(module.tx_by_id(2).unwrap().id, 2);
}

#[test]
fn confirmations_below_the_threshold_keep_the_proposal_pending() {
    let mut module = Module::new(config()).unwrap();
    module.create_space_owners(at(A, 1), 7, vec![A, B, C], 3).unwrap();
    module.propose_change(at(A, 2), 7, vec![], vec![C], Some(2), vec![1, 2, 3]).unwrap();
    assert_eq!(module.confirm_change(B, 7, 1), Ok(vec![Event::ChangeConfirmed(B, 7, 1)]));
    assert_eq!(module.tx_by_id(1).unwrap().confirmed_by, vec![A, B]);
    assert_eq!(module.pending_tx_id_by_space_id(7), Some(1));
    assert_eq!(module.space_owners_by_space_id(7).unwrap().owners, vec![A, B, C]);

    assert_eq!(module.confirm_change(B, 7, 1), Err(Error::TxAlreadyConfirmed));
    assert_eq!(module.confirm_change(A, 7, 1), Err(Error::TxAlreadyConfirmed));
    assert_eq!(module.tx_by_id(1).unwrap().confirmed_by, vec![A, B]);

    assert_eq!(
        module.confirm_change(C, 7, 1),
        Ok(vec![Event::SpaceOwnersUpdated(C, 7, 1), Event::ChangeConfirmed(C, 7, 1)])
    );
    let set = module.space_owners_by_space_id(7).unwrap();
    assert_eq!(set.owners, vec![A, B]);
    assert_eq!(set.threshold, 2);
    assert_eq!(set.changes_count, 1);
    assert!(!module.is_account_a_space_owner(&C, 7));
    assert!(module.is_account_a_space_owner(&A, 7));
    assert_eq!(module.tx_by_id(1).unwrap().confirmed_by, vec![A, B, C]);
    assert_eq!(module.tx_by_id(1).unwrap().notes, vec![1, 2, 3]);

    assert_eq!(module.confirm_change(A, 7, 1), Err(Error::PendingTxDoesNotExist));
    assert_eq!(module.space_owners_by_space_id(7).unwrap().changes_count, 1);
}

#[test]
fn changes_are_counted_one_by_one() {
    let mut module = module_with_space_7();
    module.propose_change(at(A, 2), 7, vec![D], vec![], None, vec![]).unwrap();
    module.confirm_change(B, 7, 1).unwrap();
    module.propose_change(at(D, 3), 7, vec![], vec![A], None, vec![]).unwrap();
    module.confirm_change(C, 7, 2).unwrap();
    let set = module.space_owners_by_space_id(7).unwrap();
    assert_eq!(set.owners, vec![B, C, D]);
    assert_eq!(set.changes_count, 2);
    assert_eq!(module.executed_tx_ids_by_space_id(7), vec![1, 2]);
    assert_eq!(module.next_tx_id(), 3);
    let of_a: Vec<u64> = module.space_ids_owned_by_account_id(A).into_iter().collect();
    assert!(of_a.is_empty());
    let of_d: Vec<u64> = module.space_ids_owned_by_account_id(D).into_iter().collect();
    assert_eq!(of_d, vec![7]);
}

#[test]
fn a_removed_owner_that_is_added_again_comes_last() {
    let mut module = module_with_space_7();
    module.propose_change(at(A, 2), 7, vec![A, D, D], vec![A, B], None, vec![]).unwrap();
    module.confirm_change(C, 7, 1).unwrap();
    assert_eq!(module.space_owners_by_space_id(7).unwrap().owners, vec![C, A, D]);
    assert!(module.is_account_a_space_owner(&A, 7));
    assert!(!module.is_account_a_space_owner(&B, 7));
}
