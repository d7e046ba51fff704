//! The store of proposals: the proposals by id, the pending proposal of each space, the ids
//! of all pending proposals, and the executed proposals of each space.

use crate::owners::types::{Transaction, TransactionId, TransactionView};
use crate::utils::{AccountId, SpaceId};
use sp_std::collections::btree_map::BTreeMap;
use sp_std::collections::btree_set::BTreeSet;
use sp_std::vec::Vec;
use vstd::prelude::*;

verus! {

/// What the store of proposals holds.
pub struct Proposals {
    /// The id that the next proposal gets.
    pub next_tx_id: TransactionId,
    /// The proposals on record.
    pub txs: Map<TransactionId, TransactionView>,
    /// The pending proposal of each space that has one.
    pub pending_by_space: Map<SpaceId, TransactionId>,
    /// The ids of all pending proposals.
    pub pending: Set<TransactionId>,
    /// The executed proposals of each space, oldest first.
    pub executed: Map<SpaceId, Seq<TransactionId>>,
}

impl Proposals {
    /// The executed proposals of `space_id`, oldest first; none if nothing was executed.
    pub open spec fn executed_of(self, space_id: SpaceId) -> Seq<TransactionId> {
        if self.executed.contains_key(space_id) {
            self.executed[space_id]
        } else {
            Seq::empty()
        }
    }
}

/// The proposals and the indices over them.
pub struct ProposalStore {
    next_tx_id: TransactionId,
    tx_by_id: BTreeMap<TransactionId, Transaction>,
    pending_tx_id_by_space_id: BTreeMap<SpaceId, TransactionId>,
    pending_tx_ids: BTreeSet<TransactionId>,
    executed_tx_ids_by_space_id: BTreeMap<SpaceId, Vec<TransactionId>>,
}

impl View for ProposalStore {
    type V = Proposals;

    closed spec fn view(&self) -> Proposals {
        Proposals {
            next_tx_id: self.next_tx_id,
            txs: self.tx_by_id@.map_values(|t: Transaction| t@),
            pending_by_space: self.pending_tx_id_by_space_id@,
            pending: self.pending_tx_ids@,
            executed: self.executed_tx_ids_by_space_id@.map_values(|l: Vec<TransactionId>| l@),
        }
    }
}

impl ProposalStore {
    /// A store without proposals, in which ids start at 1.
    pub fn new() -> (r: ProposalStore)
        ensures
            r@ == (Proposals {
                next_tx_id: 1,
                txs: Map::empty(),
                pending_by_space: Map::empty(),
                pending: Set::empty(),
                executed: Map::empty(),
            }),
    {
        let r = ProposalStore {
            next_tx_id: 1,
            tx_by_id: BTreeMap::new(),
            pending_tx_id_by_space_id: BTreeMap::new(),
            pending_tx_ids: BTreeSet::new(),
            executed_tx_ids_by_space_id: BTreeMap::new(),
        };
        proof {
            assert(r@.txs =~= Map::empty());
            assert(r@.executed =~= Map::empty());
        }
        r
    }

    /// The id that the next proposal gets.
    pub fn next_tx_id(&self) -> (r: TransactionId)
        ensures
            r == self@.next_tx_id,
    {
        self.next_tx_id
    }

    /// Gives out the next id.
    pub fn take_next_tx_id(&mut self) -> (r: TransactionId)
        requires
            old(self)@.next_tx_id < u64::MAX,
        ensures
            r == old(self)@.next_tx_id,
            final(self)@ == (Proposals { next_tx_id: (r + 1) as TransactionId, ..old(self)@ }),
    {
        let r = self.next_tx_id;
        self.next_tx_id = r + 1;
        r
    }

    /// The proposal `tx_id`, if it is on record.
    pub fn get(&self, tx_id: TransactionId) -> (r: Option<&Transaction>)
        ensures
            r is Some <==> self@.txs.contains_key(tx_id),
            r matches Some(tx) ==> tx@ == self@.txs[tx_id],
    {
        self.tx_by_id.get(&tx_id)
    }

    /// Puts `tx` on record under `tx_id`.
    pub fn put(&mut self, tx_id: TransactionId, tx: Transaction)
        ensures
            final(self)@ == (Proposals { txs: old(self)@.txs.insert(tx_id, tx@), ..old(self)@ }),
    {
        self.tx_by_id.insert(tx_id, tx);
        proof {
            assert(self@.txs =~= old(self)@.txs.insert(tx_id, tx@));
        }
    }

    /// Adds `who` to the confirmations of the proposal `tx_id` and tells how many there are
    /// now.
    pub fn add_confirmation(&mut self, tx_id: TransactionId, who: AccountId) -> (count: usize)
        requires
            old(self)@.txs.contains_key(tx_id),
        ensures
            count == old(self)@.txs[tx_id].confirmed_by.len() + 1,
            final(self)@ == (Proposals {
                txs: old(self)@.txs.insert(
                    tx_id,
                    TransactionView {
                        confirmed_by: old(self)@.txs[tx_id].confirmed_by.push(who),
                        ..old(self)@.txs[tx_id]
                    },
                ),
                ..old(self)@
            }),
    {
        let mut tx = self.tx_by_id.remove(&tx_id).unwrap();
        tx.confirmed_by.push(who);
        let count = tx.confirmed_by.len();
        self.tx_by_id.insert(tx_id, tx);
        proof {
            assert(self@.txs =~= old(self)@.txs.insert(
                tx_id,
                TransactionView {
                    confirmed_by: old(self)@.txs[tx_id].confirmed_by.push(who),
                    ..old(self)@.txs[tx_id]
                },
            ));
        }
        count
    }

    /// Takes the proposal `tx_id` off the record.
    pub fn remove(&mut self, tx_id: TransactionId)
        ensures
            final(self)@ == (Proposals { txs: old(self)@.txs.remove(tx_id), ..old(self)@ }),
    {
        self.tx_by_id.remove(&tx_id);
        proof {
            assert(self@.txs =~= old(self)@.txs.remove(tx_id));
        }
    }

    /// The pending proposal of `space_id`, if it has one.
    pub fn pending_for(&self, space_id: SpaceId) -> (r: Option<TransactionId>)
        ensures
            r is Some <==> self@.pending_by_space.contains_key(space_id),
            r matches Some(id) ==> id == self@.pending_by_space[space_id],
    {
        match self.pending_tx_id_by_space_id.get(&space_id) {
            Some(id) => Some(*id),
            None => None,
        }
    }

    /// Makes `tx_id` the pending proposal of `space_id` and one of the pending ids.
    pub fn set_pending(&mut self, space_id: SpaceId, tx_id: TransactionId)
        ensures
            final(self)@ == (Proposals {
                pending_by_space: old(self)@.pending_by_space.insert(space_id, tx_id),
                pending: old(self)@.pending.insert(tx_id),
                ..old(self)@
            }),
    {
        self.pending_tx_id_by_space_id.insert(space_id, tx_id);
        self.pending_tx_ids.insert(tx_id);
    }

    /// Leaves `space_id` without pending proposal; the proposal that was pending for it is
    /// no longer one of the pending ids.
    pub fn clear_pending(&mut self, space_id: SpaceId)
        ensures
            final(self)@ == (if old(self)@.pending_by_space.contains_key(space_id) {
                Proposals {
                    pending_by_space: old(self)@.pending_by_space.remove(space_id),
                    pending: old(self)@.pending.remove(old(self)@.pending_by_space[space_id]),
                    ..old(self)@
                }
            } else {
                old(self)@
            }),
    {
        match self.pending_tx_id_by_space_id.remove(&space_id) {
            Some(tx_id) => {
                self.pending_tx_ids.remove(&tx_id);
            },
            None => {
                proof {
                    assert(self@.pending_by_space =~= old(self)@.pending_by_space);
                }
            },
        }
    }

    /// The ids of all pending proposals.
    pub fn all_pending(&self) -> (r: BTreeSet<TransactionId>)
        ensures
            r@ == self@.pending,
    {
        self.pending_tx_ids.clone()
    }

    /// The executed proposals of `space_id`, oldest first.
    pub fn history(&self, space_id: SpaceId) -> (r: Vec<TransactionId>)
        ensures
            r@ == self@.executed_of(space_id),
    {
        match self.executed_tx_ids_by_space_id.get(&space_id) {
            Some(ids) => {
                let r = ids.clone();
                proof {
                    assert(r@ =~= ids@);
                }
                r
            },
            None => Vec::new(),
        }
    }

    /// Adds `tx_id` as the latest of the executed proposals of `space_id`.
    pub fn append_history(&mut self, space_id: SpaceId, tx_id: TransactionId)
        ensures
            final(self)@ == (Proposals {
                executed: old(self)@.executed.insert(
                    space_id,
                    old(self)@.executed_of(space_id).push(tx_id),
                ),
                ..old(self)@
            }),
    {
        let mut executed = match self.executed_tx_ids_by_space_id.remove(&space_id) {
            Some(executed) => executed,
            None => Vec::new(),
        };
        executed.push(tx_id);
        self.executed_tx_ids_by_space_id.insert(space_id, executed);
        proof {
            assert(self@.executed =~= old(self)@.executed.insert(
                space_id,
                old(self)@.executed_of(space_id).push(tx_id),
            ));
        }
    }
}

} // verus!
