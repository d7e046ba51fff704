//! What the owners module knows at one moment, and how each operation changes it.
//!
//! `State` is the mathematical content of a `Module`. Each operation is given here as a pair
//! of functions: one tells which error the operation reports, if any, the other what the
//! state is after a success. A refused operation leaves the state as it was.

use crate::owners::owner_list::{resulting_owners, unique};
use crate::owners::types::{Config, Error, SpaceOwnersView, TransactionId, TransactionView};
use crate::utils::{AccountId, BlockNumber, SpaceId, WhoAndWhen};
use vstd::prelude::*;

verus! {

/// The pairs of an account and a space such that the account is an owner of the space.
pub open spec fn index_of(owners: Map<SpaceId, SpaceOwnersView>) -> Set<(AccountId, SpaceId)> {
    Set::new(
        |p: (AccountId, SpaceId)| owners.contains_key(p.1) && owners[p.1].owners.contains(p.0),
    )
}

/// The error of a proposal that would turn the owner set `set` into one without owners, ask
/// for a threshold that the resulting owners could not meet, or change nothing.
pub open spec fn change_error(
    set: SpaceOwnersView,
    add_owners: Seq<AccountId>,
    remove_owners: Seq<AccountId>,
    new_threshold: Option<u16>,
) -> Option<Error> {
    let result = resulting_owners(set.owners, add_owners, remove_owners);
    let threshold_changes = new_threshold is Some && new_threshold->0 != set.threshold;
    if result.len() == 0 {
        Some(Error::NoSpaceOwnersLeft)
    } else if threshold_changes && new_threshold->0 > result.len() {
        Some(Error::TooBigThreshold)
    } else if threshold_changes && new_threshold->0 == 0 {
        Some(Error::ZeroThreshold)
    } else if result == set.owners && !threshold_changes {
        Some(Error::NoFieldsUpdatedOnProposal)
    } else {
        None
    }
}

/// The owner set `set` after the proposal `tx` has taken effect.
pub open spec fn apply_change(set: SpaceOwnersView, tx: TransactionView) -> SpaceOwnersView {
    SpaceOwnersView {
        owners: resulting_owners(set.owners, tx.add_owners, tx.remove_owners),
        threshold: match tx.new_threshold {
            Some(t) => t,
            None => set.threshold,
        },
        changes_count: (set.changes_count + 1) as u64,
        ..set
    }
}

/// The owner sets, the proposals, and the indices over them.
pub struct State {
    /// The owner set of each space that has one.
    pub owners: Map<SpaceId, SpaceOwnersView>,
    /// The index from accounts to the spaces they own, as pairs.
    pub owned: Set<(AccountId, SpaceId)>,
    /// The id that the next proposal gets.
    pub next_tx_id: TransactionId,
    /// The proposals that are pending or were executed.
    pub txs: Map<TransactionId, TransactionView>,
    /// The pending proposal of each space that has one.
    pub pending_by_space: Map<SpaceId, TransactionId>,
    /// The ids of all pending proposals.
    pub pending: Set<TransactionId>,
    /// The executed proposals of each space, oldest first.
    pub executed: Map<SpaceId, Seq<TransactionId>>,
}

impl State {
    /// The state before anything has happened: ids start at 1.
    pub open spec fn init() -> State {
        State {
            owners: Map::empty(),
            owned: Set::empty(),
            next_tx_id: 1,
            txs: Map::empty(),
            pending_by_space: Map::empty(),
            pending: Set::empty(),
            executed: Map::empty(),
        }
    }

    /// The executed proposals of `space_id`, oldest first; none if nothing was executed.
    pub open spec fn executed_of(self, space_id: SpaceId) -> Seq<TransactionId> {
        if self.executed.contains_key(space_id) {
            self.executed[space_id]
        } else {
            Seq::empty()
        }
    }

    /// Whether `who` is an owner of `space_id`.
    pub open spec fn is_owner(self, who: AccountId, space_id: SpaceId) -> bool {
        self.owners.contains_key(space_id) && self.owners[space_id].owners.contains(who)
    }

    /// The owner set of `space_id` is filed under its own id, is well formed, and has counted
    /// the executed proposals of the space.
    pub open spec fn owner_set_wf(self, space_id: SpaceId) -> bool {
        let set = self.owners[space_id];
        &&& set.space_id == space_id
        &&& set.wf()
        &&& set.changes_count == self.executed_of(space_id).len()
    }

    /// The proposal `id` is filed under its own id, which has been given out, and its
    /// confirmations start with its author and name nobody twice.
    pub open spec fn tx_wf(self, id: TransactionId) -> bool {
        let tx = self.txs[id];
        &&& tx.id == id
        &&& 1 <= id < self.next_tx_id
        &&& tx.confirmed_by.len() >= 1
        &&& tx.confirmed_by[0] == tx.created.account
        &&& tx.confirmed_by.no_duplicates()
    }

    /// The pending proposal of `space_id` is on record, is for this space, is among the
    /// pending ids, and can still be applied to the owner set of the space.
    pub open spec fn pending_wf(self, space_id: SpaceId) -> bool {
        let id = self.pending_by_space[space_id];
        &&& self.txs.contains_key(id)
        &&& self.txs[id].space_id == space_id
        &&& self.pending.contains(id)
        &&& self.owners.contains_key(space_id)
        &&& change_error(
            self.owners[space_id],
            self.txs[id].add_owners,
            self.txs[id].remove_owners,
            self.txs[id].new_threshold,
        ) is None
    }

    /// The pending id `id` is on record and is the pending proposal of its space.
    pub open spec fn pending_id_wf(self, id: TransactionId) -> bool {
        &&& self.txs.contains_key(id)
        &&& self.pending_by_space.contains_key(self.txs[id].space_id)
        &&& self.pending_by_space[self.txs[id].space_id] == id
    }

    /// The executed proposals of `space_id` belong to a space with owners, are on record for
    /// this space, are no longer pending, and none is listed twice.
    pub open spec fn executed_wf(self, space_id: SpaceId) -> bool {
        let list = self.executed[space_id];
        &&& self.owners.contains_key(space_id)
        &&& list.no_duplicates()
        &&& forall|i: int|
            0 <= i < list.len() ==> {
                &&& self.txs.contains_key(#[trigger] list[i])
                &&& self.txs[list[i]].space_id == space_id
                &&& !self.pending.contains(list[i])
            }
    }

    /// What holds of the state at all times.
    pub open spec fn wf(self) -> bool {
        &&& self.next_tx_id >= 1
        &&& self.owned == index_of(self.owners)
        &&& forall|s: SpaceId| #[trigger] self.owners.contains_key(s) ==> self.owner_set_wf(s)
        &&& forall|id: TransactionId| #[trigger] self.txs.contains_key(id) ==> self.tx_wf(id)
        &&& forall|s: SpaceId| #[trigger]
            self.pending_by_space.contains_key(s) ==> self.pending_wf(s)
        &&& forall|id: TransactionId| #[trigger]
            self.pending.contains(id) ==> self.pending_id_wf(id)
        &&& forall|s: SpaceId| #[trigger] self.executed.contains_key(s) ==> self.executed_wf(s)
    }

    /// Whether the owners of every space can reach its threshold.
    pub open spec fn thresholds_in_reach(self) -> bool {
        forall|s: SpaceId| #[trigger]
            self.owners.contains_key(s) ==> self.owners[s].threshold_in_reach()
    }

    /// The error that creating an owner set for `space_id` reports, if any.
    pub open spec fn create_error(
        self,
        config: Config,
        space_id: SpaceId,
        owners: Seq<AccountId>,
        threshold: u16,
    ) -> Option<Error> {
        let count = unique(owners).len();
        if self.owners.contains_key(space_id) {
            Some(Error::SpaceOwnersAlreadyExist)
        } else if count < config.min_space_owners {
            Some(Error::NotEnoughOwners)
        } else if count > config.max_space_owners {
            Some(Error::TooManyOwners)
        } else if threshold == 0 {
            Some(Error::ZeroThreshold)
        } else if threshold > count {
            Some(Error::TooBigThreshold)
        } else {
            None
        }
    }

    /// The state after `created.account` has created the owner set of `space_id`.
    pub open spec fn create(
        self,
        created: WhoAndWhen,
        space_id: SpaceId,
        owners: Seq<AccountId>,
        threshold: u16,
    ) -> State {
        let set = SpaceOwnersView {
            created,
            space_id,
            owners: unique(owners),
            threshold,
            changes_count: 0,
        };
        let owners = self.owners.insert(space_id, set);
        State { owners, owned: index_of(owners), ..self }
    }

    /// The error that `who` gets for proposing a change to the owners of `space_id`, if any.
    pub open spec fn propose_error(
        self,
        config: Config,
        who: AccountId,
        space_id: SpaceId,
        add_owners: Seq<AccountId>,
        remove_owners: Seq<AccountId>,
        new_threshold: Option<u16>,
        notes: Seq<u8>,
    ) -> Option<Error> {
        if add_owners.len() == 0 && remove_owners.len() == 0 && new_threshold is None {
            Some(Error::NoUpdatesProposed)
        } else if notes.len() > config.max_tx_notes_length {
            Some(Error::TxNotesOversize)
        } else if !self.owners.contains_key(space_id) {
            Some(Error::SpaceOwnersNotFound)
        } else if self.pending_by_space.contains_key(space_id) {
            Some(Error::PendingTxAlreadyExists)
        } else if !self.owners[space_id].owners.contains(who) {
            Some(Error::NotASpaceOwner)
        } else {
            change_error(self.owners[space_id], add_owners, remove_owners, new_threshold)
        }
    }

    /// The proposal that `created.account` makes in block `created.block`.
    pub open spec fn new_tx(
        self,
        config: Config,
        created: WhoAndWhen,
        space_id: SpaceId,
        add_owners: Seq<AccountId>,
        remove_owners: Seq<AccountId>,
        new_threshold: Option<u16>,
        notes: Seq<u8>,
    ) -> TransactionView {
        TransactionView {
            created,
            id: self.next_tx_id,
            space_id,
            add_owners,
            remove_owners,
            new_threshold,
            notes,
            confirmed_by: seq![created.account],
            expires_at: (created.block + config.blocks_to_live) as BlockNumber,
        }
    }

    /// The state after the proposal `tx` has been filed under the next id as the pending
    /// proposal of its space.
    pub open spec fn propose(self, tx: TransactionView) -> State {
        State {
            next_tx_id: (self.next_tx_id + 1) as TransactionId,
            txs: self.txs.insert(tx.id, tx),
            pending_by_space: self.pending_by_space.insert(tx.space_id, tx.id),
            pending: self.pending.insert(tx.id),
            ..self
        }
    }

    /// The error that `who` gets for confirming the proposal `tx_id` for `space_id`, if any.
    pub open spec fn confirm_error(
        self,
        who: AccountId,
        space_id: SpaceId,
        tx_id: TransactionId,
    ) -> Option<Error> {
        if !self.owners.contains_key(space_id) {
            Some(Error::SpaceOwnersNotFound)
        } else if !self.txs.contains_key(tx_id) {
            Some(Error::TxNotFound)
        } else if !self.owners[space_id].owners.contains(who) {
            Some(Error::NotASpaceOwner)
        } else if !self.pending_by_space.contains_key(space_id) {
            Some(Error::PendingTxDoesNotExist)
        } else if self.pending_by_space[space_id] != tx_id {
            Some(Error::TxNotRelatedToSpace)
        } else if self.txs[tx_id].confirmed_by.contains(who) {
            Some(Error::TxAlreadyConfirmed)
        } else {
            None
        }
    }

    /// Whether one more confirmation of `tx_id` makes as many as the threshold of `space_id`
    /// asks for.
    pub open spec fn reaches_quorum(self, space_id: SpaceId, tx_id: TransactionId) -> bool {
        self.txs[tx_id].confirmed_by.len() + 1 == self.owners[space_id].threshold
    }

    /// The state after `who` has been added to the confirmations of `tx_id`.
    pub open spec fn record_confirmation(self, who: AccountId, tx_id: TransactionId) -> State {
        let tx = TransactionView {
            confirmed_by: self.txs[tx_id].confirmed_by.push(who),
            ..self.txs[tx_id]
        };
        State { txs: self.txs.insert(tx_id, tx), ..self }
    }

    /// The state after the pending proposal `tx_id` of `space_id` has taken effect: the owner
    /// set is changed and has counted the change, the space has no pending proposal, and the
    /// proposal is the last of the executed ones of the space.
    pub open spec fn execute(self, space_id: SpaceId, tx_id: TransactionId) -> State {
        let owners = self.owners.insert(
            space_id,
            apply_change(self.owners[space_id], self.txs[tx_id]),
        );
        State {
            owners,
            owned: index_of(owners),
            pending_by_space: self.pending_by_space.remove(space_id),
            pending: self.pending.remove(tx_id),
            executed: self.executed.insert(space_id, self.executed_of(space_id).push(tx_id)),
            ..self
        }
    }

    /// The state after `who` has confirmed the proposal `tx_id` for `space_id`: the
    /// confirmation is recorded, and the proposal takes effect if that was the last one
    /// needed.
    pub open spec fn confirm(
        self,
        who: AccountId,
        space_id: SpaceId,
        tx_id: TransactionId,
    ) -> State {
        if self.reaches_quorum(space_id, tx_id) {
            self.record_confirmation(who, tx_id).execute(space_id, tx_id)
        } else {
            self.record_confirmation(who, tx_id)
        }
    }

    /// The error that `who` gets for withdrawing the proposal `tx_id` for `space_id`, if any.
    pub open spec fn cancel_error(
        self,
        who: AccountId,
        space_id: SpaceId,
        tx_id: TransactionId,
    ) -> Option<Error> {
        if !self.owners.contains_key(space_id) {
            Some(Error::SpaceOwnersNotFound)
        } else if !self.owners[space_id].owners.contains(who) {
            Some(Error::NotASpaceOwner)
        } else if !self.pending_by_space.contains_key(space_id) {
            Some(Error::PendingTxDoesNotExist)
        } else if self.pending_by_space[space_id] != tx_id {
            Some(Error::TxNotRelatedToSpace)
        } else if self.txs[tx_id].created.account != who {
            Some(Error::NotAProposalCreator)
        } else {
            None
        }
    }

    /// The state after the pending proposal `tx_id` of `space_id` has been withdrawn: no
    /// record of it is left.
    pub open spec fn cancel(self, space_id: SpaceId, tx_id: TransactionId) -> State {
        State {
            txs: self.txs.remove(tx_id),
            pending_by_space: self.pending_by_space.remove(space_id),
            pending: self.pending.remove(tx_id),
            ..self
        }
    }

    /// The pending proposals that have expired by block `now`.
    pub open spec fn expired(self, now: BlockNumber) -> Set<TransactionId> {
        Set::new(
            |id: TransactionId|
                self.pending.contains(id) && self.txs.contains_key(id) && self.txs[id].expires_at
                    <= now,
        )
    }

    /// The state without the pending proposals `gone`: their records are removed, they are
    /// no longer pending, and their spaces have no pending proposal.
    pub open spec fn drop_pending(self, gone: Set<TransactionId>) -> State {
        State {
            txs: self.txs.remove_keys(gone),
            pending_by_space: Map::new(
                |s: SpaceId|
                    self.pending_by_space.contains_key(s) && !gone.contains(
                        self.pending_by_space[s],
                    ),
                |s: SpaceId| self.pending_by_space[s],
            ),
            pending: self.pending.difference(gone),
            ..self
        }
    }

    /// The state after the pending proposals that have expired by block `now` were removed.
    pub open spec fn clean_pending_txs(self, now: BlockNumber) -> State {
        self.drop_pending(self.expired(now))
    }
}

} // verus!
