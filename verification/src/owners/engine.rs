//! The owners module: it owns the store of owner sets and the store of proposals, and
//! carries out the operations on them.

use crate::owners::laws::{
    lemma_cancel_is_drop, lemma_cancel_wf, lemma_changes_count_has_room, lemma_create_wf,
    lemma_drop_nothing, lemma_drop_pending_twice, lemma_drop_pending_wf, lemma_execute_wf,
    lemma_init_wf, lemma_propose_wf, lemma_record_confirmation_wf,
};
use crate::owners::owner_list::{
    is_listed, lemma_push_contains, same_list, transform_new_owners_to_vec, unique_owners,
};
use crate::owners::proposals::ProposalStore;
use crate::owners::records::OwnershipRecords;
use crate::owners::state::State;
use crate::owners::types::{Config, Error, Event, SpaceOwners, Transaction, TransactionId};
use crate::utils::{AccountId, BlockNumber, SpaceId, WhoAndWhen};
use sp_std::collections::btree_set::BTreeSet;
use sp_std::vec::Vec;
use vstd::prelude::*;
use vstd::std_specs::iter::IteratorSpec;

verus! {

/// What a confirmation reports: that the change took effect, if it did, and that it was
/// confirmed.
pub open spec fn confirm_events(
    executed: bool,
    who: AccountId,
    space_id: SpaceId,
    tx_id: TransactionId,
) -> Seq<Event> {
    if executed {
        seq![
            Event::SpaceOwnersUpdated(who, space_id, tx_id),
            Event::ChangeConfirmed(who, space_id, tx_id),
        ]
    } else {
        seq![Event::ChangeConfirmed(who, space_id, tx_id)]
    }
}

/// The owner sets of all spaces, the proposals to change them, and the limits that hold for
/// them.
pub struct Module {
    config: Config,
    records: OwnershipRecords,
    proposals: ProposalStore,
}

impl View for Module {
    type V = State;

    closed spec fn view(&self) -> State {
        State {
            owners: self.records@.owners,
            owned: self.records@.owned,
            next_tx_id: self.proposals@.next_tx_id,
            txs: self.proposals@.txs,
            pending_by_space: self.proposals@.pending_by_space,
            pending: self.proposals@.pending,
            executed: self.proposals@.executed,
        }
    }
}

impl Module {
    /// The limits that this module works under.
    pub closed spec fn spec_config(&self) -> Config {
        self.config
    }

    /// The module can be used: its limits are valid and its state is well formed.
    pub open spec fn wf(&self) -> bool {
        &&& self.spec_config().valid()
        &&& self@.wf()
    }

    /// A module without owner sets and proposals, under the limits `config`. There is none
    /// for limits that are not valid.
    pub fn new(config: Config) -> (r: Option<Module>)
        ensures
            r is Some <==> config.valid(),
            r matches Some(m) ==> m.wf() && m.spec_config() == config && m@ == State::init(),
    {
        if config.clean_expired_txs_period == 0 {
            return None;
        }
        let m = Module {
            config,
            records: OwnershipRecords::new(),
            proposals: ProposalStore::new(),
        };
        proof {
            lemma_init_wf();
            assert(m@.owned =~= State::init().owned);
        }
        Some(m)
    }

    /// The limits that this module works under.
    #[verifier::when_used_as_spec(spec_config)]
    pub fn config(&self) -> (r: Config)
        ensures
            r == self.spec_config(),
    {
        self.config
    }

    /// The owner set of `space_id`, if it has one.
    pub fn space_owners_by_space_id(&self, space_id: SpaceId) -> (r: Option<&SpaceOwners>)
        ensures
            r is Some <==> self@.owners.contains_key(space_id),
            r matches Some(set) ==> set@ == self@.owners[space_id],
    {
        self.records.get(space_id)
    }

    /// The spaces that `account` is an owner of.
    pub fn space_ids_owned_by_account_id(&self, account: AccountId) -> (r: BTreeSet<SpaceId>)
        ensures
            forall|s: SpaceId| #[trigger] r@.contains(s) <==> self@.owned.contains((account, s)),
    {
        self.records.spaces_of(account)
    }

    /// The id that the next proposal gets.
    pub fn next_tx_id(&self) -> (r: TransactionId)
        ensures
            r == self@.next_tx_id,
    {
        self.proposals.next_tx_id()
    }

    /// The proposal `tx_id`, if it is pending or was executed.
    pub fn tx_by_id(&self, tx_id: TransactionId) -> (r: Option<&Transaction>)
        ensures
            r is Some <==> self@.txs.contains_key(tx_id),
            r matches Some(tx) ==> tx@ == self@.txs[tx_id],
    {
        self.proposals.get(tx_id)
    }

    /// The pending proposal of `space_id`, if it has one.
    pub fn pending_tx_id_by_space_id(&self, space_id: SpaceId) -> (r: Option<TransactionId>)
        ensures
            r is Some <==> self@.pending_by_space.contains_key(space_id),
            r matches Some(id) ==> id == self@.pending_by_space[space_id],
    {
        self.proposals.pending_for(space_id)
    }

    /// The ids of all pending proposals.
    pub fn pending_tx_ids(&self) -> (r: BTreeSet<TransactionId>)
        ensures
            r@ == self@.pending,
    {
        self.proposals.all_pending()
    }

    /// The executed proposals of `space_id`, oldest first.
    pub fn executed_tx_ids_by_space_id(&self, space_id: SpaceId) -> (r: Vec<TransactionId>)
        ensures
            r@ == self@.executed_of(space_id),
    {
        self.proposals.history(space_id)
    }

    /// Creates the owner set of `space_id`, in the name of `created.account`.
    ///
    /// The owners are those of `owners`, each once, in the order of their first mention. The
    /// call is refused if the space has an owner set, if the number of owners is outside the
    /// configured limits, or if `threshold` is zero or greater than the number of owners.
    pub fn create_space_owners(
        &mut self,
        created: WhoAndWhen,
        space_id: SpaceId,
        owners: Vec<AccountId>,
        threshold: u16,
    ) -> (r: Result<Event, Error>)
        requires
            old(self).wf(),
        ensures
            final(self).wf(),
            final(self).spec_config() == old(self).spec_config(),
            match old(self)@.create_error(old(self).spec_config(), space_id, owners@, threshold) {
                Some(e) => r == Err::<Event, Error>(e) && final(self)@ == old(self)@,
                None => r == Ok::<Event, Error>(
                    Event::SpaceOwnersCreated(created.account, space_id),
                ) && final(self)@ == old(self)@.create(created, space_id, owners@, threshold),
            },
    {
        let ghost pre = self@;
        if self.records.get(space_id).is_some() {
            return Err(Error::SpaceOwnersAlreadyExist);
        }
        let unique_owners = unique_owners(&owners);
        let owners_count = unique_owners.len();
        if owners_count < self.config.min_space_owners as usize {
            return Err(Error::NotEnoughOwners);
        }
        if owners_count > self.config.max_space_owners as usize {
            return Err(Error::TooManyOwners);
        }
        if threshold == 0 {
            return Err(Error::ZeroThreshold);
        }
        if threshold as usize > owners_count {
            return Err(Error::TooBigThreshold);
        }
        let new_space_owners = SpaceOwners {
            created,
            space_id,
            owners: unique_owners,
            threshold,
            changes_count: 0,
        };
        self.records.put(space_id, new_space_owners);
        proof {
            lemma_create_wf(pre, self.config, created, space_id, owners@, threshold);
        }
        Ok(Event::SpaceOwnersCreated(created.account, space_id))
    }

    /// Files the proposal of `created.account` to change the owners of `space_id`: the
    /// accounts of `remove_owners` are to leave, those of `add_owners` to join, and
    /// `new_threshold`, if given, is to be the threshold.
    ///
    /// The proposal gets the next id, counts as confirmed by its author, expires
    /// `blocks_to_live` blocks after `created.block`, and is the pending proposal of the
    /// space from now on. The call is refused if it names no change, if the notes are too
    /// long, if the space has no owner set or has a pending proposal, if the author is not
    /// an owner, or if the change would leave no owner, ask for a threshold of zero or
    /// above the resulting number of owners, or alter nothing.
    pub fn propose_change(
        &mut self,
        created: WhoAndWhen,
        space_id: SpaceId,
        add_owners: Vec<AccountId>,
        remove_owners: Vec<AccountId>,
        new_threshold: Option<u16>,
        notes: Vec<u8>,
    ) -> (r: Result<Event, Error>)
        requires
            old(self).wf(),
            old(self)@.next_tx_id < u64::MAX,
            created.block + old(self).spec_config().blocks_to_live <= u64::MAX,
        ensures
            final(self).wf(),
            final(self).spec_config() == old(self).spec_config(),
            match old(self)@.propose_error(
                old(self).spec_config(),
                created.account,
                space_id,
                add_owners@,
                remove_owners@,
                new_threshold,
                notes@,
            ) {
                Some(e) => r == Err::<Event, Error>(e) && final(self)@ == old(self)@,
                None => r == Ok::<Event, Error>(
                    Event::ChangeProposed(created.account, space_id, old(self)@.next_tx_id),
                ) && final(self)@ == old(self)@.propose(
                    old(self)@.new_tx(
                        old(self).spec_config(),
                        created,
                        space_id,
                        add_owners@,
                        remove_owners@,
                        new_threshold,
                        notes@,
                    ),
                ),
            },
    {
        let ghost pre = self@;
        let has_updates = add_owners.len() > 0 || remove_owners.len() > 0
            || new_threshold.is_some();
        if !has_updates {
            return Err(Error::NoUpdatesProposed);
        }
        if notes.len() > self.config.max_tx_notes_length as usize {
            return Err(Error::TxNotesOversize);
        }
        let space_owners = match self.records.get(space_id) {
            Some(space_owners) => space_owners,
            None => {
                return Err(Error::SpaceOwnersNotFound);
            },
        };
        if self.proposals.pending_for(space_id).is_some() {
            return Err(Error::PendingTxAlreadyExists);
        }
        if !is_listed(&space_owners.owners, created.account) {
            return Err(Error::NotASpaceOwner);
        }
        let result_owners = transform_new_owners_to_vec(
            &space_owners.owners,
            &add_owners,
            &remove_owners,
        );
        if result_owners.len() == 0 {
            return Err(Error::NoSpaceOwnersLeft);
        }
        let mut fields_updated = !same_list(&result_owners, &space_owners.owners);
        match new_threshold {
            Some(threshold) => {
                if space_owners.threshold != threshold {
                    if threshold as usize > result_owners.len() {
                        return Err(Error::TooBigThreshold);
                    }
                    if threshold == 0 {
                        return Err(Error::ZeroThreshold);
                    }
                    fields_updated = true;
                }
            },
            None => {},
        }
        if !fields_updated {
            return Err(Error::NoFieldsUpdatedOnProposal);
        }
        let tx_id = self.proposals.take_next_tx_id();
        let mut confirmed_by: Vec<AccountId> = Vec::new();
        confirmed_by.push(created.account);
        let new_tx = Transaction {
            created,
            id: tx_id,
            space_id,
            add_owners,
            remove_owners,
            new_threshold,
            notes,
            confirmed_by,
            expires_at: created.block + self.config.blocks_to_live,
        };
        proof {
            lemma_propose_wf(
                pre,
                self.config,
                created,
                space_id,
                new_tx@.add_owners,
                new_tx@.remove_owners,
                new_threshold,
                new_tx@.notes,
            );
            assert(new_tx@.confirmed_by =~= seq![created.account]);
        }
        self.proposals.put(tx_id, new_tx);
        self.proposals.set_pending(space_id, tx_id);
        Ok(Event::ChangeProposed(created.account, space_id, tx_id))
    }

    /// Puts the pending proposal `tx_id` of `space_id` into effect.
    fn update_space_owners(&mut self, space_id: SpaceId, tx_id: TransactionId)
        requires
            old(self).wf(),
            old(self)@.pending_by_space.contains_key(space_id),
            old(self)@.pending_by_space[space_id] == tx_id,
        ensures
            final(self).wf(),
            final(self)@ == old(self)@.execute(space_id, tx_id),
            final(self).spec_config() == old(self).spec_config(),
    {
        let ghost pre = self@;
        proof {
            assert(pre.pending_wf(space_id));
            assert(pre.owner_set_wf(space_id));
            lemma_changes_count_has_room(pre, space_id, tx_id);
            lemma_execute_wf(pre, space_id, tx_id);
        }
        let space_owners = self.records.get(space_id).unwrap();
        let tx = self.proposals.get(tx_id).unwrap();
        let updated = SpaceOwners {
            created: space_owners.created,
            space_id: space_owners.space_id,
            owners: transform_new_owners_to_vec(
                &space_owners.owners,
                &tx.add_owners,
                &tx.remove_owners,
            ),
            threshold: match tx.new_threshold {
                Some(threshold) => threshold,
                None => space_owners.threshold,
            },
            changes_count: space_owners.changes_count + 1,
        };
        self.records.put(space_id, updated);
        self.proposals.clear_pending(space_id);
        self.proposals.append_history(space_id, tx_id);
    }

    /// Removes the pending proposal `tx_id` of `space_id` and every record of it.
    fn remove_pending(&mut self, space_id: SpaceId, tx_id: TransactionId)
        requires
            old(self).wf(),
            old(self)@.pending_by_space.contains_key(space_id),
            old(self)@.pending_by_space[space_id] == tx_id,
        ensures
            final(self).wf(),
            final(self)@ == old(self)@.cancel(space_id, tx_id),
            final(self).spec_config() == old(self).spec_config(),
    {
        proof {
            lemma_cancel_wf(self@, space_id, tx_id);
        }
        self.proposals.remove(tx_id);
        self.proposals.clear_pending(space_id);
    }

    /// Records that the owner `who` confirms the pending proposal `tx_id` of `space_id`.
    ///
    /// If that makes as many confirmations as the threshold of the space asks for, the
    /// proposal takes effect in the same step: the owners and the threshold change, the
    /// owner set counts one more change, the space has no pending proposal, and the proposal
    /// joins the executed ones of the space. The call is refused if the space has no owner
    /// set, if there is no such proposal, if `who` is not an owner now, if the proposal is
    /// not the pending one of the space, or if `who` has confirmed it before.
    pub fn confirm_change(
        &mut self,
        who: AccountId,
        space_id: SpaceId,
        tx_id: TransactionId,
    ) -> (r: Result<Vec<Event>, Error>)
        requires
            old(self).wf(),
        ensures
            final(self).wf(),
            final(self).spec_config() == old(self).spec_config(),
            match old(self)@.confirm_error(who, space_id, tx_id) {
                Some(e) => r == Err::<Vec<Event>, Error>(e) && final(self)@ == old(self)@,
                None => {
                    &&& r is Ok
                    &&& r->Ok_0@ == confirm_events(
                        old(self)@.reaches_quorum(space_id, tx_id),
                        who,
                        space_id,
                        tx_id,
                    )
                    &&& final(self)@ == old(self)@.confirm(who, space_id, tx_id)
                },
            },
    {
        let ghost pre = self@;
        let space_owners = match self.records.get(space_id) {
            Some(space_owners) => space_owners,
            None => {
                return Err(Error::SpaceOwnersNotFound);
            },
        };
        let tx = match self.proposals.get(tx_id) {
            Some(tx) => tx,
            None => {
                return Err(Error::TxNotFound);
            },
        };
        if !is_listed(&space_owners.owners, who) {
            return Err(Error::NotASpaceOwner);
        }
        let pending_tx_id = match self.proposals.pending_for(space_id) {
            Some(pending_tx_id) => pending_tx_id,
            None => {
                return Err(Error::PendingTxDoesNotExist);
            },
        };
        if pending_tx_id != tx_id {
            return Err(Error::TxNotRelatedToSpace);
        }
        if is_listed(&tx.confirmed_by, who) {
            return Err(Error::TxAlreadyConfirmed);
        }
        let threshold = space_owners.threshold;
        proof {
            lemma_record_confirmation_wf(pre, who, space_id, tx_id);
        }
        let confirmations = self.proposals.add_confirmation(tx_id, who);
        let mut events: Vec<Event> = Vec::new();
        if confirmations == threshold as usize {
            self.update_space_owners(space_id, tx_id);
            events.push(Event::SpaceOwnersUpdated(who, space_id, tx_id));
        }
        events.push(Event::ChangeConfirmed(who, space_id, tx_id));
        proof {
            assert(events@ =~= confirm_events(
                pre.reaches_quorum(space_id, tx_id),
                who,
                space_id,
                tx_id,
            ));
        }
        Ok(events)
    }

    /// Withdraws the pending proposal `tx_id` of `space_id` in the name of its author `who`:
    /// no record of it is left, and the space has no pending proposal.
    ///
    /// The call is refused if the space has no owner set, if `who` is not an owner, if the
    /// proposal is not the pending one of the space, or if `who` did not make it.
    pub fn cancel_proposal(
        &mut self,
        who: AccountId,
        space_id: SpaceId,
        tx_id: TransactionId,
    ) -> (r: Result<Event, Error>)
        requires
            old(self).wf(),
        ensures
            final(self).wf(),
            final(self).spec_config() == old(self).spec_config(),
            match old(self)@.cancel_error(who, space_id, tx_id) {
                Some(e) => r == Err::<Event, Error>(e) && final(self)@ == old(self)@,
                None => r == Ok::<Event, Error>(Event::ProposalCanceled(who, space_id))
                    && final(self)@ == old(self)@.cancel(space_id, tx_id),
            },
    {
        let ghost pre = self@;
        let space_owners = match self.records.get(space_id) {
            Some(space_owners) => space_owners,
            None => {
                return Err(Error::SpaceOwnersNotFound);
            },
        };
        if !is_listed(&space_owners.owners, who) {
            return Err(Error::NotASpaceOwner);
        }
        let pending_tx_id = match self.proposals.pending_for(space_id) {
            Some(pending_tx_id) => pending_tx_id,
            None => {
                return Err(Error::PendingTxDoesNotExist);
            },
        };
        if pending_tx_id != tx_id {
            return Err(Error::TxNotRelatedToSpace);
        }
        proof {
            assert(pre.pending_wf(space_id));
        }
        let tx = self.proposals.get(tx_id).unwrap();
        if tx.created.account != who {
            return Err(Error::NotAProposalCreator);
        }
        self.remove_pending(space_id, tx_id);
        Ok(Event::ProposalCanceled(who, space_id))
    }

    /// Removes the pending proposals that have expired by block `block_number`: those whose
    /// block of expiry is `block_number` or earlier. Their records are removed and their
    /// spaces have no pending proposal; everything else stays.
    pub fn clean_pending_txs(&mut self, block_number: BlockNumber)
        requires
            old(self).wf(),
        ensures
            final(self).wf(),
            final(self).spec_config() == old(self).spec_config(),
            final(self)@ == old(self)@.clean_pending_txs(block_number),
    {
        let ghost pre = self@;
        let ghost config = self.config;
        let ghost expired = pre.expired(block_number);
        let ids = self.proposals.all_pending();
        let ghost keys: Seq<TransactionId> = ids.iter().remaining().unref();
        proof {
            lemma_drop_nothing(pre);
            assert(expired.intersect(keys.take(0).to_set()) =~= Set::<TransactionId>::empty());
        }
        for tx_id in it: ids.iter()
            invariant
                it.seq().unref() == keys,
                keys.no_duplicates(),
                keys.to_set() == pre.pending,
                pre.wf(),
                expired == pre.expired(block_number),
                self.spec_config() == config,
                config.valid(),
                self@ == pre.drop_pending(expired.intersect(keys.take(it.index()).to_set())),
        {
            let id = *tx_id;
            let ghost i = it.index();
            let ghost done = keys.take(i).to_set();
            let ghost gone = expired.intersect(done);
            let ghost now = self@;
            proof {
                assert(id == keys[i]);
                assert(keys.take(i + 1) =~= keys.take(i).push(id));
                lemma_push_contains(keys.take(i), id);
                assert(!done.contains(id)) by {
                    if keys.take(i).contains(id) {
                        let j = choose|j: int| 0 <= j < i && keys.take(i)[j] == id;
                        assert(keys[j] == keys[i]);
                    }
                }
                assert(pre.pending.contains(id)) by {
                    assert(keys.contains(keys[i]));
                }
                lemma_drop_pending_wf(pre, gone);
                assert(now.pending.contains(id));
                assert(now.pending_id_wf(id));
            }
            let found = match self.proposals.get(id) {
                Some(tx) => if block_number >= tx.expires_at {
                    Some(tx.space_id)
                } else {
                    None
                },
                None => None,
            };
            match found {
                Some(space_id) => {
                    self.remove_pending(space_id, id);
                    proof {
                        lemma_cancel_is_drop(now, space_id, id);
                        lemma_drop_pending_twice(pre, gone, set![id]);
                        assert(expired.intersect(keys.take(i + 1).to_set()) =~= gone.union(
                            set![id],
                        ));
                    }
                },
                None => {
                    proof {
                        assert(expired.intersect(keys.take(i + 1).to_set()) =~= gone);
                    }
                },
            }
        }
        proof {
            assert(keys.take(keys.len() as int) =~= keys);
            assert(expired.intersect(pre.pending) =~= expired);
            lemma_drop_pending_wf(pre, expired);
        }
    }

    /// What is due when block `n` is complete: every `clean_expired_txs_period` blocks, the
    /// expired proposals are removed.
    pub fn on_finalize(&mut self, n: BlockNumber)
        requires
            old(self).wf(),
        ensures
            final(self).wf(),
            final(self).spec_config() == old(self).spec_config(),
            final(self)@ == if n % old(self).spec_config().clean_expired_txs_period == 0 {
                old(self)@.clean_pending_txs(n)
            } else {
                old(self)@
            },
    {
        if n % self.config.clean_expired_txs_period == 0 {
            self.clean_pending_txs(n);
        }
    }
}

/// What other modules may ask the owners module.
pub trait SpaceOwnersShared {
    /// Whether the one who answers is in a state to do so.
    spec fn ready(&self) -> bool;

    /// Whether `account` is an owner of `space_id`.
    spec fn owns(&self, account: AccountId, space_id: SpaceId) -> bool;

    /// Tells whether `possible_owner` is one of the owners of `space_id`.
    fn is_account_a_space_owner(&self, possible_owner: &AccountId, space_id: SpaceId) -> (r: bool)
        requires
            self.ready(),
        ensures
            r == self.owns(*possible_owner, space_id),
    ;
}

impl SpaceOwnersShared for Module {
    open spec fn ready(&self) -> bool {
        self.wf()
    }

    open spec fn owns(&self, account: AccountId, space_id: SpaceId) -> bool {
        self@.is_owner(account, space_id)
    }

    fn is_account_a_space_owner(&self, possible_owner: &AccountId, space_id: SpaceId) -> (r: bool) {
        proof {
            assert(self@.owned.contains((*possible_owner, space_id)) == self@.is_owner(
                *possible_owner,
                space_id,
            ));
        }
        self.records.is_member(possible_owner, space_id)
    }
}

} // verus!
