//! What holds of every state that the operations can reach.

use crate::owners::owner_list::{lemma_resulting_owners_members, lemma_unique_properties};
use crate::owners::state::{apply_change, index_of, State};
use crate::owners::types::{Config, Error, TransactionId};
use crate::utils::{AccountId, BlockNumber, SpaceId, WhoAndWhen};
use vstd::prelude::*;
use vstd::set_lib::{lemma_int_range, lemma_len_subset, set_int_range};

verus! {

/// A list of distinct ids, each at least 1 and below `bound`, has fewer than `bound` entries.
pub proof fn lemma_distinct_ids_are_few(ids: Seq<TransactionId>, bound: int)
    requires
        ids.no_duplicates(),
        forall|i: int| 0 <= i < ids.len() ==> 1 <= #[trigger] ids[i] < bound,
        1 <= bound,
    ensures
        ids.len() <= bound - 1,
{
    let numbers = ids.map_values(|id: TransactionId| id as int);
    assert(numbers.no_duplicates()) by {
        assert forall|i: int, j: int|
            0 <= i < numbers.len() && 0 <= j < numbers.len() && i != j implies numbers[i]
            != numbers[j] by {
            assert(ids[i] != ids[j]);
        }
    }
    numbers.unique_seq_to_set();
    lemma_int_range(1, bound);
    assert(numbers.to_set().subset_of(set_int_range(1, bound))) by {
        assert forall|n: int| numbers.to_set().contains(n) implies set_int_range(
            1,
            bound,
        ).contains(n) by {
            let i = choose|i: int| 0 <= i < numbers.len() && numbers[i] == n;
            assert(1 <= ids[i] < bound);
        }
    }
    lemma_len_subset(numbers.to_set(), set_int_range(1, bound));
}

/// Nothing is wrong with the state in which no operation has run yet.
pub proof fn lemma_init_wf()
    ensures
        State::init().wf(),
        State::init().thresholds_in_reach(),
{
    assert(State::init().owned =~= index_of(State::init().owners));
}

/// Creating an owner set keeps the state well formed. The new set has the given owners, each
/// once, and a threshold that they can reach; the other owner sets are as before.
pub proof fn lemma_create_wf(
    pre: State,
    config: Config,
    created: WhoAndWhen,
    space_id: SpaceId,
    owners: Seq<AccountId>,
    threshold: u16,
)
    requires
        pre.wf(),
        pre.create_error(config, space_id, owners, threshold) is None,
    ensures
        pre.create(created, space_id, owners, threshold).wf(),
        pre.create(created, space_id, owners, threshold).owners[space_id].threshold_in_reach(),
        pre.thresholds_in_reach() ==> pre.create(
            created,
            space_id,
            owners,
            threshold,
        ).thresholds_in_reach(),
{
    let post = pre.create(created, space_id, owners, threshold);
    lemma_unique_properties(owners);
    assert(!pre.executed.contains_key(space_id)) by {
        if pre.executed.contains_key(space_id) {
            assert(pre.executed_wf(space_id));
        }
    }
    assert(!pre.pending_by_space.contains_key(space_id)) by {
        if pre.pending_by_space.contains_key(space_id) {
            assert(pre.pending_wf(space_id));
        }
    }
    assert forall|s: SpaceId| #[trigger] post.owners.contains_key(s) implies
        post.owner_set_wf(s) by {
        if s != space_id {
            assert(pre.owners.contains_key(s));
            assert(pre.owner_set_wf(s));
        }
    }
    assert forall|id: TransactionId| #[trigger] post.txs.contains_key(id) implies
        post.tx_wf(id) by {
        assert(pre.tx_wf(id));
    }
    assert forall|s: SpaceId| #[trigger] post.pending_by_space.contains_key(s) implies
        post.pending_wf(s) by {
        assert(pre.pending_wf(s));
    }
    assert forall|id: TransactionId| #[trigger] post.pending.contains(id) implies
        post.pending_id_wf(id) by {
        assert(pre.pending_id_wf(id));
    }
    assert forall|s: SpaceId| #[trigger] post.executed.contains_key(s) implies
        post.executed_wf(s) by {
        assert(pre.executed_wf(s));
    }
    if pre.thresholds_in_reach() {
        assert forall|s: SpaceId| #[trigger]
            post.owners.contains_key(s) implies post.owners[s].threshold_in_reach() by {
            if s != space_id {
                assert(pre.owners.contains_key(s));
            }
        }
    }
}

/// Filing a proposal keeps the state well formed and leaves the owner sets as they are. The
/// space of the proposal had no pending proposal, and has this one now.
pub proof fn lemma_propose_wf(
    pre: State,
    config: Config,
    created: WhoAndWhen,
    space_id: SpaceId,
    add_owners: Seq<AccountId>,
    remove_owners: Seq<AccountId>,
    new_threshold: Option<u16>,
    notes: Seq<u8>,
)
    requires
        pre.wf(),
        pre.next_tx_id < u64::MAX,
        pre.propose_error(
            config,
            created.account,
            space_id,
            add_owners,
            remove_owners,
            new_threshold,
            notes,
        ) is None,
    ensures
        ({
            let tx = pre.new_tx(
                config,
                created,
                space_id,
                add_owners,
                remove_owners,
                new_threshold,
                notes,
            );
            let post = pre.propose(tx);
            &&& post.wf()
            &&& post.owners == pre.owners
            &&& post.pending_by_space.contains_key(space_id)
            &&& post.pending_by_space[space_id] == pre.next_tx_id
            &&& post.txs[pre.next_tx_id] == tx
            &&& !pre.txs.contains_key(pre.next_tx_id)
        }),
{
    let tx = pre.new_tx(config, created, space_id, add_owners, remove_owners, new_threshold, notes);
    let post = pre.propose(tx);
    let id = pre.next_tx_id;
    assert(!pre.txs.contains_key(id)) by {
        if pre.txs.contains_key(id) {
            assert(pre.tx_wf(id));
        }
    }
    assert(!pre.pending.contains(id)) by {
        if pre.pending.contains(id) {
            assert(pre.pending_id_wf(id));
        }
    }
    assert forall|s: SpaceId| #[trigger] post.owners.contains_key(s) implies
        post.owner_set_wf(s) by {
        assert(pre.owner_set_wf(s));
    }
    assert forall|i: TransactionId| #[trigger] post.txs.contains_key(i) implies post.tx_wf(i) by {
        if i != id {
            assert(pre.tx_wf(i));
        }
    }
    assert forall|s: SpaceId| #[trigger] post.pending_by_space.contains_key(s) implies
        post.pending_wf(s) by {
        if s != space_id {
            assert(pre.pending_wf(s));
        }
    }
    assert forall|i: TransactionId| #[trigger] post.pending.contains(i) implies
        post.pending_id_wf(i) by {
        if i != id {
            assert(pre.pending_id_wf(i));
        }
    }
    assert forall|s: SpaceId| #[trigger] post.executed.contains_key(s) implies
        post.executed_wf(s) by {
        assert(pre.executed_wf(s));
    }
}

/// Recording a confirmation keeps the state well formed: the account was not among the
/// confirmations, so they still name nobody twice.
pub proof fn lemma_record_confirmation_wf(
    pre: State,
    who: AccountId,
    space_id: SpaceId,
    tx_id: TransactionId,
)
    requires
        pre.wf(),
        pre.confirm_error(who, space_id, tx_id) is None,
    ensures
        pre.record_confirmation(who, tx_id).wf(),
        pre.record_confirmation(who, tx_id).txs[tx_id].confirmed_by.no_duplicates(),
        pre.record_confirmation(who, tx_id).pending_by_space[space_id] == tx_id,
{
    let post = pre.record_confirmation(who, tx_id);
    let before = pre.txs[tx_id].confirmed_by;
    assert(pre.tx_wf(tx_id));
    assert(before.push(who).no_duplicates()) by {
        assert forall|i: int, j: int|
            0 <= i < before.len() + 1 && 0 <= j < before.len() + 1 && i != j implies before.push(
            who,
        )[i] != before.push(who)[j] by {
            if i < before.len() && j < before.len() {
                assert(before[i] != before[j]);
            } else if i < before.len() {
                assert(before.contains(before[i]));
            } else {
                assert(before.contains(before[j]));
            }
        }
    }
    assert forall|s: SpaceId| #[trigger] post.owners.contains_key(s) implies
        post.owner_set_wf(s) by {
        assert(pre.owner_set_wf(s));
    }
    assert forall|i: TransactionId| #[trigger] post.txs.contains_key(i) implies post.tx_wf(i) by {
        assert(pre.txs.contains_key(i));
        assert(pre.tx_wf(i));
    }
    assert forall|s: SpaceId| #[trigger] post.pending_by_space.contains_key(s) implies
        post.pending_wf(s) by {
        assert(pre.pending_wf(s));
    }
    assert forall|i: TransactionId| #[trigger] post.pending.contains(i) implies
        post.pending_id_wf(i) by {
        assert(pre.pending_id_wf(i));
    }
    assert forall|s: SpaceId| #[trigger] post.executed.contains_key(s) implies
        post.executed_wf(s) by {
        assert(pre.executed_wf(s));
    }
}

/// The count of executed changes cannot overflow: each executed proposal has an id of its
/// own below the next one, so there are fewer of them than ids.
pub proof fn lemma_changes_count_has_room(pre: State, space_id: SpaceId, tx_id: TransactionId)
    requires
        pre.wf(),
        pre.pending_by_space.contains_key(space_id),
        pre.pending_by_space[space_id] == tx_id,
    ensures
        pre.owners[space_id].changes_count + 1 < u64::MAX,
        pre.executed_of(space_id).push(tx_id).no_duplicates(),
{
    let list = pre.executed_of(space_id);
    let longer = list.push(tx_id);
    assert(pre.pending_wf(space_id));
    assert(pre.owner_set_wf(space_id));
    assert(pre.tx_wf(tx_id));
    if pre.executed.contains_key(space_id) {
        assert(pre.executed_wf(space_id));
    }
    assert forall|i: int| 0 <= i < longer.len() implies 1 <= #[trigger] longer[i]
        < pre.next_tx_id by {
        if i < list.len() {
            assert(pre.txs.contains_key(list[i]));
            assert(pre.tx_wf(list[i]));
        }
    }
    assert(longer.no_duplicates()) by {
        assert forall|i: int, j: int|
            0 <= i < longer.len() && 0 <= j < longer.len() && i != j implies longer[i]
            != longer[j] by {
            if i < list.len() && j < list.len() {
                assert(list[i] != list[j]);
            } else if i < list.len() {
                assert(!pre.pending.contains(list[i]));
            } else {
                assert(!pre.pending.contains(list[j]));
            }
        }
    }
    lemma_distinct_ids_are_few(longer, pre.next_tx_id as int);
}

/// Putting the pending proposal of a space into effect keeps the state well formed. It
/// counts as exactly one change of the owner set, and the space has no pending proposal
/// afterwards. The thresholds stay in reach if the one of the changed owner set does.
pub proof fn lemma_execute_wf(pre: State, space_id: SpaceId, tx_id: TransactionId)
    requires
        pre.wf(),
        pre.pending_by_space.contains_key(space_id),
        pre.pending_by_space[space_id] == tx_id,
    ensures
        pre.execute(space_id, tx_id).wf(),
        pre.execute(space_id, tx_id).owners[space_id].changes_count
            == pre.owners[space_id].changes_count + 1,
        !pre.execute(space_id, tx_id).pending_by_space.contains_key(space_id),
        !pre.execute(space_id, tx_id).pending.contains(tx_id),
        pre.execute(space_id, tx_id).executed_of(space_id).last() == tx_id,
        pre.thresholds_in_reach() && apply_change(
            pre.owners[space_id],
            pre.txs[tx_id],
        ).threshold_in_reach() ==> pre.execute(space_id, tx_id).thresholds_in_reach(),
{
    let post = pre.execute(space_id, tx_id);
    let set = pre.owners[space_id];
    let tx = pre.txs[tx_id];
    assert(pre.pending_wf(space_id));
    assert(pre.owner_set_wf(space_id));
    lemma_changes_count_has_room(pre, space_id, tx_id);
    lemma_resulting_owners_members(set.owners, tx.add_owners, tx.remove_owners);
    assert(post.owners[space_id] == apply_change(set, tx));
    assert(post.executed[space_id] == pre.executed_of(space_id).push(tx_id));
    assert forall|s: SpaceId| #[trigger] post.owners.contains_key(s) implies
        post.owner_set_wf(s) by {
        if s != space_id {
            assert(pre.owners.contains_key(s));
            assert(pre.owner_set_wf(s));
        }
    }
    assert forall|i: TransactionId| #[trigger] post.txs.contains_key(i) implies post.tx_wf(i) by {
        assert(pre.tx_wf(i));
    }
    assert forall|s: SpaceId| #[trigger] post.pending_by_space.contains_key(s) implies
        post.pending_wf(s) by {
        assert(pre.pending_by_space.contains_key(s));
        assert(pre.pending_wf(s));
    }
    assert forall|i: TransactionId| #[trigger] post.pending.contains(i) implies
        post.pending_id_wf(i) by {
        assert(pre.pending.contains(i));
        assert(pre.pending_id_wf(i));
    }
    assert forall|s: SpaceId| #[trigger] post.executed.contains_key(s) implies
        post.executed_wf(s) by {
        if s != space_id {
            assert(pre.executed.contains_key(s));
            assert(pre.executed_wf(s));
        } else {
            let list = pre.executed_of(space_id);
            if pre.executed.contains_key(space_id) {
                assert(pre.executed_wf(space_id));
            }
            assert forall|i: int| 0 <= i < post.executed[s].len() implies {
                &&& post.txs.contains_key(#[trigger] post.executed[s][i])
                &&& post.txs[post.executed[s][i]].space_id == s
                &&& !post.pending.contains(post.executed[s][i])
            } by {
                if i < list.len() {
                    assert(pre.txs.contains_key(list[i]));
                }
            }
        }
    }
    if pre.thresholds_in_reach() && apply_change(set, tx).threshold_in_reach() {
        assert forall|s: SpaceId| #[trigger]
            post.owners.contains_key(s) implies post.owners[s].threshold_in_reach() by {
            if s != space_id {
                assert(pre.owners.contains_key(s));
            }
        }
    }
}

/// Removing pending proposals keeps the state well formed and leaves the owner sets and the
/// executed proposals as they are.
pub proof fn lemma_drop_pending_wf(pre: State, gone: Set<TransactionId>)
    requires
        pre.wf(),
        gone.subset_of(pre.pending),
    ensures
        pre.drop_pending(gone).wf(),
        pre.drop_pending(gone).owners == pre.owners,
        pre.drop_pending(gone).executed == pre.executed,
{
    let post = pre.drop_pending(gone);
    assert forall|s: SpaceId| #[trigger] post.owners.contains_key(s) implies
        post.owner_set_wf(s) by {
        assert(pre.owner_set_wf(s));
    }
    assert forall|i: TransactionId| #[trigger] post.txs.contains_key(i) implies post.tx_wf(i) by {
        assert(pre.txs.contains_key(i));
        assert(pre.tx_wf(i));
    }
    assert forall|s: SpaceId| #[trigger] post.pending_by_space.contains_key(s) implies
        post.pending_wf(s) by {
        assert(pre.pending_by_space.contains_key(s));
        assert(pre.pending_wf(s));
    }
    assert forall|i: TransactionId| #[trigger] post.pending.contains(i) implies
        post.pending_id_wf(i) by {
        assert(pre.pending.contains(i));
        assert(pre.pending_id_wf(i));
    }
    assert forall|s: SpaceId| #[trigger] post.executed.contains_key(s) implies
        post.executed_wf(s) by {
        assert(pre.executed_wf(s));
        assert forall|i: int| 0 <= i < post.executed[s].len() implies {
            &&& post.txs.contains_key(#[trigger] post.executed[s][i])
            &&& post.txs[post.executed[s][i]].space_id == s
            &&& !post.pending.contains(post.executed[s][i])
        } by {
            assert(!pre.pending.contains(pre.executed[s][i]));
        }
    }
}

/// Withdrawing the pending proposal of a space removes that proposal and nothing else.
pub proof fn lemma_cancel_is_drop(pre: State, space_id: SpaceId, tx_id: TransactionId)
    requires
        pre.wf(),
        pre.pending_by_space.contains_key(space_id),
        pre.pending_by_space[space_id] == tx_id,
    ensures
        pre.cancel(space_id, tx_id) == pre.drop_pending(set![tx_id]),
        set![tx_id].subset_of(pre.pending),
{
    let a = pre.cancel(space_id, tx_id);
    let b = pre.drop_pending(set![tx_id]);
    assert(pre.pending_wf(space_id));
    assert(a.txs =~= b.txs);
    assert(a.pending =~= b.pending);
    assert(a.pending_by_space =~= b.pending_by_space) by {
        assert forall|s: SpaceId| a.pending_by_space.contains_key(s)
            == b.pending_by_space.contains_key(s) by {
            if pre.pending_by_space.contains_key(s) {
                assert(pre.pending_wf(s));
            }
        }
    }
}

/// Withdrawing the pending proposal of a space keeps the state well formed; the owner sets
/// and the executed proposals are as before, and no trace of the proposal is left.
pub proof fn lemma_cancel_wf(pre: State, space_id: SpaceId, tx_id: TransactionId)
    requires
        pre.wf(),
        pre.pending_by_space.contains_key(space_id),
        pre.pending_by_space[space_id] == tx_id,
    ensures
        pre.cancel(space_id, tx_id).wf(),
        pre.cancel(space_id, tx_id).owners == pre.owners,
        pre.cancel(space_id, tx_id).executed == pre.executed,
        !pre.cancel(space_id, tx_id).txs.contains_key(tx_id),
        !pre.cancel(space_id, tx_id).pending.contains(tx_id),
        !pre.cancel(space_id, tx_id).pending_by_space.contains_key(space_id),
{
    lemma_cancel_is_drop(pre, space_id, tx_id);
    lemma_drop_pending_wf(pre, set![tx_id]);
}

/// Removing the expired proposals keeps the state well formed. A pending proposal that has
/// expired is gone from the records, from the pending ids and from its space; one that has
/// not is kept as it is. Afterwards no pending proposal has expired, and removing the
/// expired proposals once more changes nothing.
pub proof fn lemma_clean_pending_txs(pre: State, now: BlockNumber)
    requires
        pre.wf(),
    ensures
        pre.clean_pending_txs(now).wf(),
        pre.clean_pending_txs(now).owners == pre.owners,
        pre.clean_pending_txs(now).executed == pre.executed,
        pre.clean_pending_txs(now).expired(now) == Set::<TransactionId>::empty(),
        pre.clean_pending_txs(now).clean_pending_txs(now) == pre.clean_pending_txs(now),
        forall|id: TransactionId| #[trigger]
            pre.pending.contains(id) && pre.txs[id].expires_at <= now ==> {
                &&& !pre.clean_pending_txs(now).txs.contains_key(id)
                &&& !pre.clean_pending_txs(now).pending.contains(id)
                &&& !pre.clean_pending_txs(now).pending_by_space.contains_key(
                    pre.txs[id].space_id,
                )
            },
        forall|id: TransactionId| #[trigger]
            pre.pending.contains(id) && pre.txs[id].expires_at > now ==> {
                &&& pre.clean_pending_txs(now).txs.contains_key(id)
                &&& pre.clean_pending_txs(now).txs[id] == pre.txs[id]
                &&& pre.clean_pending_txs(now).pending.contains(id)
                &&& pre.clean_pending_txs(now).pending_by_space.contains_key(
                    pre.txs[id].space_id,
                )
            },
{
    let gone = pre.expired(now);
    let post = pre.clean_pending_txs(now);
    lemma_drop_pending_wf(pre, gone);
    assert forall|id: TransactionId| #[trigger] pre.pending.contains(id) implies
        pre.pending_id_wf(id) by {
    }
    assert(post.expired(now) =~= Set::<TransactionId>::empty());
    let again = post.clean_pending_txs(now);
    assert(again.txs =~= post.txs);
    assert(again.pending =~= post.pending);
    assert(again.pending_by_space =~= post.pending_by_space);
}

/// Removing pending proposals in two steps is the same as removing them in one.
pub proof fn lemma_drop_pending_twice(
    pre: State,
    first: Set<TransactionId>,
    second: Set<TransactionId>,
)
    ensures
        pre.drop_pending(first).drop_pending(second) == pre.drop_pending(first.union(second)),
{
    let a = pre.drop_pending(first).drop_pending(second);
    let b = pre.drop_pending(first.union(second));
    assert(a.txs =~= b.txs);
    assert(a.pending =~= b.pending);
    assert(a.pending_by_space =~= b.pending_by_space);
}

/// Removing no pending proposal changes nothing.
pub proof fn lemma_drop_nothing(pre: State)
    ensures
        pre.drop_pending(Set::empty()) == pre,
{
    let a = pre.drop_pending(Set::empty());
    assert(a.txs =~= pre.txs);
    assert(a.pending =~= pre.pending);
    assert(a.pending_by_space =~= pre.pending_by_space);
}

/// A space has at most one pending proposal, and that proposal is on record, is for this
/// space, and is among the pending ids.
pub proof fn lemma_pending_has_record(state: State, space_id: SpaceId)
    requires
        state.wf(),
        state.pending_by_space.contains_key(space_id),
    ensures
        state.txs.contains_key(state.pending_by_space[space_id]),
        state.txs[state.pending_by_space[space_id]].id == state.pending_by_space[space_id],
        state.txs[state.pending_by_space[space_id]].space_id == space_id,
        state.pending.contains(state.pending_by_space[space_id]),
        state.owners.contains_key(space_id),
{
    assert(state.pending_wf(space_id));
    assert(state.tx_wf(state.pending_by_space[space_id]));
}

/// Every owner set has an owner, names no owner twice and asks for at least one
/// confirmation; the index from accounts to spaces agrees with the owner sets.
pub proof fn lemma_owner_sets(state: State, space_id: SpaceId, who: AccountId)
    requires
        state.wf(),
    ensures
        state.owners.contains_key(space_id) ==> state.owners[space_id].wf(),
        state.owned.contains((who, space_id)) <==> state.is_owner(who, space_id),
{
    if state.owners.contains_key(space_id) {
        assert(state.owner_set_wf(space_id));
    }
}

/// A confirmation keeps the state well formed. The thresholds stay in reach unless the
/// confirmation puts into effect a proposal whose resulting owners are fewer than the
/// threshold that then holds.
pub proof fn lemma_confirm_wf(pre: State, who: AccountId, space_id: SpaceId, tx_id: TransactionId)
    requires
        pre.wf(),
        pre.confirm_error(who, space_id, tx_id) is None,
    ensures
        pre.confirm(who, space_id, tx_id).wf(),
        !pre.reaches_quorum(space_id, tx_id) ==> pre.confirm(who, space_id, tx_id).owners
            == pre.owners,
        pre.thresholds_in_reach() && (pre.reaches_quorum(space_id, tx_id) ==> apply_change(
            pre.owners[space_id],
            pre.txs[tx_id],
        ).threshold_in_reach()) ==> pre.confirm(who, space_id, tx_id).thresholds_in_reach(),
{
    let recorded = pre.record_confirmation(who, tx_id);
    lemma_record_confirmation_wf(pre, who, space_id, tx_id);
    if pre.reaches_quorum(space_id, tx_id) {
        lemma_execute_wf(recorded, space_id, tx_id);
        assert(apply_change(recorded.owners[space_id], recorded.txs[tx_id]) == apply_change(
            pre.owners[space_id],
            pre.txs[tx_id],
        ));
    }
}

/// No account confirms a proposal twice: a confirmation adds the account to the
/// confirmations, which name nobody twice, and a second confirmation by the same account is
/// refused.
pub proof fn lemma_confirm_once(pre: State, who: AccountId, space_id: SpaceId, tx_id: TransactionId)
    requires
        pre.wf(),
        pre.confirm_error(who, space_id, tx_id) is None,
    ensures
        pre.confirm(who, space_id, tx_id).txs[tx_id].confirmed_by
            == pre.txs[tx_id].confirmed_by.push(who),
        pre.confirm(who, space_id, tx_id).txs[tx_id].confirmed_by.no_duplicates(),
        pre.confirm(who, space_id, tx_id).confirm_error(who, space_id, tx_id) is Some,
        !pre.reaches_quorum(space_id, tx_id) ==> pre.confirm(who, space_id, tx_id).confirm_error(
            who,
            space_id,
            tx_id,
        ) == Some(Error::TxAlreadyConfirmed),
{
    let post = pre.confirm(who, space_id, tx_id);
    lemma_record_confirmation_wf(pre, who, space_id, tx_id);
    lemma_confirm_wf(pre, who, space_id, tx_id);
    let list = pre.txs[tx_id].confirmed_by.push(who);
    assert(list[list.len() - 1] == who);
    assert(list.contains(who));
    if pre.reaches_quorum(space_id, tx_id) {
        lemma_execute_wf(pre.record_confirmation(who, tx_id), space_id, tx_id);
    }
}

/// The confirmation that makes as many as the threshold asks for puts the proposal into
/// effect exactly once: the owner set counts one more change, the proposal is the last of
/// the executed ones of the space and is no longer pending, and nobody can confirm it again.
/// A confirmation that makes fewer or more leaves the owner sets and the pending proposal
/// as they are.
pub proof fn lemma_quorum_executes_once(
    pre: State,
    who: AccountId,
    space_id: SpaceId,
    tx_id: TransactionId,
    next: AccountId,
)
    requires
        pre.wf(),
        pre.confirm_error(who, space_id, tx_id) is None,
    ensures
        pre.reaches_quorum(space_id, tx_id) ==> {
            let post = pre.confirm(who, space_id, tx_id);
            &&& post.owners[space_id] == apply_change(pre.owners[space_id], pre.txs[tx_id])
            &&& post.owners[space_id].changes_count == pre.owners[space_id].changes_count + 1
            &&& post.executed_of(space_id) == pre.executed_of(space_id).push(tx_id)
            &&& !post.pending_by_space.contains_key(space_id)
            &&& !post.pending.contains(tx_id)
            &&& post.txs.contains_key(tx_id)
            &&& post.confirm_error(next, space_id, tx_id) is Some
        },
        !pre.reaches_quorum(space_id, tx_id) ==> {
            let post = pre.confirm(who, space_id, tx_id);
            &&& post.owners == pre.owners
            &&& post.executed == pre.executed
            &&& post.pending_by_space == pre.pending_by_space
            &&& post.pending == pre.pending
        },
{
    let recorded = pre.record_confirmation(who, tx_id);
    lemma_record_confirmation_wf(pre, who, space_id, tx_id);
    if pre.reaches_quorum(space_id, tx_id) {
        lemma_execute_wf(recorded, space_id, tx_id);
        let post = pre.confirm(who, space_id, tx_id);
        assert(apply_change(recorded.owners[space_id], recorded.txs[tx_id]) == apply_change(
            pre.owners[space_id],
            pre.txs[tx_id],
        ));
    }
}

/// Removing the expired proposals late makes up for every removal that was left out: after
/// a removal at an earlier block, the removal at a later block leaves the same state as it
/// would have left alone.
pub proof fn lemma_clean_catches_up(pre: State, earlier: BlockNumber, later: BlockNumber)
    requires
        earlier <= later,
    ensures
        pre.clean_pending_txs(earlier).clean_pending_txs(later) == pre.clean_pending_txs(later),
{
    let first = pre.expired(earlier);
    let mid = pre.clean_pending_txs(earlier);
    let second = mid.expired(later);
    lemma_drop_pending_twice(pre, first, second);
    assert(first.union(second) =~= pre.expired(later));
}

/// While a space has a pending proposal, no other proposal can be filed for it.
pub proof fn lemma_one_in_flight(
    state: State,
    config: Config,
    who: AccountId,
    space_id: SpaceId,
    add_owners: Seq<AccountId>,
    remove_owners: Seq<AccountId>,
    new_threshold: Option<u16>,
    notes: Seq<u8>,
)
    requires
        state.pending_by_space.contains_key(space_id),
    ensures
        state.propose_error(
            config,
            who,
            space_id,
            add_owners,
            remove_owners,
            new_threshold,
            notes,
        ) is Some,
{
}

} // verus!
