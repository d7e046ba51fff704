//! The store of owner sets: the owner set of each space, and the index from accounts to the
//! spaces they own, which changes with every owner set that is written.

use crate::owners::owner_list::lemma_push_contains;
use crate::owners::state::index_of;
use crate::owners::types::{SpaceOwners, SpaceOwnersView};
use crate::utils::{AccountId, SpaceId};
use sp_std::collections::btree_map::BTreeMap;
use sp_std::collections::btree_set::BTreeSet;
use sp_std::vec::Vec;
use vstd::prelude::*;

verus! {

/// The pairs of an account and a space that the index `index` holds.
pub open spec fn index_view(index: Map<AccountId, BTreeSet<SpaceId>>) -> Set<(AccountId, SpaceId)> {
    Set::new(|p: (AccountId, SpaceId)| index.contains_key(p.0) && index[p.0]@.contains(p.1))
}

/// Enters `space_id` among the spaces of `account`.
fn index_insert(
    index: &mut BTreeMap<AccountId, BTreeSet<SpaceId>>,
    account: AccountId,
    space_id: SpaceId,
)
    ensures
        index_view(final(index)@) == index_view(old(index)@).insert((account, space_id)),
{
    let mut ids = match index.remove(&account) {
        Some(ids) => ids,
        None => BTreeSet::new(),
    };
    ids.insert(space_id);
    index.insert(account, ids);
    proof {
        assert(index_view(index@) =~= index_view(old(index)@).insert((account, space_id)));
    }
}

/// Strikes `space_id` from the spaces of `account`.
fn index_remove(
    index: &mut BTreeMap<AccountId, BTreeSet<SpaceId>>,
    account: AccountId,
    space_id: SpaceId,
)
    ensures
        index_view(final(index)@) == index_view(old(index)@).remove((account, space_id)),
{
    match index.remove(&account) {
        Some(ids) => {
            let mut ids = ids;
            ids.remove(&space_id);
            index.insert(account, ids);
        },
        None => {},
    }
    proof {
        assert(index_view(index@) =~= index_view(old(index)@).remove((account, space_id)));
    }
}

/// Makes `new_owners` the accounts that the index holds for `space_id`, in place of
/// `old_owners`.
fn reindex(
    index: &mut BTreeMap<AccountId, BTreeSet<SpaceId>>,
    space_id: SpaceId,
    old_owners: &Vec<AccountId>,
    new_owners: &Vec<AccountId>,
)
    requires
        forall|a: AccountId| #[trigger]
            index_view(old(index)@).contains((a, space_id)) ==> old_owners@.contains(a),
    ensures
        forall|p: (AccountId, SpaceId)| #[trigger]
            index_view(final(index)@).contains(p) <==> if p.1 == space_id {
                new_owners@.contains(p.0)
            } else {
                index_view(old(index)@).contains(p)
            },
{
    let ghost start = index_view(index@);
    let mut i: usize = 0;
    while i < old_owners.len()
        invariant
            i <= old_owners.len(),
            forall|p: (AccountId, SpaceId)| #[trigger]
                index_view(index@).contains(p) <==> start.contains(p) && !(p.1 == space_id
                    && old_owners@.take(i as int).contains(p.0)),
        decreases old_owners.len() - i,
    {
        proof {
            assert(old_owners@.take(i + 1) =~= old_owners@.take(i as int).push(
                old_owners@[i as int],
            ));
            lemma_push_contains(old_owners@.take(i as int), old_owners@[i as int]);
        }
        index_remove(index, old_owners[i], space_id);
        i += 1;
    }
    proof {
        assert(old_owners@.take(old_owners@.len() as int) =~= old_owners@);
        assert(new_owners@.take(0) =~= Seq::<AccountId>::empty());
    }
    let mut j: usize = 0;
    while j < new_owners.len()
        invariant
            j <= new_owners.len(),
            forall|p: (AccountId, SpaceId)| #[trigger]
                index_view(index@).contains(p) <==> if p.1 == space_id {
                    new_owners@.take(j as int).contains(p.0)
                } else {
                    start.contains(p)
                },
        decreases new_owners.len() - j,
    {
        proof {
            assert(new_owners@.take(j + 1) =~= new_owners@.take(j as int).push(
                new_owners@[j as int],
            ));
            lemma_push_contains(new_owners@.take(j as int), new_owners@[j as int]);
        }
        index_insert(index, new_owners[j], space_id);
        j += 1;
    }
    proof {
        assert(new_owners@.take(new_owners@.len() as int) =~= new_owners@);
    }
}

/// What the store of owner sets holds.
pub struct Ownership {
    /// The owner set of each space that has one.
    pub owners: Map<SpaceId, SpaceOwnersView>,
    /// The index from accounts to the spaces they own, as pairs.
    pub owned: Set<(AccountId, SpaceId)>,
}

/// The owner sets by space, and the index from accounts to spaces.
pub struct OwnershipRecords {
    space_owners_by_space_id: BTreeMap<SpaceId, SpaceOwners>,
    space_ids_owned_by_account_id: BTreeMap<AccountId, BTreeSet<SpaceId>>,
}

impl View for OwnershipRecords {
    type V = Ownership;

    closed spec fn view(&self) -> Ownership {
        Ownership {
            owners: self.space_owners_by_space_id@.map_values(|o: SpaceOwners| o@),
            owned: index_view(self.space_ids_owned_by_account_id@),
        }
    }
}

impl OwnershipRecords {
    /// The index names exactly the owners of the owner sets.
    pub open spec fn wf(&self) -> bool {
        self@.owned == index_of(self@.owners)
    }

    /// A store without owner sets.
    pub fn new() -> (r: OwnershipRecords)
        ensures
            r.wf(),
            r@.owners == Map::<SpaceId, SpaceOwnersView>::empty(),
    {
        let r = OwnershipRecords {
            space_owners_by_space_id: BTreeMap::new(),
            space_ids_owned_by_account_id: BTreeMap::new(),
        };
        proof {
            assert(r@.owners =~= Map::<SpaceId, SpaceOwnersView>::empty());
            assert(r@.owned =~= index_of(r@.owners));
        }
        r
    }

    /// The owner set of `space_id`, if it has one.
    pub fn get(&self, space_id: SpaceId) -> (r: Option<&SpaceOwners>)
        ensures
            r is Some <==> self@.owners.contains_key(space_id),
            r matches Some(set) ==> set@ == self@.owners[space_id],
    {
        self.space_owners_by_space_id.get(&space_id)
    }

    /// Makes `set` the owner set of `space_id`. In the index, the space is now owned by the
    /// owners of `set` and by nobody else; the other spaces are as before.
    pub fn put(&mut self, space_id: SpaceId, set: SpaceOwners)
        requires
            old(self).wf(),
        ensures
            final(self).wf(),
            final(self)@.owners == old(self)@.owners.insert(space_id, set@),
    {
        let ghost pre = self@;
        let none: Vec<AccountId> = Vec::new();
        proof {
            assert forall|a: AccountId| #[trigger]
                index_view(self.space_ids_owned_by_account_id@).contains((a, space_id))
                implies pre.owners.contains_key(space_id) && pre.owners[space_id].owners.contains(
                a,
            ) by {
                assert(index_of(pre.owners).contains((a, space_id)));
            }
        }
        match self.space_owners_by_space_id.get(&space_id) {
            Some(former) => {
                reindex(
                    &mut self.space_ids_owned_by_account_id,
                    space_id,
                    &former.owners,
                    &set.owners,
                );
            },
            None => {
                reindex(&mut self.space_ids_owned_by_account_id, space_id, &none, &set.owners);
            },
        }
        self.space_owners_by_space_id.insert(space_id, set);
        proof {
            assert(self@.owners =~= pre.owners.insert(space_id, set@));
            assert(self@.owned =~= index_of(self@.owners));
        }
    }

    /// Whether the index names `account` as an owner of `space_id`.
    pub fn is_member(&self, account: &AccountId, space_id: SpaceId) -> (r: bool)
        ensures
            r == self@.owned.contains((*account, space_id)),
    {
        match self.space_ids_owned_by_account_id.get(account) {
            Some(ids) => ids.contains(&space_id),
            None => false,
        }
    }

    /// The spaces that the index names for `account`.
    pub fn spaces_of(&self, account: AccountId) -> (r: BTreeSet<SpaceId>)
        ensures
            forall|s: SpaceId| #[trigger] r@.contains(s) <==> self@.owned.contains((account, s)),
    {
        match self.space_ids_owned_by_account_id.get(&account) {
            Some(ids) => ids.clone(),
            None => BTreeSet::new(),
        }
    }
}

} // verus!
