//! Lists of owner accounts: removing repetitions and applying proposed changes.

use crate::utils::AccountId;
use sp_std::collections::btree_set::BTreeSet;
use sp_std::vec::Vec;
use vstd::prelude::*;

verus! {

/// The list `s` without repetitions: of equal accounts the first stays, in its place.
pub open spec fn unique(s: Seq<AccountId>) -> Seq<AccountId>
    decreases s.len(),
{
    if s.len() == 0 {
        Seq::empty()
    } else {
        let front = unique(s.drop_last());
        if front.contains(s.last()) {
            front
        } else {
            front.push(s.last())
        }
    }
}

/// The owners that are left of `current` once the accounts of `remove` are taken out.
pub open spec fn without(current: Seq<AccountId>, remove: Seq<AccountId>) -> Seq<AccountId> {
    current.filter(|a: AccountId| !remove.contains(a))
}

/// The owner list that results from `current` when first the accounts of `remove` leave and
/// then those of `add` join, each account listed once.
pub open spec fn resulting_owners(
    current: Seq<AccountId>,
    add: Seq<AccountId>,
    remove: Seq<AccountId>,
) -> Seq<AccountId> {
    unique(without(current, remove) + add)
}

/// Appending one account to a list appends it to the list without repetitions, unless it is
/// there already.
pub proof fn lemma_unique_push(s: Seq<AccountId>, a: AccountId)
    ensures
        unique(s.push(a)) == if unique(s).contains(a) {
            unique(s)
        } else {
            unique(s).push(a)
        },
{
    assert(s.push(a).drop_last() =~= s);
}

/// A list without repetitions names each account once, names the accounts of the list it was
/// made from and no others, and is no longer than that list.
pub proof fn lemma_unique_properties(s: Seq<AccountId>)
    ensures
        unique(s).no_duplicates(),
        forall|a: AccountId| #[trigger] unique(s).contains(a) <==> s.contains(a),
        unique(s).len() <= s.len(),
        s.len() > 0 ==> unique(s).len() > 0,
    decreases s.len(),
{
    if s.len() > 0 {
        let front = s.drop_last();
        let last = s.last();
        lemma_unique_properties(front);
        let u = unique(front);
        assert(s =~= front.push(last));
        assert forall|a: AccountId| #[trigger] unique(s).contains(a) <==> s.contains(a) by {
            assert(u.contains(a) <==> front.contains(a));
            assert(s.contains(a) <==> front.contains(a) || a == last) by {
                if front.contains(a) {
                    let i = choose|i: int| 0 <= i < front.len() && front[i] == a;
                    assert(s[i] == a);
                }
                if a == last {
                    assert(s[s.len() - 1] == a);
                }
            }
            if u.contains(last) {
                assert(unique(s) == u);
            } else {
                let w = u.push(last);
                assert(unique(s) == w);
                assert(w.contains(a) <==> u.contains(a) || a == last) by {
                    if u.contains(a) {
                        let j = choose|j: int| 0 <= j < u.len() && u[j] == a;
                        assert(w[j] == a);
                    }
                    if a == last {
                        assert(w[w.len() - 1] == a);
                    }
                }
            }
        }
        if front.len() == 0 {
            assert(!u.contains(last));
        }
    }
}

/// Removing repetitions keeps the order of first mention: what is left of the beginning of a
/// list is the beginning of what is left of the whole list.
pub proof fn lemma_unique_keeps_order(s: Seq<AccountId>, k: int)
    requires
        0 <= k <= s.len(),
    ensures
        unique(s.take(k)).is_prefix_of(unique(s)),
    decreases s.len() - k,
{
    if k == s.len() {
        assert(s.take(k) =~= s);
    } else {
        lemma_unique_keeps_order(s, k + 1);
        assert(s.take(k + 1).drop_last() =~= s.take(k));
    }
}

/// Removing repetitions changes nothing in a list that has none.
pub proof fn lemma_unique_of_distinct(s: Seq<AccountId>)
    requires
        s.no_duplicates(),
    ensures
        unique(s) == s,
    decreases s.len(),
{
    if s.len() > 0 {
        let front = s.drop_last();
        lemma_unique_of_distinct(front);
        if front.contains(s.last()) {
            let i = choose|i: int| 0 <= i < front.len() && front[i] == s.last();
            assert(s[i] == s[s.len() - 1]);
        }
        assert(front.push(s.last()) =~= s);
    } else {
        assert(s =~= Seq::empty());
    }
}

/// The accounts of the resulting owner list are the current owners that are not removed,
/// and the added ones; each is listed once.
pub proof fn lemma_resulting_owners_members(
    current: Seq<AccountId>,
    add: Seq<AccountId>,
    remove: Seq<AccountId>,
)
    ensures
        resulting_owners(current, add, remove).no_duplicates(),
        forall|a: AccountId| #[trigger]
            resulting_owners(current, add, remove).contains(a) <==> (current.contains(a)
                && !remove.contains(a)) || add.contains(a),
{
    let keep = |a: AccountId| !remove.contains(a);
    let kept = without(current, remove);
    let all = kept + add;
    lemma_unique_properties(all);
    assert forall|a: AccountId| #[trigger]
        resulting_owners(current, add, remove).contains(a) <==> (current.contains(a)
            && !remove.contains(a)) || add.contains(a) by {
        assert(unique(all).contains(a) <==> all.contains(a));
        assert(kept.contains(a) <==> current.contains(a) && keep(a)) by {
            if kept.contains(a) {
                let i = choose|i: int| 0 <= i < kept.len() && kept[i] == a;
                current.lemma_filter_pred(keep, i);
                current.lemma_filter_contains_rev(keep, a);
            }
            if current.contains(a) && keep(a) {
                let i = choose|i: int| 0 <= i < current.len() && current[i] == a;
                current.lemma_filter_contains(keep, i);
            }
        }
        assert(all.contains(a) <==> kept.contains(a) || add.contains(a)) by {
            if kept.contains(a) {
                let i = choose|i: int| 0 <= i < kept.len() && kept[i] == a;
                assert(all[i] == a);
            }
            if add.contains(a) {
                let i = choose|i: int| 0 <= i < add.len() && add[i] == a;
                assert(all[kept.len() + i] == a);
            }
            if all.contains(a) {
                let i = choose|i: int| 0 <= i < all.len() && all[i] == a;
                if i < kept.len() {
                    assert(kept[i] == a);
                } else {
                    assert(add[i - kept.len()] == a);
                }
            }
        }
    }
}

/// A proposal that removes nobody and adds nobody leaves a list of distinct owners as it is.
pub proof fn lemma_resulting_owners_unchanged(current: Seq<AccountId>)
    requires
        current.no_duplicates(),
    ensures
        resulting_owners(current, Seq::empty(), Seq::empty()) == current,
{
    let none = Seq::<AccountId>::empty();
    let keep = |a: AccountId| !none.contains(a);
    assert(without(current, none) == current) by {
        lemma_filter_all(current, keep);
    }
    assert(current + none =~= current);
    lemma_unique_of_distinct(current);
}

/// A filter that every element passes keeps the whole list.
proof fn lemma_filter_all(s: Seq<AccountId>, keep: spec_fn(AccountId) -> bool)
    requires
        forall|a: AccountId| #[trigger] keep(a),
    ensures
        s.filter(keep) == s,
    decreases s.len(),
{
    reveal(Seq::filter);
    if s.len() > 0 {
        lemma_filter_all(s.drop_last(), keep);
        assert(s.drop_last().push(s.last()) =~= s);
    }
}

/// Whether `who` is one of `list`.
pub fn is_listed(list: &Vec<AccountId>, who: AccountId) -> (r: bool)
    ensures
        r == list@.contains(who),
{
    let mut i: usize = 0;
    while i < list.len()
        invariant
            i <= list.len(),
            forall|j: int| 0 <= j < i ==> list@[j] != who,
        decreases list.len() - i,
    {
        if list[i] == who {
            return true;
        }
        i += 1;
    }
    false
}

/// The set of the accounts in `list`.
fn set_of(list: &Vec<AccountId>) -> (r: BTreeSet<AccountId>)
    ensures
        r@ == list@.to_set(),
{
    let mut r: BTreeSet<AccountId> = BTreeSet::new();
    let mut i: usize = 0;
    while i < list.len()
        invariant
            i <= list.len(),
            r@ == list@.take(i as int).to_set(),
        decreases list.len() - i,
    {
        r.insert(list[i]);
        proof {
            assert(list@.take(i + 1) =~= list@.take(i as int).push(list@[i as int]));
            list@.take(i as int).lemma_push_to_set_commute(list@[i as int]);
        }
        i += 1;
    }
    proof {
        assert(list@.take(list@.len() as int) =~= list@);
    }
    r
}

/// Appends to `result` the accounts of `more` that are not in `dropped` and that it does not
/// hold yet; `seen` is the set of the accounts in `result`.
fn extend_unique(
    result: &mut Vec<AccountId>,
    seen: &mut BTreeSet<AccountId>,
    more: &Vec<AccountId>,
    dropped: &BTreeSet<AccountId>,
    Ghost(before): Ghost<Seq<AccountId>>,
    Ghost(remove): Ghost<Seq<AccountId>>,
)
    requires
        old(result)@ == unique(before),
        old(seen)@ == old(result)@.to_set(),
        dropped@ == remove.to_set(),
    ensures
        final(result)@ == unique(before + without(more@, remove)),
        final(seen)@ == final(result)@.to_set(),
{
    let ghost keep = |a: AccountId| !remove.contains(a);
    let mut i: usize = 0;
    proof {
        reveal(Seq::filter);
        assert(more@.take(0).filter(keep) =~= Seq::empty());
        assert(before + Seq::<AccountId>::empty() =~= before);
    }
    while i < more.len()
        invariant
            i <= more.len(),
            result@ == unique(before + more@.take(i as int).filter(keep)),
            seen@ == result@.to_set(),
            dropped@ == remove.to_set(),
            keep == |a: AccountId| !remove.contains(a),
        decreases more.len() - i,
    {
        let a: AccountId = more[i];
        proof {
            let done = more@.take(i as int);
            assert(more@.take(i + 1) =~= done.push(a));
            done.lemma_filter_push(a, keep);
            if keep(a) {
                assert(before + done.filter(keep).push(a) =~= (before + done.filter(keep)).push(a));
                lemma_unique_push(before + done.filter(keep), a);
            }
        }
        if !dropped.contains(&a) {
            if seen.insert(a) {
                result.push(a);
                proof {
                    let prev = unique(before + more@.take(i as int).filter(keep));
                    prev.lemma_push_to_set_commute(a);
                }
            }
        }
        i += 1;
    }
    proof {
        assert(more@.take(more@.len() as int) =~= more@);
    }
}

/// The accounts of `owners`, each once: of equal accounts the first stays, in its place.
pub fn unique_owners(owners: &Vec<AccountId>) -> (r: Vec<AccountId>)
    ensures
        r@ == unique(owners@),
{
    let mut result: Vec<AccountId> = Vec::new();
    let mut seen: BTreeSet<AccountId> = BTreeSet::new();
    let nothing: BTreeSet<AccountId> = BTreeSet::new();
    let ghost none = Seq::<AccountId>::empty();
    proof {
        assert(result@ =~= unique(none));
        assert(result@.to_set() =~= seen@);
        assert(none.to_set() =~= nothing@);
    }
    extend_unique(&mut result, &mut seen, owners, &nothing, Ghost(none), Ghost(none));
    proof {
        lemma_filter_all(owners@, |a: AccountId| !none.contains(a));
        assert(none + owners@ =~= owners@);
    }
    result
}

/// The owner list that results from `current_owners` when first the accounts of
/// `remove_owners` leave and then those of `add_owners` join. No account is listed twice;
/// the owners that stay keep their order, and the new ones follow in the order of
/// `add_owners`.
pub fn transform_new_owners_to_vec(
    current_owners: &Vec<AccountId>,
    add_owners: &Vec<AccountId>,
    remove_owners: &Vec<AccountId>,
) -> (r: Vec<AccountId>)
    ensures
        r@ == resulting_owners(current_owners@, add_owners@, remove_owners@),
{
    let mut result: Vec<AccountId> = Vec::new();
    let mut seen: BTreeSet<AccountId> = BTreeSet::new();
    let dropped = set_of(remove_owners);
    let nothing: BTreeSet<AccountId> = BTreeSet::new();
    let ghost none = Seq::<AccountId>::empty();
    let ghost kept = without(current_owners@, remove_owners@);
    proof {
        assert(result@ =~= unique(none));
        assert(result@.to_set() =~= seen@);
        assert(none.to_set() =~= nothing@);
    }
    extend_unique(
        &mut result,
        &mut seen,
        current_owners,
        &dropped,
        Ghost(none),
        Ghost(remove_owners@),
    );
    proof {
        assert(none + kept =~= kept);
    }
    extend_unique(&mut result, &mut seen, add_owners, &nothing, Ghost(kept), Ghost(none));
    proof {
        lemma_filter_all(add_owners@, |a: AccountId| !none.contains(a));
    }
    result
}

/// A list with one more account at its end holds that account and what it held before.
pub proof fn lemma_push_contains(s: Seq<AccountId>, last: AccountId)
    ensures
        forall|a: AccountId| #[trigger] s.push(last).contains(a) <==> s.contains(a) || a == last,
{
    let longer = s.push(last);
    assert forall|a: AccountId| #[trigger] longer.contains(a) <==> s.contains(a) || a
        == last by {
        if s.contains(a) {
            let i = choose|i: int| 0 <= i < s.len() && s[i] == a;
            assert(longer[i] == a);
        }
        if a == last {
            assert(longer[s.len() as int] == a);
        }
    }
}

/// Whether two lists hold the same accounts in the same order.
pub fn same_list(a: &Vec<AccountId>, b: &Vec<AccountId>) -> (r: bool)
    ensures
        r == (a@ == b@),
{
    let r = a == b;
    proof {
        if r {
            assert(a@ =~= b@);
        }
    }
    r
}

} // verus!
