//! Who owns the objects of an index.

use crate::index::{Index, Object};
use crate::inodes::{increasing, sorted_keys};
use crate::manager::metadata::settle_owners_from;
use crate::manager::types::ManagerError;
use std::collections::BTreeMap;
use vstd::prelude::*;
use vstd::set::fold::{is_fun_commutative, lemma_fold_empty, lemma_fold_insert};

verus! {

broadcast use vstd::std_specs::btree::group_btree_axioms;

/// Those of the inode numbers whose object the user owns.
pub open spec fn owned_by(objects: Map<u64, Object>, inos: Set<u64>, uid: u64) -> Set<u64> {
    inos.filter(|ino: u64| objects[ino].uid == uid)
}

/// Whether `counts` says of exactly the owners how many of the objects with
/// the inode numbers they own.
pub open spec fn counts_owners(
    counts: Map<u64, i64>,
    objects: Map<u64, Object>,
    inos: Set<u64>,
) -> bool {
    &&& forall|uid: u64| #[trigger]
        counts.contains_key(uid) <==> owned_by(objects, inos, uid).len() > 0
    &&& forall|uid: u64| #[trigger]
        counts.contains_key(uid) ==> counts[uid] == owned_by(objects, inos, uid).len()
}

/// The users with a positive count.
pub open spec fn owning(counts: Map<u64, i64>) -> Set<u64> {
    counts.dom().filter(|uid: u64| counts[uid] > 0)
}

/// The exclusive or of numbers.
pub open spec fn xor_of(numbers: Set<u64>) -> u64 {
    numbers.fold(0u64, |sum: u64, number: u64| sum ^ number)
}

proof fn lemma_xor_commutes()
    ensures
        is_fun_commutative(|sum: u64, number: u64| sum ^ number),
{
    assert forall|left: u64, right: u64, sum: u64| #[trigger]
        ((sum ^ right) ^ left) == ((sum ^ left) ^ right) by {
        assert(((sum ^ right) ^ left) == ((sum ^ left) ^ right)) by (bit_vector);
    }
}

proof fn lemma_xor_insert(numbers: Set<u64>, number: u64)
    requires
        numbers.finite(),
        !numbers.contains(number),
    ensures
        xor_of(numbers.insert(number)) == xor_of(numbers) ^ number,
{
    lemma_xor_commutes();
    lemma_fold_insert(numbers, 0u64, |sum: u64, number: u64| sum ^ number, number);
}

proof fn lemma_xor_remove(numbers: Set<u64>, number: u64)
    requires
        numbers.finite(),
        numbers.contains(number),
    ensures
        xor_of(numbers.remove(number)) == xor_of(numbers) ^ number,
{
    let rest = numbers.remove(number);
    lemma_xor_insert(rest, number);
    assert(rest.insert(number) =~= numbers);
    let sum = xor_of(rest);
    assert((sum ^ number) ^ number == sum) by (bit_vector);
}

proof fn lemma_owned_insert(objects: Map<u64, Object>, inos: Set<u64>, ino: u64, uid: u64)
    requires
        inos.finite(),
        !inos.contains(ino),
    ensures
        owned_by(objects, inos.insert(ino), uid).len() == owned_by(objects, inos, uid).len() + (
        if objects[ino].uid == uid {
            1int
        } else {
            0int
        }),
{
    let before = owned_by(objects, inos, uid);
    let after = owned_by(objects, inos.insert(ino), uid);
    assert(before.finite());
    if objects[ino].uid == uid {
        assert(after =~= before.insert(ino));
    } else {
        assert(after =~= before);
    }
}

proof fn lemma_owned_grows(objects: Map<u64, Object>, inos: Set<u64>, all: Set<u64>, uid: u64)
    requires
        all.finite(),
        inos.subset_of(all),
    ensures
        owned_by(objects, inos, uid).len() <= owned_by(objects, all, uid).len(),
{
    vstd::set_lib::lemma_len_subset(owned_by(objects, inos, uid), owned_by(objects, all, uid));
}

/// How many objects of an index each of their owners owns.
pub fn index_owner_counts(index: &Index) -> (counted: Result<BTreeMap<u64, i64>, ManagerError>)
    ensures
        match counted {
            Ok(counts) => {
                &&& counts_owners(counts@, index.objects@, index.objects@.dom())
                &&& index.objects@.dom().len() > 0
            },
            Err(error) => {
                ||| {
                    &&& index.objects@.dom().len() == 0
                    &&& error@ == "index has no object owners"@
                }
                ||| {
                    &&& index.objects@.dom().len() > 0
                    &&& exists|uid: u64| #[trigger]
                        owned_by(index.objects@, index.objects@.dom(), uid).len() > i64::MAX
                    &&& error@ == "owner object count overflow"@
                }
            },
        },
{
    let inos = sorted_keys(&index.objects);
    let mut counts: BTreeMap<u64, i64> = BTreeMap::new();
    let ghost objects = index.objects@;
    let ghost mut seen: Set<u64> = Set::empty();
    proof {
        assert forall|uid: u64| owned_by(objects, seen, uid).len() == 0 by {
            assert(owned_by(objects, seen, uid) =~= Set::empty());
        }
    }
    let mut at: usize = 0;
    while at < inos.len()
        invariant
            at <= inos.len(),
            objects == index.objects@,
            increasing(inos@),
            inos@.to_set() == objects.dom(),
            seen == inos@.take(at as int).to_set(),
            seen.finite(),
            counts_owners(counts@, objects, seen),
        decreases inos.len() - at,
    {
        let ino: u64 = inos[at];
        let ghost next = seen.insert(ino);
        proof {
            assert(inos@.to_set().contains(inos@[at as int]));
            assert(inos@.take(at + 1).to_set() =~= next) by {
                assert(inos@.take(at + 1) =~= inos@.take(at as int).push(ino));
                assert forall|n: u64| inos@.take(at + 1).to_set().contains(n) == next.contains(
                    n,
                ) by {
                    if n == ino {
                        assert(inos@.take(at + 1)[at as int] == ino);
                    }
                    if inos@.take(at as int).contains(n) {
                        let i = choose|i: int| 0 <= i < at && inos@.take(at as int)[i] == n;
                        assert(inos@.take(at + 1)[i] == n);
                    }
                }
            }
            assert(!seen.contains(ino));
            assert forall|uid: u64| true implies #[trigger] owned_by(objects, next, uid).len()
                == owned_by(objects, seen, uid).len() + (if objects[ino].uid == uid {
                1int
            } else {
                0int
            }) by {
                lemma_owned_insert(objects, seen, ino, uid);
            }
        }
        match index.objects.get(&ino) {
            None => {
                assert(false);
            },
            Some(object) => {
                let count: i64 = match counts.get(&object.uid) {
                    Some(count) => *count,
                    None => 0,
                };
                if count == i64::MAX {
                    proof {
                        assert(objects.dom().contains(ino));
                        assert(objects.dom().len() > 0);
                        lemma_owned_grows(objects, next, objects.dom(), object.uid);
                        assert(next.subset_of(objects.dom())) by {
                            assert forall|n: u64| next.contains(n) implies objects.dom().contains(
                                n,
                            ) by {
                                if inos@.take(at as int).contains(n) {
                                    let i = choose|i: int|
                                        0 <= i < at && inos@.take(at as int)[i] == n;
                                    assert(inos@[i] == n);
                                    assert(inos@.to_set().contains(n));
                                }
                            }
                        }
                    }
                    return Err(ManagerError::new("owner object count overflow"));
                }
                counts.insert(object.uid, count + 1);
            },
        }
        proof {
            seen = next;
        }
        at += 1;
    }
    assert(inos@.take(at as int) =~= inos@);
    if inos.len() == 0 {
        assert(inos@.to_set() =~= Set::empty());
        return Err(ManagerError::new("index has no object owners"));
    }
    proof {
        assert(inos@.to_set().contains(inos@[0]));
        assert(objects.dom().len() > 0);
    }
    Ok(counts)
}

/// The exclusive or of the users with a positive count.
pub fn owner_uid_xor(counts: &BTreeMap<u64, i64>) -> (xor: u64)
    ensures
        xor == xor_of(owning(counts@)),
{
    let uids = sorted_keys(counts);
    let mut xor: u64 = 0;
    let ghost mut seen: Set<u64> = Set::empty();
    proof {
        lemma_fold_empty(0u64, |sum: u64, number: u64| sum ^ number);
    }
    let mut at: usize = 0;
    while at < uids.len()
        invariant
            at <= uids.len(),
            increasing(uids@),
            uids@.to_set() == counts@.dom(),
            seen.finite(),
            xor == xor_of(seen),
            forall|uid: u64| #[trigger]
                seen.contains(uid) <==> counts@[uid] > 0 && exists|i: int|
                    0 <= i < at && uids@[i] == uid,
        decreases uids.len() - at,
    {
        let uid: u64 = uids[at];
        assert(uids@.to_set().contains(uids@[at as int]));
        let count: i64 = match counts.get(&uid) {
            Some(count) => *count,
            None => 0,
        };
        assert(!seen.contains(uid));
        if count > 0 {
            proof {
                lemma_xor_insert(seen, uid);
                seen = seen.insert(uid);
            }
            xor = xor ^ uid;
        }
        at += 1;
    }
    proof {
        assert forall|uid: u64| seen.contains(uid) == owning(counts@).contains(uid) by {
            if counts@.dom().contains(uid) {
                assert(uids@.to_set().contains(uid));
                let i = choose|i: int| 0 <= i < uids@.len() && uids@[i] == uid;
            }
            if exists|i: int| 0 <= i < at && uids@[i] == uid {
                let i = choose|i: int| 0 <= i < at && uids@[i] == uid;
                assert(uids@.to_set().contains(uids@[i]));
            }
        }
        assert(seen =~= owning(counts@));
    }
    xor
}

/// The owners once the users from `at` on have the counts `after`.
pub open spec fn settled_from(
    owners: Set<u64>,
    after: Map<u64, i64>,
    uids: Seq<u64>,
    at: int,
) -> Set<u64>
    decreases uids.len() - at,
{
    if at < 0 || at >= uids.len() {
        owners
    } else {
        settled_from(
            if after[uids[at]] > 0 {
                owners.insert(uids[at])
            } else {
                owners.remove(uids[at])
            },
            after,
            uids,
            at + 1,
        )
    }
}

proof fn lemma_settled(owners: Set<u64>, after: Map<u64, i64>, uids: Seq<u64>, at: int, uid: u64)
    requires
        increasing(uids),
        0 <= at <= uids.len(),
    ensures
        (exists|i: int| at <= i < uids.len() && uids[i] == uid) ==> settled_from(
            owners,
            after,
            uids,
            at,
        ).contains(uid) == (after[uid] > 0),
        !(exists|i: int| at <= i < uids.len() && uids[i] == uid) ==> settled_from(
            owners,
            after,
            uids,
            at,
        ).contains(uid) == owners.contains(uid),
    decreases uids.len() - at,
{
    if at < uids.len() {
        let next = if after[uids[at]] > 0 {
            owners.insert(uids[at])
        } else {
            owners.remove(uids[at])
        };
        lemma_settled(next, after, uids, at + 1, uid);
        if exists|i: int| at <= i < uids.len() && uids[i] == uid {
            let i = choose|i: int| at <= i < uids.len() && uids[i] == uid;
            if i == at {
                assert(!(exists|j: int| at + 1 <= j < uids.len() && uids[j] == uid));
            }
        }
    }
}

proof fn lemma_settle(
    before: Map<u64, i64>,
    after: Map<u64, i64>,
    uids: Seq<u64>,
    at: int,
    owners: Set<u64>,
)
    requires
        increasing(uids),
        0 <= at <= uids.len(),
        owners.finite(),
        forall|i: int|
            at <= i < uids.len() ==> before[#[trigger] uids[i]] >= 0 && (owners.contains(uids[i])
                <==> before[uids[i]] > 0),
    ensures
        settle_owners_from(
            before,
            after,
            uids,
            at,
            owners.len() as int,
            xor_of(owners),
        ) matches Ok((cardinality, xor)) ==> {
            let settled = settled_from(owners, after, uids, at);
            settled.finite() && cardinality == settled.len() && xor == xor_of(settled)
        },
    decreases uids.len() - at,
{
    if at < uids.len() {
        let uid = uids[at];
        if after[uid] > 0 {
            if before[uid] == 0 {
                lemma_xor_insert(owners, uid);
                lemma_settle(before, after, uids, at + 1, owners.insert(uid));
            } else {
                assert(owners.insert(uid) =~= owners);
                lemma_settle(before, after, uids, at + 1, owners);
            }
        } else if after[uid] == 0 {
            if before[uid] != 0 {
                lemma_xor_remove(owners, uid);
                lemma_settle(before, after, uids, at + 1, owners.remove(uid));
            } else {
                assert(owners.remove(uid) =~= owners);
                lemma_settle(before, after, uids, at + 1, owners);
            }
        }
    }
}

/// Settling only the owners that a delta touches keeps a whole summary right:
/// where the summary of the base gives the number and the exclusive or of all
/// owners, the settled one gives those of all owners afterwards, and the
/// exclusive or is the one owner where there is only one.
pub proof fn law_settled_summary(
    all: Map<u64, i64>,
    before: Map<u64, i64>,
    after: Map<u64, i64>,
    uids: Seq<u64>,
    cardinality: int,
    xor: u64,
)
    requires
        all.dom().finite(),
        forall|uid: u64| #[trigger] all.contains_key(uid) ==> all[uid] >= 0,
        increasing(uids),
        before.dom() == uids.to_set(),
        after.dom() == uids.to_set(),
        forall|uid: u64| #[trigger]
            before.contains_key(uid) ==> before[uid] == (if all.contains_key(uid) {
                all[uid]
            } else {
                0
            }),
        settle_owners_from(
            before,
            after,
            uids,
            0,
            owning(all).len() as int,
            xor_of(owning(all)),
        ) == Ok::<(int, u64), Seq<char>>((cardinality, xor)),
    ensures
        cardinality == owning(all.union_prefer_right(after)).len(),
        xor == xor_of(owning(all.union_prefer_right(after))),
        cardinality == 1 ==> owning(all.union_prefer_right(after)) == set![xor],
{
    let owners = owning(all);
    let whole = all.union_prefer_right(after);
    assert forall|i: int| 0 <= i < uids.len() implies before[#[trigger] uids[i]] >= 0 && (
    owners.contains(uids[i]) <==> before[uids[i]] > 0) by {
        assert(uids.to_set().contains(uids[i]));
        assert(before.contains_key(uids[i]));
    }
    lemma_settle(before, after, uids, 0, owners);
    let settled = settled_from(owners, after, uids, 0);
    assert forall|uid: u64| settled.contains(uid) == owning(whole).contains(uid) by {
        lemma_settled(owners, after, uids, 0, uid);
        if exists|i: int| 0 <= i < uids.len() && uids[i] == uid {
            let i = choose|i: int| 0 <= i < uids.len() && uids[i] == uid;
            assert(uids.to_set().contains(uids[i]));
            assert(after.contains_key(uid));
        } else {
            assert(!uids.to_set().contains(uid));
            assert(!after.contains_key(uid));
        }
    }
    assert(settled =~= owning(whole));
    if cardinality == 1 {
        let only = settled.choose();
        assert(settled.remove(only).len() == 0);
        assert(settled.remove(only) =~= Set::empty());
        assert(settled =~= set![only]);
        lemma_fold_empty(0u64, |sum: u64, number: u64| sum ^ number);
        lemma_xor_insert(Set::empty(), only);
        assert(settled =~= Set::<u64>::empty().insert(only));
        assert(0u64 ^ only == only) by (bit_vector);
    }
}

} // verus!
