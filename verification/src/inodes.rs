//! Maps from inode numbers, walked in ascending order.

use std::collections::{BTreeMap, BTreeSet};
use vstd::prelude::*;
use vstd::std_specs::cmp::OrdSpec;
use vstd::std_specs::iter::IteratorSpec;

verus! {

broadcast use vstd::std_specs::btree::group_btree_axioms;

/// Whether every number is less than each later one.
pub open spec fn increasing(numbers: Seq<u64>) -> bool {
    forall|i: int, j: int| 0 <= i < j < numbers.len() ==> numbers[i] < numbers[j]
}

/// The increasing sequence of the numbers in `set`.
pub open spec fn numbers_in_order(set: Set<u64>) -> Seq<u64> {
    choose|numbers: Seq<u64>| increasing(numbers) && #[trigger] numbers.to_set() == set
}

proof fn lemma_increasing_prefix_unique(left: Seq<u64>, right: Seq<u64>, n: int)
    requires
        increasing(left),
        increasing(right),
        left.to_set() == right.to_set(),
        0 <= n <= left.len(),
        n <= right.len(),
    ensures
        forall|i: int| 0 <= i < n ==> left[i] == right[i],
    decreases n,
{
    if n > 0 {
        lemma_increasing_prefix_unique(left, right, n - 1);
        let l = left[n - 1];
        let r = right[n - 1];
        assert(left.to_set().contains(l));
        assert(right.to_set().contains(r));
        assert(right.to_set().contains(l));
        assert(left.to_set().contains(r));
        let i = choose|i: int| 0 <= i < right.len() && right[i] == l;
        let j = choose|j: int| 0 <= j < left.len() && left[j] == r;
        assert(l == r);
    }
}

/// An increasing sequence is the one that its set of numbers determines.
pub proof fn law_numbers_in_order(numbers: Seq<u64>)
    requires
        increasing(numbers),
    ensures
        numbers_in_order(numbers.to_set()) == numbers,
{
    let other = numbers_in_order(numbers.to_set());
    assert(increasing(numbers) && numbers.to_set() == numbers.to_set());
    assert(other.to_set() == numbers.to_set());
    if other.len() < numbers.len() {
        lemma_increasing_prefix_unique(other, numbers, other.len() as int);
        let r = numbers[other.len() as int];
        assert(numbers.to_set().contains(r));
        assert(other.to_set().contains(r));
        let j = choose|j: int| 0 <= j < other.len() && other[j] == r;
        assert(numbers[j] == r);
        assert(false);
    } else {
        lemma_increasing_prefix_unique(other, numbers, numbers.len() as int);
        if other.len() > numbers.len() {
            let l = other[numbers.len() as int];
            assert(other.to_set().contains(l));
            assert(numbers.to_set().contains(l));
            let i = choose|i: int| 0 <= i < numbers.len() && numbers[i] == l;
            assert(other[i] == l);
            assert(false);
        }
        assert(other =~= numbers);
    }
}

proof fn lemma_insert_number(numbers: Seq<u64>, number: u64) -> (all: Seq<u64>)
    requires
        increasing(numbers),
        !numbers.contains(number),
    ensures
        increasing(all),
        all.to_set() == numbers.to_set().insert(number),
    decreases numbers.len(),
{
    if numbers.len() == 0 || numbers.last() < number {
        let all = numbers.push(number);
        assert forall|other: u64| all.to_set().contains(other) == numbers.to_set().insert(
            number,
        ).contains(other) by {
            if numbers.contains(other) {
                let i = choose|i: int| 0 <= i < numbers.len() && numbers[i] == other;
                assert(all[i] == other);
            }
            assert(all[numbers.len() as int] == number);
        }
        assert(all.to_set() =~= numbers.to_set().insert(number));
        all
    } else {
        let (front, last) = (numbers.drop_last(), numbers.last());
        assert forall|i: int| 0 <= i < front.len() implies front[i] != number by {
            assert(numbers[i] == front[i]);
        }
        assert(numbers[numbers.len() - 1] == last);
        let below = lemma_insert_number(front, number);
        let all = below.push(last);
        assert forall|i: int| 0 <= i < below.len() implies below[i] < last by {
            assert(below.to_set().contains(below[i]));
            if below[i] != number {
                assert(front.contains(below[i]));
                let j = choose|j: int| 0 <= j < front.len() && front[j] == below[i];
                assert(numbers[j] < numbers[numbers.len() - 1]);
            }
        }
        assert forall|other: u64| all.to_set().contains(other) == numbers.to_set().insert(
            number,
        ).contains(other) by {
            assert(below.to_set().contains(other) == front.to_set().insert(number).contains(other));
            assert(numbers =~= front.push(last));
            if below.contains(other) {
                let i = choose|i: int| 0 <= i < below.len() && below[i] == other;
                assert(all[i] == other);
            }
            if front.contains(other) {
                let i = choose|i: int| 0 <= i < front.len() && front[i] == other;
                assert(numbers[i] == other);
            }
            assert(all[below.len() as int] == last);
        }
        assert(all.to_set() =~= numbers.to_set().insert(number));
        all
    }
}

proof fn lemma_put_in_order(set: Set<u64>) -> (numbers: Seq<u64>)
    requires
        set.finite(),
    ensures
        increasing(numbers),
        numbers.to_set() == set,
    decreases set.len(),
{
    if set.len() == 0 {
        let numbers = Seq::<u64>::empty();
        assert(numbers.to_set() =~= set);
        numbers
    } else {
        let one = set.choose();
        let rest = lemma_put_in_order(set.remove(one));
        assert(!rest.to_set().contains(one));
        let numbers = lemma_insert_number(rest, one);
        assert(numbers.to_set() =~= set);
        numbers
    }
}

/// The numbers of a finite set can be put in order.
pub proof fn lemma_numbers_in_order(set: Set<u64>)
    requires
        set.finite(),
    ensures
        increasing(numbers_in_order(set)),
        numbers_in_order(set).to_set() == set,
{
    let numbers = lemma_put_in_order(set);
    assert(increasing(numbers) && numbers.to_set() == set);
}

/// The keys of `map` in ascending order.
pub fn sorted_keys<V>(map: &BTreeMap<u64, V>) -> (keys: Vec<u64>)
    ensures
        increasing(keys@),
        keys@.to_set() == map@.dom(),
        keys@ == numbers_in_order(map@.dom()),
{
    let mut keys: Vec<u64> = Vec::new();
    let ghost all = vstd::std_specs::btree::spec_btree_map_iter(map).remaining();
    let ghost names = all.map_values(|pair: (&u64, &V)| *pair.0);
    for pair in walk: map.iter()
        invariant
            walk.seq() == all,
            keys@.len() == walk.index(),
            vstd::std_specs::btree::increasing_seq(names),
            names == all.map_values(|pair: (&u64, &V)| *pair.0),
            forall|i: int| 0 <= i < keys@.len() ==> keys@[i] == names[i],
    {
        keys.push(*pair.0);
    }
    proof {
        assert(keys@.len() == all.len());
        assert(keys@ =~= names);
        assert forall|i: int, j: int| 0 <= i < j < keys@.len() implies keys@[i] < keys@[j] by {
            assert(names[i].cmp_spec(&names[j]) is Less);
        }
        assert forall|key: u64| keys@.to_set().contains(key) == map@.dom().contains(key) by {
            if keys@.contains(key) {
                let i = choose|i: int| 0 <= i < keys@.len() && keys@[i] == key;
                assert(map@.contains_key(*all[i].0));
            }
            if map@.contains_key(key) {
                assert(all.contains((&key, &map@[key])));
                let i = choose|i: int| 0 <= i < all.len() && all[i] == (&key, &map@[key]);
                assert(keys@[i] == key);
            }
        }
        assert(keys@.to_set() =~= map@.dom());
        law_numbers_in_order(keys@);
    }
    keys
}

/// The members of `set` in ascending order.
pub fn sorted_members(set: &BTreeSet<u64>) -> (members: Vec<u64>)
    ensures
        increasing(members@),
        members@.to_set() == set@,
        members@ == numbers_in_order(set@),
{
    let mut members: Vec<u64> = Vec::new();
    let ghost all = vstd::std_specs::btree::spec_btree_keys_iter(set).remaining();
    for member in walk: set.iter()
        invariant
            walk.seq() == all,
            members@.len() == walk.index(),
            forall|i: int| 0 <= i < members@.len() ==> members@[i] == *all[i],
    {
        members.push(*member);
    }
    proof {
        broadcast use vstd::laws_cmp::group_laws_cmp;

        assert(members@ =~= all.unref());
        assert(vstd::laws_cmp::obeys_cmp::<&u64>());
        assert forall|i: int, j: int| 0 <= i < j < members@.len() implies members@[i]
            < members@[j] by {
            assert(OrdSpec::cmp_spec(&all[i], &all[j]) is Less);
        }
        law_numbers_in_order(members@);
    }
    members
}

} // verus!
