//! Sets kept as strictly ascending vectors.

use vstd::prelude::*;

verus! {

/// What an element of an ordered set is compared by: two numbers, then a byte
/// string.
#[verifier::ext_equal]
pub struct Key {
    pub first: u64,
    pub second: u64,
    pub name: Seq<u8>,
}

/// Lexicographic order of byte strings, from index `at` on.
pub open spec fn bytes_less_from(left: Seq<u8>, right: Seq<u8>, at: int) -> bool
    decreases left.len() - at,
{
    if at < 0 || at >= right.len() {
        false
    } else if at >= left.len() {
        true
    } else if left[at] != right[at] {
        left[at] < right[at]
    } else {
        bytes_less_from(left, right, at + 1)
    }
}

/// Lexicographic order of byte strings.
pub open spec fn bytes_less(left: Seq<u8>, right: Seq<u8>) -> bool {
    bytes_less_from(left, right, 0)
}

/// Order of keys: by the first number, then the second, then the name.
pub open spec fn key_less(left: Key, right: Key) -> bool {
    if left.first != right.first {
        left.first < right.first
    } else if left.second != right.second {
        left.second < right.second
    } else {
        bytes_less(left.name, right.name)
    }
}

/// Whether every key is less than each later one.
pub open spec fn ascending(keys: Seq<Key>) -> bool {
    forall|i: int, j: int|
        0 <= i < j < keys.len() ==> key_less(#[trigger] keys[i], #[trigger] keys[j])
}

/// The ascending sequence of the keys in `set`.
pub open spec fn in_order(set: Set<Key>) -> Seq<Key> {
    choose|keys: Seq<Key>| ascending(keys) && #[trigger] keys.to_set() == set
}

proof fn lemma_bytes_irreflexive(left: Seq<u8>, at: int)
    ensures
        !bytes_less_from(left, left, at),
    decreases left.len() - at,
{
    if 0 <= at < left.len() {
        lemma_bytes_irreflexive(left, at + 1);
    }
}

proof fn lemma_bytes_transitive(a: Seq<u8>, b: Seq<u8>, c: Seq<u8>, at: int)
    requires
        bytes_less_from(a, b, at),
        bytes_less_from(b, c, at),
    ensures
        bytes_less_from(a, c, at),
    decreases a.len() - at,
{
    if 0 <= at < a.len() && at < b.len() && at < c.len() && a[at] == b[at] && b[at] == c[at] {
        lemma_bytes_transitive(a, b, c, at + 1);
    }
}

proof fn lemma_bytes_total(a: Seq<u8>, b: Seq<u8>, at: int)
    requires
        0 <= at,
        at <= a.len(),
        at <= b.len(),
        forall|i: int| 0 <= i < at ==> a[i] == b[i],
    ensures
        a == b || bytes_less_from(a, b, at) || bytes_less_from(b, a, at),
    decreases a.len() - at,
{
    if at < a.len() && at < b.len() && a[at] == b[at] {
        lemma_bytes_total(a, b, at + 1);
    } else if at == a.len() && at == b.len() {
        assert(a =~= b);
    }
}

/// The order of byte strings is strict and total.
pub proof fn law_bytes_order(a: Seq<u8>, b: Seq<u8>, c: Seq<u8>)
    ensures
        !bytes_less(a, a),
        bytes_less(a, b) && bytes_less(b, c) ==> bytes_less(a, c),
        a == b || bytes_less(a, b) || bytes_less(b, a),
{
    lemma_bytes_irreflexive(a, 0);
    if bytes_less(a, b) && bytes_less(b, c) {
        lemma_bytes_transitive(a, b, c, 0);
    }
    lemma_bytes_total(a, b, 0);
}

/// The order of keys is strict and total.
pub proof fn law_key_order(a: Key, b: Key, c: Key)
    ensures
        !key_less(a, a),
        key_less(a, b) && key_less(b, c) ==> key_less(a, c),
        a == b || key_less(a, b) || key_less(b, a),
{
    law_bytes_order(a.name, b.name, c.name);
}

proof fn lemma_ascending_prefix_unique(left: Seq<Key>, right: Seq<Key>, n: int)
    requires
        ascending(left),
        ascending(right),
        left.to_set() == right.to_set(),
        0 <= n <= left.len(),
        n <= right.len(),
    ensures
        forall|i: int| 0 <= i < n ==> left[i] == right[i],
    decreases n,
{
    if n > 0 {
        lemma_ascending_prefix_unique(left, right, n - 1);
        let l = left[n - 1];
        let r = right[n - 1];
        assert(left.to_set().contains(l));
        assert(right.to_set().contains(r));
        assert(right.to_set().contains(l));
        assert(left.to_set().contains(r));
        let i = choose|i: int| 0 <= i < right.len() && right[i] == l;
        let j = choose|j: int| 0 <= j < left.len() && left[j] == r;
        law_key_order(l, r, l);
        law_key_order(r, l, r);
        if l != r {
            if i < n - 1 {
                assert(left[i] == l);
                law_key_order(l, l, l);
                assert(false);
            }
            if j < n - 1 {
                assert(right[j] == r);
                law_key_order(r, r, r);
                assert(false);
            }
            assert(key_less(r, l));
            assert(key_less(l, r));
            law_key_order(l, r, l);
            assert(false);
        }
    }
}

/// Two ascending sequences of the same keys are the same sequence.
pub proof fn lemma_ascending_unique(left: Seq<Key>, right: Seq<Key>)
    requires
        ascending(left),
        ascending(right),
        left.to_set() == right.to_set(),
    ensures
        left == right,
{
    if left.len() < right.len() {
        lemma_ascending_prefix_unique(left, right, left.len() as int);
        let r = right[left.len() as int];
        assert(right.to_set().contains(r));
        assert(left.to_set().contains(r));
        let j = choose|j: int| 0 <= j < left.len() && left[j] == r;
        assert(right[j] == r);
        law_key_order(r, r, r);
        assert(false);
    } else {
        lemma_ascending_prefix_unique(left, right, right.len() as int);
        if left.len() > right.len() {
            let l = left[right.len() as int];
            assert(left.to_set().contains(l));
            assert(right.to_set().contains(l));
            let i = choose|i: int| 0 <= i < right.len() && right[i] == l;
            assert(left[i] == l);
            law_key_order(l, l, l);
            assert(false);
        }
        assert(left =~= right);
    }
}

/// An ascending sequence is the one that its set of keys determines.
pub proof fn law_in_order(keys: Seq<Key>)
    requires
        ascending(keys),
    ensures
        in_order(keys.to_set()) == keys,
{
    let chosen = in_order(keys.to_set());
    assert(ascending(keys) && keys.to_set() == keys.to_set());
    lemma_ascending_unique(chosen, keys);
}

proof fn lemma_placed(keys: Seq<Key>, key: Key) -> (all: Seq<Key>)
    requires
        ascending(keys),
        !keys.contains(key),
    ensures
        ascending(all),
        forall|other: Key| #[trigger] all.contains(other) == (keys.contains(other) || other == key),
    decreases keys.len(),
{
    if keys.len() == 0 {
        let all = seq![key];
        assert(all[0] == key);
        all
    } else {
        let last = keys.last();
        let front = keys.drop_last();
        assert(keys[keys.len() - 1] == last);
        law_key_order(last, key, last);
        assert forall|other: Key| #[trigger] keys.contains(other) == (front.contains(other) || other
            == last) by {
            if keys.contains(other) {
                let i = choose|i: int| 0 <= i < keys.len() && keys[i] == other;
                if i < front.len() {
                    assert(front[i] == other);
                }
            }
            if front.contains(other) {
                let i = choose|i: int| 0 <= i < front.len() && front[i] == other;
                assert(keys[i] == other);
            }
        }
        assert(ascending(front)) by {
            assert forall|i: int, j: int| 0 <= i < j < front.len() implies key_less(
                #[trigger] front[i],
                #[trigger] front[j],
            ) by {
                assert(front[i] == keys[i] && front[j] == keys[j]);
            }
        }
        if key_less(last, key) {
            let all = keys.push(key);
            assert forall|i: int, j: int| 0 <= i < j < all.len() implies key_less(
                #[trigger] all[i],
                #[trigger] all[j],
            ) by {
                if j == keys.len() && i < keys.len() - 1 {
                    assert(key_less(keys[i], last));
                    law_key_order(keys[i], last, key);
                }
            }
            assert forall|other: Key| #[trigger] all.contains(other) == (keys.contains(other)
                || other == key) by {
                if keys.contains(other) {
                    let i = choose|i: int| 0 <= i < keys.len() && keys[i] == other;
                    assert(all[i] == other);
                }
                assert(all[keys.len() as int] == key);
                if all.contains(other) && other != key {
                    let i = choose|i: int| 0 <= i < all.len() && all[i] == other;
                    assert(keys[i] == other);
                }
            }
            all
        } else {
            law_key_order(key, last, key);
            let placed = lemma_placed(front, key);
            let all = placed.push(last);
            assert forall|i: int, j: int| 0 <= i < j < all.len() implies key_less(
                #[trigger] all[i],
                #[trigger] all[j],
            ) by {
                if j == placed.len() {
                    assert(placed.contains(placed[i]));
                    if front.contains(placed[i]) {
                        let k = choose|k: int| 0 <= k < front.len() && front[k] == placed[i];
                        assert(key_less(keys[k], keys[keys.len() - 1]));
                    }
                }
            }
            assert forall|other: Key| #[trigger] all.contains(other) == (keys.contains(other)
                || other == key) by {
                assert(all[placed.len() as int] == last);
                if placed.contains(other) {
                    let i = choose|i: int| 0 <= i < placed.len() && placed[i] == other;
                    assert(all[i] == other);
                }
                if all.contains(other) && other != last {
                    let i = choose|i: int| 0 <= i < all.len() && all[i] == other;
                    assert(placed[i] == other);
                    assert(placed.contains(other));
                }
            }
            all
        }
    }
}

proof fn lemma_can_be_ordered(set: Set<Key>) -> (keys: Seq<Key>)
    requires
        set.finite(),
    ensures
        ascending(keys),
        keys.to_set() == set,
    decreases set.len(),
{
    if set.len() == 0 {
        let keys = Seq::<Key>::empty();
        assert(keys.to_set() =~= set);
        keys
    } else {
        let one = set.choose();
        let rest = set.remove(one);
        let front = lemma_can_be_ordered(rest);
        assert(!rest.contains(one));
        assert(front.to_set().contains(one) == front.contains(one));
        let keys = lemma_placed(front, one);
        assert forall|key: Key| keys.to_set().contains(key) == set.contains(key) by {
            assert(front.to_set().contains(key) == rest.contains(key));
        }
        assert(keys.to_set() =~= set);
        keys
    }
}

/// A finite set of keys can be put in order.
pub proof fn lemma_in_order(set: Set<Key>)
    requires
        set.finite(),
    ensures
        ascending(in_order(set)),
        in_order(set).to_set() == set,
{
    let keys = lemma_can_be_ordered(set);
    assert(ascending(keys) && keys.to_set() == set);
}

/// An element of an ordered set.
pub trait Keyed: Sized {
    /// What the element is compared by.
    spec fn key(&self) -> Key;

    /// Whether the element comes before `other`.
    fn precedes(&self, other: &Self) -> (less: bool)
        ensures
            less == key_less(self.key(), other.key()),
    ;

    /// A copy of the element.
    fn duplicate(&self) -> (copy: Self)
        ensures
            copy.key() == self.key(),
    ;
}

/// The keys of a sequence of elements.
pub open spec fn keys_of<T: Keyed>(items: Seq<T>) -> Seq<Key> {
    items.map_values(|item: T| item.key())
}

/// Whether the elements are strictly ascending.
pub fn is_ascending<T: Keyed>(items: &Vec<T>) -> (sorted: bool)
    ensures
        sorted == ascending(keys_of(items@)),
{
    let ghost keys = keys_of(items@);
    let mut at: usize = 1;
    while at < items.len()
        invariant
            keys == keys_of(items@),
            1 <= at,
            items@.len() >= 1 ==> at <= items@.len(),
            forall|i: int, j: int|
                0 <= i < j < at && j < keys.len() ==> key_less(#[trigger] keys[i], #[trigger] keys[j]),
        decreases items@.len() - at,
    {
        if !items[at - 1].precedes(&items[at]) {
            assert(!key_less(keys[at - 1], keys[at as int]));
            return false;
        }
        proof {
            assert forall|i: int, j: int| 0 <= i < j < at + 1 && j < keys.len() implies key_less(
                #[trigger] keys[i],
                #[trigger] keys[j],
            ) by {
                if j == at && i < at - 1 {
                    assert(key_less(keys[i], keys[at - 1]));
                    law_key_order(keys[i], keys[at - 1], keys[at as int]);
                }
            }
        }
        at += 1;
    }
    true
}

/// The set of keys of a sequence of elements.
pub open spec fn key_set<T: Keyed>(items: Seq<T>) -> Set<Key> {
    keys_of(items).to_set()
}

/// Whether `left` comes before `right` in lexicographic order.
pub fn bytes_precede(left: &[u8], right: &[u8]) -> (less: bool)
    ensures
        less == bytes_less(left@, right@),
{
    let mut at: usize = 0;
    while at < left.len() && at < right.len()
        invariant
            at <= left.len(),
            at <= right.len(),
            bytes_less(left@, right@) == bytes_less_from(left@, right@, at as int),
        decreases left.len() - at,
    {
        if left[at] != right[at] {
            return left[at] < right[at];
        }
        at += 1;
    }
    at < right.len()
}

/// Whether an element with the key of `item` is in an ascending vector, and the
/// index of the first element that does not precede it.
pub fn locate<T: Keyed>(items: &Vec<T>, item: &T) -> (place: (usize, bool))
    requires
        ascending(keys_of(items@)),
    ensures
        place.0 <= items@.len(),
        place.1 == key_set(items@).contains(item.key()),
        place.1 ==> place.0 < items@.len() && items@[place.0 as int].key() == item.key(),
        forall|i: int| 0 <= i < place.0 ==> key_less(#[trigger] keys_of(items@)[i], item.key()),
        !place.1 ==> forall|i: int|
            place.0 <= i < items@.len() ==> key_less(item.key(), #[trigger] keys_of(items@)[i]),
{
    let ghost keys = keys_of(items@);
    let mut low: usize = 0;
    let mut high: usize = items.len();
    while low < high
        invariant
            low <= high <= items.len(),
            keys == keys_of(items@),
            ascending(keys),
            forall|i: int| 0 <= i < low ==> key_less(#[trigger] keys[i], item.key()),
            forall|i: int| high <= i < keys.len() ==> !key_less(#[trigger] keys[i], item.key()),
        decreases high - low,
    {
        let middle: usize = low + (high - low) / 2;
        assert(keys[middle as int] == items@[middle as int].key());
        if items[middle].precedes(item) {
            proof {
                assert forall|i: int| 0 <= i < middle + 1 implies key_less(
                    #[trigger] keys[i],
                    item.key(),
                ) by {
                    if i < middle {
                        law_key_order(keys[i], keys[middle as int], item.key());
                    }
                }
            }
            low = middle + 1;
        } else {
            proof {
                assert forall|i: int| middle <= i < keys.len() implies !key_less(
                    #[trigger] keys[i],
                    item.key(),
                ) by {
                    if i > middle {
                        law_key_order(keys[middle as int], keys[i], item.key());
                    }
                }
            }
            high = middle;
        }
    }
    let present: bool = low < items.len() && !item.precedes(&items[low]);
    proof {
        if low < keys.len() {
            assert(keys[low as int] == items@[low as int].key());
            law_key_order(keys[low as int], item.key(), item.key());
            if present {
                assert(keys.to_set().contains(keys[low as int]));
            } else {
                assert forall|i: int| low <= i < keys.len() implies key_less(
                    item.key(),
                    #[trigger] keys[i],
                ) by {
                    if i > low {
                        law_key_order(item.key(), keys[low as int], keys[i]);
                    }
                }
            }
        }
        if !present && keys.to_set().contains(item.key()) {
            let i = choose|i: int| 0 <= i < keys.len() && keys[i] == item.key();
            law_key_order(item.key(), item.key(), item.key());
            assert(false);
        }
    }
    (low, present)
}

/// Adds an element to an ascending vector, unless one with its key is there.
pub fn insert<T: Keyed>(items: &mut Vec<T>, item: T) -> (inserted: bool)
    requires
        ascending(keys_of(old(items)@)),
    ensures
        inserted == !key_set(old(items)@).contains(item.key()),
        !inserted ==> final(items)@ == old(items)@,
        ascending(keys_of(final(items)@)),
        key_set(final(items)@) == key_set(old(items)@).insert(item.key()),
        inserted ==> final(items)@.len() == old(items)@.len() + 1,
        inserted ==> exists|at: int|
            0 <= at <= old(items)@.len() && final(items)@ == #[trigger] old(items)@.insert(
                at,
                item,
            ),
{
    let (at, present): (usize, bool) = locate(items, &item);
    let ghost before = keys_of(items@);
    let ghost key = item.key();
    if present {
        assert(key_set(items@) =~= key_set(old(items)@).insert(key));
        return false;
    }
    items.insert(at, item);
    proof {
        let after = keys_of(items@);
        assert(after =~= before.insert(at as int, key));
        assert forall|i: int, j: int| 0 <= i < j < after.len() implies key_less(
            #[trigger] after[i],
            #[trigger] after[j],
        ) by {
            let bi = if i < at { i } else { i - 1 };
            let bj = if j < at { j } else { j - 1 };
            if i != at && j != at {
                assert(key_less(before[bi], before[bj]));
            } else if i == at {
                assert(after[j] == before[bj]);
            } else {
                assert(after[i] == before[bi]);
            }
        }
        assert(after.to_set() =~= before.to_set().insert(key)) by {
            assert forall|k: Key| after.to_set().contains(k) == before.to_set().insert(
                key,
            ).contains(k) by {
                if after.contains(k) {
                    let i = choose|i: int| 0 <= i < after.len() && after[i] == k;
                    if i < at {
                        assert(before[i] == k);
                    } else if i > at {
                        assert(before[i - 1] == k);
                    }
                }
                if before.contains(k) {
                    let i = choose|i: int| 0 <= i < before.len() && before[i] == k;
                    if i < at {
                        assert(after[i] == k);
                    } else {
                        assert(after[i + 1] == k);
                    }
                }
                assert(after[at as int] == key);
            }
        }
    }
    true
}

/// Takes an element out of an ascending vector, if one with its key is there.
pub fn withdraw<T: Keyed>(items: &mut Vec<T>, item: &T) -> (found: bool)
    requires
        ascending(keys_of(old(items)@)),
    ensures
        found == key_set(old(items)@).contains(item.key()),
        !found ==> final(items)@ == old(items)@,
        ascending(keys_of(final(items)@)),
        key_set(final(items)@) == key_set(old(items)@).remove(item.key()),
{
    let (at, present): (usize, bool) = locate(items, item);
    let ghost before = keys_of(items@);
    let ghost key = item.key();
    if !present {
        assert(key_set(items@) =~= key_set(old(items)@).remove(key));
        return false;
    }
    items.remove(at);
    proof {
        let after = keys_of(items@);
        assert(after =~= before.remove(at as int));
        assert(before[at as int] == key);
        assert forall|i: int, j: int| 0 <= i < j < after.len() implies key_less(
            #[trigger] after[i],
            #[trigger] after[j],
        ) by {
            let bi = if i < at { i } else { i + 1 };
            let bj = if j < at { j } else { j + 1 };
            assert(key_less(before[bi], before[bj]));
        }
        assert(after.to_set() =~= before.to_set().remove(key)) by {
            assert forall|k: Key| after.to_set().contains(k) == before.to_set().remove(
                key,
            ).contains(k) by {
                if after.contains(k) {
                    let i = choose|i: int| 0 <= i < after.len() && after[i] == k;
                    let bi = if i < at { i } else { i + 1 };
                    assert(before[bi] == k);
                    law_key_order(k, k, k);
                    if i < at {
                        assert(key_less(before[bi], before[at as int]));
                    } else {
                        assert(key_less(before[at as int], before[bi]));
                    }
                }
                if before.contains(k) && k != key {
                    let i = choose|i: int| 0 <= i < before.len() && before[i] == k;
                    if i < at {
                        assert(after[i] == k);
                    } else {
                        assert(after[i - 1] == k);
                    }
                }
            }
        }
    }
    true
}

/// The elements of one ascending vector whose keys are not in the other.
pub fn difference<T: Keyed>(items: &Vec<T>, removed: &Vec<T>) -> (kept: Vec<T>)
    requires
        ascending(keys_of(items@)),
        ascending(keys_of(removed@)),
    ensures
        ascending(keys_of(kept@)),
        key_set(kept@) == key_set(items@).difference(key_set(removed@)),
{
    let ghost keys = keys_of(items@);
    let ghost gone = key_set(removed@);
    let mut kept: Vec<T> = Vec::new();
    let mut at: usize = 0;
    assert(keys_of(kept@).to_set() =~= keys.subrange(0, 0).to_set().difference(gone)) by {
        assert(keys.subrange(0, 0) =~= Seq::<Key>::empty());
        assert(keys_of(kept@) =~= Seq::<Key>::empty());
    }
    while at < items.len()
        invariant
            at <= items.len(),
            keys == keys_of(items@),
            gone == key_set(removed@),
            ascending(keys),
            ascending(keys_of(removed@)),
            ascending(keys_of(kept@)),
            keys_of(kept@).to_set() == keys.subrange(0, at as int).to_set().difference(gone),
        decreases items.len() - at,
    {
        let place: (usize, bool) = locate(removed, &items[at]);
        let ghost before = keys_of(kept@);
        let ghost taken = keys.subrange(0, at as int);
        let ghost next = keys.subrange(0, at + 1);
        assert(next =~= taken.push(keys[at as int]));
        proof {
            assert forall|k: Key| next.to_set().contains(k) == taken.to_set().insert(
                keys[at as int],
            ).contains(k) by {
                assert(next[at as int] == keys[at as int]);
                if taken.contains(k) {
                    let i = choose|i: int| 0 <= i < taken.len() && taken[i] == k;
                    assert(next[i] == k);
                }
            }
            assert(next.to_set() =~= taken.to_set().insert(keys[at as int]));
        }
        if !place.1 {
            let copy: T = items[at].duplicate();
            kept.push(copy);
            proof {
                let after = keys_of(kept@);
                let key = keys[at as int];
                assert(after =~= before.push(key));
                assert forall|i: int, j: int| 0 <= i < j < after.len() implies key_less(
                    #[trigger] after[i],
                    #[trigger] after[j],
                ) by {
                    assert(after[i] == before[i]);
                    if j < before.len() {
                        assert(after[j] == before[j]);
                    } else {
                        assert(before.to_set().contains(before[i]));
                        assert(taken.to_set().contains(before[i]));
                        let t = choose|t: int| 0 <= t < taken.len() && taken[t] == before[i];
                        assert(keys[t] == before[i]);
                    }
                }
                assert(after.to_set() =~= before.to_set().insert(key)) by {
                    assert forall|k: Key| after.to_set().contains(k) == before.to_set().insert(
                        key,
                    ).contains(k) by {
                        assert(after[before.len() as int] == key);
                        if before.contains(k) {
                            let i = choose|i: int| 0 <= i < before.len() && before[i] == k;
                            assert(after[i] == k);
                        }
                    }
                }
                assert(after.to_set() =~= next.to_set().difference(gone));
            }
        } else {
            assert(before.to_set() =~= next.to_set().difference(gone));
        }
        at += 1;
    }
    assert(keys.subrange(0, at as int) =~= keys);
    kept
}

} // verus!
