//! The state and the security digest of an index: the exclusive or of the digests
//! of all that is in it.

use crate::index::{IndexView, Object};
use crate::inodes::{increasing, lemma_numbers_in_order, numbers_in_order};
use crate::manager::compact::IndexDigest;
use crate::manager::metadata::{
    object_in, opening_tally, revised_summary, tally_deletes_from, tally_objects_from, xor_bytes,
    ChangedDigests, DeltaDigests, SummaryView,
};
use crate::manager::reading::{applies_to, changed_index};
use crate::manager::summary::{
    lemma_changed_objects, lemma_tally_refs, replaced_from, with_object,
};
use crate::manager::undoing::{
    lemma_mix_length, lemma_refs_mix, lemma_tally_growth, lemma_xor_laws, no_digest, object_mix,
    refs_mix_from, security_mix_from, state_mix_from,
};
use crate::manifest::ManifestView;
use crate::ordered::Key;
use vstd::prelude::*;
use vstd::set::fold::{is_fun_commutative, lemma_fold_empty, lemma_fold_insert};

verus! {

/// A way to give each object a digest of its state and one of its security, and
/// each directory entry a digest.
pub struct Hashing {
    pub state: spec_fn(Object) -> [u8; 32],
    pub security: spec_fn(Object) -> [u8; 32],
    pub entry: spec_fn(Key) -> [u8; 32],
}

/// Mixes the digest of one more thing in.
pub open spec fn mixing<A>(digest: spec_fn(A) -> [u8; 32]) -> spec_fn(Seq<u8>, A) -> Seq<u8> {
    |sum: Seq<u8>, thing: A| xor_bytes(sum, digest(thing)@)
}

/// The exclusive or of the digests of things.
pub open spec fn xor_all<A>(things: Set<A>, digest: spec_fn(A) -> [u8; 32]) -> Seq<u8> {
    things.fold(no_digest(), mixing(digest))
}

/// The digest of the object with the inode number.
pub open spec fn digest_at(objects: Map<u64, Object>, digest: spec_fn(Object) -> [u8; 32]) -> spec_fn(
    u64,
) -> [u8; 32] {
    |ino: u64| digest(objects[ino])
}

/// The exclusive or of the digests of objects.
pub open spec fn objects_digest(
    objects: Map<u64, Object>,
    digest: spec_fn(Object) -> [u8; 32],
) -> Seq<u8> {
    xor_all(objects.dom(), digest_at(objects, digest))
}

/// The state digest of an index.
pub open spec fn state_of(index: IndexView, hashing: Hashing) -> Seq<u8> {
    xor_bytes(
        objects_digest(index.objects, hashing.state),
        xor_all(index.references, hashing.entry),
    )
}

/// The security digest of an index.
pub open spec fn security_of(index: IndexView, hashing: Hashing) -> Seq<u8> {
    objects_digest(index.objects, hashing.security)
}

/// Whether both digests in a summary are those of the index.
pub open spec fn hash_right(summary: SummaryView, index: IndexView, hashing: Hashing) -> bool {
    &&& summary.state == state_of(index, hashing)
    &&& summary.security == security_of(index, hashing)
}

/// Whether the digests are those of the entries, each once, in some order.
pub open spec fn lists(digests: Seq<[u8; 32]>, entries: Set<Key>, hashing: Hashing) -> bool {
    exists|order: Seq<Key>| #[trigger] lists_in(digests, order, entries, hashing)
}

/// Whether the digests are those of the entries in the order.
pub open spec fn lists_in(
    digests: Seq<[u8; 32]>,
    order: Seq<Key>,
    entries: Set<Key>,
    hashing: Hashing,
) -> bool {
    &&& order.no_duplicates()
    &&& order.to_set() == entries
    &&& digests.len() == order.len()
    &&& forall|i: int| 0 <= i < order.len() ==> #[trigger] digests[i] == (hashing.entry)(order[i])
}

/// Whether the digests are those of an object before and after a change.
pub open spec fn change_hashed(
    digests: ChangedDigests,
    old: Option<Object>,
    new: Option<Object>,
    hashing: Hashing,
) -> bool {
    &&& old matches Some(old) ==> digests.old_state == (hashing.state)(old) && digests.old_security
        == (hashing.security)(old)
    &&& new matches Some(new) ==> digests.new_state == (hashing.state)(new) && digests.new_security
        == (hashing.security)(new)
}

/// Whether the digests of a delta are those of what it changes.
pub open spec fn delta_hashed(
    digests: DeltaDigests,
    base: Map<u64, Object>,
    target: Map<u64, Object>,
    manifest: ManifestView,
    hashing: Hashing,
) -> bool {
    &&& forall|ino: u64| #[trigger]
        manifest.objects.contains_key(ino) ==> change_hashed(
            digests.objects@[ino],
            object_in(base, ino),
            object_in(target, ino),
            hashing,
        )
    &&& lists(digests.ref_deletes@, manifest.ref_deletes, hashing)
    &&& lists(digests.ref_adds@, manifest.ref_adds, hashing)
}

/// Whether the two digests of a whole index are its own.
pub open spec fn index_hashed(digest: IndexDigest, index: IndexView, hashing: Hashing) -> bool {
    &&& digest.state_hash@ == state_of(index, hashing)
    &&& digest.security_state_hash@ == security_of(index, hashing)
}

proof fn lemma_mixing_commutes<A>(digest: spec_fn(A) -> [u8; 32])
    ensures
        is_fun_commutative(mixing(digest)),
{
    let f = mixing(digest);
    assert forall|a1: A, a2: A, b: Seq<u8>| #[trigger] f(f(b, a2), a1) == f(f(b, a1), a2) by {
        let (x, y) = (digest(a1)@, digest(a2)@);
        assert forall|i: int| 0 <= i < b.len() implies (b[i] ^ y[i]) ^ x[i] == (b[i] ^ x[i])
            ^ y[i] by {
            let (s, p, q) = (b[i], x[i], y[i]);
            assert((s ^ q) ^ p == (s ^ p) ^ q) by (bit_vector);
        }
        assert(f(f(b, a2), a1) =~= f(f(b, a1), a2));
    }
}

proof fn lemma_xor_empty<A>(digest: spec_fn(A) -> [u8; 32])
    ensures
        xor_all(Set::<A>::empty(), digest) == no_digest(),
{
    lemma_fold_empty(no_digest(), mixing(digest));
}

proof fn lemma_xor_added<A>(things: Set<A>, digest: spec_fn(A) -> [u8; 32], added: A)
    requires
        things.finite(),
        !things.contains(added),
    ensures
        xor_all(things.insert(added), digest) == xor_bytes(
            xor_all(things, digest),
            digest(added)@,
        ),
{
    lemma_mixing_commutes(digest);
    lemma_fold_insert(things, no_digest(), mixing(digest), added);
}

proof fn lemma_xor_length<A>(things: Set<A>, digest: spec_fn(A) -> [u8; 32])
    requires
        things.finite(),
    ensures
        xor_all(things, digest).len() == 32,
    decreases things.len(),
{
    if things.len() == 0 {
        assert(things =~= Set::<A>::empty());
        lemma_xor_empty(digest);
    } else {
        let one = things.choose();
        let rest = things.remove(one);
        assert(things =~= rest.insert(one));
        lemma_xor_length(rest, digest);
        lemma_xor_added(rest, digest, one);
    }
}

proof fn lemma_xor_taken<A>(things: Set<A>, digest: spec_fn(A) -> [u8; 32], taken: A)
    requires
        things.finite(),
        things.contains(taken),
    ensures
        xor_all(things.remove(taken), digest) == xor_bytes(
            xor_all(things, digest),
            digest(taken)@,
        ),
{
    let rest = things.remove(taken);
    assert(things =~= rest.insert(taken));
    lemma_xor_added(rest, digest, taken);
    lemma_xor_length(rest, digest);
    lemma_xor_laws(xor_all(rest, digest), digest(taken)@, digest(taken)@);
}

proof fn lemma_xor_same<A>(
    things: Set<A>,
    left: spec_fn(A) -> [u8; 32],
    right: spec_fn(A) -> [u8; 32],
)
    requires
        things.finite(),
        forall|thing: A| #[trigger] things.contains(thing) ==> left(thing) == right(thing),
    ensures
        xor_all(things, left) == xor_all(things, right),
    decreases things.len(),
{
    if things.len() == 0 {
        assert(things =~= Set::<A>::empty());
        lemma_xor_empty(left);
        lemma_xor_empty(right);
    } else {
        let one = things.choose();
        let rest = things.remove(one);
        assert(things =~= rest.insert(one));
        assert(things.contains(one));
        lemma_xor_same(rest, left, right);
        lemma_xor_added(rest, left, one);
        lemma_xor_added(rest, right, one);
    }
}

proof fn lemma_object_replaced(
    objects: Map<u64, Object>,
    ino: u64,
    new: Option<Object>,
    digest: spec_fn(Object) -> [u8; 32],
    old_digest: Seq<u8>,
    new_digest: Seq<u8>,
)
    requires
        objects.dom().finite(),
        old_digest.len() == 32,
        new_digest.len() == 32,
        object_in(objects, ino) matches Some(old) ==> old_digest == digest(old)@,
        new matches Some(new) ==> new_digest == digest(new)@,
    ensures
        with_object(objects, ino, new).dom().finite(),
        objects_digest(with_object(objects, ino, new), digest) == xor_bytes(
            objects_digest(objects, digest),
            object_mix(object_in(objects, ino), new, old_digest, new_digest),
        ),
{
    let old = object_in(objects, ino);
    let after = with_object(objects, ino, new);
    let rest = objects.dom().remove(ino);
    let (before_at, after_at) = (digest_at(objects, digest), digest_at(after, digest));
    let sum = xor_all(rest, before_at);
    lemma_xor_length(rest, before_at);
    lemma_xor_same(rest, before_at, after_at);
    lemma_xor_laws(sum, old_digest, new_digest);
    lemma_xor_laws(old_digest, new_digest, sum);
    lemma_xor_laws(new_digest, old_digest, sum);
    lemma_xor_laws(xor_bytes(sum, old_digest), old_digest, new_digest);
    if old is Some {
        assert(objects.dom() =~= rest.insert(ino));
        lemma_xor_added(rest, before_at, ino);
    } else {
        assert(objects.dom() =~= rest);
    }
    if new is Some {
        assert(after.dom() =~= rest.insert(ino));
        lemma_xor_added(rest, after_at, ino);
    } else {
        assert(after.dom() =~= rest);
    }
    if old == new && old is Some {
        lemma_xor_laws(xor_bytes(sum, old_digest), no_digest(), no_digest());
    }
}

proof fn lemma_objects_replaced(
    objects: Map<u64, Object>,
    base: Map<u64, Object>,
    target: Map<u64, Object>,
    digests: Map<u64, ChangedDigests>,
    inos: Seq<u64>,
    at: int,
    hashing: Hashing,
)
    requires
        0 <= at <= inos.len(),
        increasing(inos),
        objects.dom().finite(),
        forall|i: int|
            at <= i < inos.len() ==> object_in(base, #[trigger] inos[i]) == object_in(
                objects,
                inos[i],
            ),
        forall|i: int|
            at <= i < inos.len() ==> change_hashed(
                digests[#[trigger] inos[i]],
                object_in(base, inos[i]),
                object_in(target, inos[i]),
                hashing,
            ),
    ensures
        replaced_from(objects, target, inos, at).dom().finite(),
        objects_digest(replaced_from(objects, target, inos, at), hashing.state) == xor_bytes(
            objects_digest(objects, hashing.state),
            state_mix_from(base, target, digests, inos, at),
        ),
        objects_digest(replaced_from(objects, target, inos, at), hashing.security) == xor_bytes(
            objects_digest(objects, hashing.security),
            security_mix_from(base, target, digests, inos, at),
        ),
    decreases inos.len() - at,
{
    let (state, security) = (
        objects_digest(objects, hashing.state),
        objects_digest(objects, hashing.security),
    );
    lemma_xor_length(objects.dom(), digest_at(objects, hashing.state));
    lemma_xor_length(objects.dom(), digest_at(objects, hashing.security));
    lemma_xor_laws(state, security, state);
    lemma_xor_laws(security, state, state);
    if at < inos.len() {
        let ino = inos[at];
        let (old, new) = (object_in(base, ino), object_in(target, ino));
        let changed = digests[ino];
        let after = with_object(objects, ino, new);
        lemma_object_replaced(
            objects,
            ino,
            new,
            hashing.state,
            changed.old_state@,
            changed.new_state@,
        );
        lemma_object_replaced(
            objects,
            ino,
            new,
            hashing.security,
            changed.old_security@,
            changed.new_security@,
        );
        assert forall|i: int| at + 1 <= i < inos.len() implies object_in(
            base,
            #[trigger] inos[i],
        ) == object_in(after, inos[i]) by {
            assert(inos[at] < inos[i]);
        }
        lemma_objects_replaced(after, base, target, digests, inos, at + 1, hashing);
        lemma_mix_length(base, target, digests, inos, at + 1);
        let state_step = object_mix(old, new, changed.old_state@, changed.new_state@);
        let security_step = object_mix(old, new, changed.old_security@, changed.new_security@);
        lemma_xor_laws(changed.old_state@, changed.new_state@, state);
        lemma_xor_laws(no_digest(), changed.new_state@, state);
        lemma_xor_laws(no_digest(), no_digest(), state);
        lemma_xor_laws(changed.old_security@, changed.new_security@, state);
        lemma_xor_laws(state, state_step, state_mix_from(base, target, digests, inos, at + 1));
        lemma_xor_laws(
            security,
            security_step,
            security_mix_from(base, target, digests, inos, at + 1),
        );
    }
}

/// The entries of the order from `at` on.
pub open spec fn rest_of(order: Seq<Key>, at: int) -> Set<Key> {
    Set::new(|key: Key| exists|i: int| at <= i < order.len() && #[trigger] order[i] == key)
}

proof fn lemma_rest(order: Seq<Key>, at: int)
    requires
        0 <= at < order.len(),
        order.no_duplicates(),
    ensures
        rest_of(order, at) == rest_of(order, at + 1).insert(order[at]),
        !rest_of(order, at + 1).contains(order[at]),
{
    assert(rest_of(order, at) =~= rest_of(order, at + 1).insert(order[at]));
}

proof fn lemma_entries_change(
    references: Set<Key>,
    digests: Seq<[u8; 32]>,
    order: Seq<Key>,
    at: int,
    hashing: Hashing,
)
    requires
        references.finite(),
        0 <= at <= order.len(),
        order.no_duplicates(),
        digests.len() == order.len(),
        forall|i: int|
            0 <= i < order.len() ==> #[trigger] digests[i] == (hashing.entry)(order[i]),
    ensures
        refs_mix_from(digests, at).len() == 32,
        rest_of(order, at).subset_of(references) ==> {
            &&& references.difference(rest_of(order, at)).finite()
            &&& xor_all(references.difference(rest_of(order, at)), hashing.entry) == xor_bytes(
                xor_all(references, hashing.entry),
                refs_mix_from(digests, at),
            )
        },
        rest_of(order, at).disjoint(references) ==> {
            &&& references.union(rest_of(order, at)).finite()
            &&& xor_all(references.union(rest_of(order, at)), hashing.entry) == xor_bytes(
                xor_all(references, hashing.entry),
                refs_mix_from(digests, at),
            )
        },
    decreases order.len() - at,
{
    let sum = xor_all(references, hashing.entry);
    lemma_xor_length(references, hashing.entry);
    lemma_xor_laws(sum, sum, sum);
    if at < order.len() {
        let key = order[at];
        let rest = rest_of(order, at + 1);
        let mix = refs_mix_from(digests, at + 1);
        assert(digests[at] == (hashing.entry)(key));
        lemma_rest(order, at);
        lemma_entries_change(references, digests, order, at + 1, hashing);
        lemma_xor_laws(digests[at]@, mix, sum);
        lemma_xor_laws(sum, digests[at]@, mix);
        if rest_of(order, at).subset_of(references) {
            let left = references.remove(key);
            lemma_xor_taken(references, hashing.entry, key);
            lemma_entries_change(left, digests, order, at + 1, hashing);
            assert(left.difference(rest) =~= references.difference(rest_of(order, at)));
        }
        if rest_of(order, at).disjoint(references) {
            let more = references.insert(key);
            assert(rest_of(order, at).contains(key));
            lemma_xor_added(references, hashing.entry, key);
            assert(rest.disjoint(more));
            lemma_entries_change(more, digests, order, at + 1, hashing);
            assert(more.union(rest) =~= references.union(rest_of(order, at)));
        }
    } else {
        assert(rest_of(order, at) =~= Set::empty());
        assert(references.difference(rest_of(order, at)) =~= references);
        assert(references.union(rest_of(order, at)) =~= references);
    }
}

proof fn lemma_listed(digests: Seq<[u8; 32]>, entries: Set<Key>, hashing: Hashing) -> (order: Seq<
    Key,
>)
    requires
        lists(digests, entries, hashing),
    ensures
        lists_in(digests, order, entries, hashing),
        rest_of(order, 0) == entries,
{
    let order = choose|order: Seq<Key>| #[trigger] lists_in(digests, order, entries, hashing);
    assert forall|key: Key| rest_of(order, 0).contains(key) == entries.contains(key) by {
        assert(entries.contains(key) == order.to_set().contains(key));
        if order.to_set().contains(key) {
            let i = choose|i: int| 0 <= i < order.len() && order[i] == key;
            assert(order[i] == key);
        }
        if rest_of(order, 0).contains(key) {
            let i = choose|i: int| 0 <= i < order.len() && #[trigger] order[i] == key;
            assert(order.contains(key));
        }
    }
    assert(rest_of(order, 0) =~= entries);
    order
}

/// The digests that a delta makes of those of an index are those of the changed
/// index, however things are given their digests.
pub proof fn law_revised_digests_are_right(
    base: SummaryView,
    index: IndexView,
    subset: Map<u64, Object>,
    target: Map<u64, Object>,
    manifest: ManifestView,
    digests: DeltaDigests,
    counts: Map<u64, i64>,
    hashing: Hashing,
)
    requires
        hash_right(base, index, hashing),
        index.objects.dom().finite(),
        index.references.finite(),
        manifest.objects.dom().finite(),
        applies_to(manifest, index),
        delta_hashed(digests, subset, target, manifest, hashing),
        forall|ino: u64| #[trigger]
            manifest.objects.contains_key(ino) ==> object_in(subset, ino) == object_in(
                index.objects,
                ino,
            ),
    ensures
        revised_summary(base, subset, target, manifest, digests, counts) matches Ok((revised, _))
            ==> hash_right(revised, changed_index(index, manifest, target), hashing),
{
    if let Ok((revised, _)) = revised_summary(base, subset, target, manifest, digests, counts) {
        let changed = manifest.objects.dom();
        let inos = numbers_in_order(changed);
        let objects = index.objects;
        lemma_numbers_in_order(changed);
        lemma_changed_objects(objects, target, changed);
        assert forall|i: int| 0 <= i < inos.len() implies object_in(subset, #[trigger] inos[i])
            == object_in(objects, inos[i]) && change_hashed(
            digests.objects@[inos[i]],
            object_in(subset, inos[i]),
            object_in(target, inos[i]),
            hashing,
        ) by {
            assert(inos.to_set().contains(inos[i]));
            assert(manifest.objects.contains_key(inos[i]));
        }
        let (a, e) = (
            objects_digest(objects, hashing.state),
            xor_all(index.references, hashing.entry),
        );
        lemma_xor_length(objects.dom(), digest_at(objects, hashing.state));
        lemma_xor_length(objects.dom(), digest_at(objects, hashing.security));
        lemma_xor_length(index.references, hashing.entry);
        lemma_objects_replaced(objects, subset, target, digests.objects@, inos, 0, hashing);
        let opening = opening_tally(base, counts);
        lemma_tally_growth(opening, subset, target, digests.objects@, inos, 0);
        let middle = tally_objects_from(opening, subset, target, digests.objects@, inos, 0)->Ok_0;
        lemma_tally_refs(middle, digests.ref_deletes@, 0);
        lemma_refs_mix(middle, digests.ref_deletes@, 0);
        let d = refs_mix_from(digests.ref_deletes@, 0);
        let deleted = tally_deletes_from(middle, digests.ref_deletes@, 0)->Ok_0;
        lemma_xor_laws(middle.state, d, d);
        lemma_tally_refs(deleted, digests.ref_adds@, 0);
        lemma_refs_mix(deleted, digests.ref_adds@, 0);
        let n = refs_mix_from(digests.ref_adds@, 0);
        let m = state_mix_from(subset, target, digests.objects@, inos, 0);
        lemma_mix_length(subset, target, digests.objects@, inos, 0);
        let gone = lemma_listed(digests.ref_deletes@, manifest.ref_deletes, hashing);
        let come = lemma_listed(digests.ref_adds@, manifest.ref_adds, hashing);
        lemma_entries_change(index.references, digests.ref_deletes@, gone, 0, hashing);
        let left = index.references.difference(manifest.ref_deletes);
        assert(manifest.ref_adds.disjoint(left));
        lemma_entries_change(left, digests.ref_adds@, come, 0, hashing);
        lemma_mixed(a, e, m, d, n);
    }
}

proof fn lemma_mixed(a: Seq<u8>, e: Seq<u8>, m: Seq<u8>, d: Seq<u8>, n: Seq<u8>)
    requires
        a.len() == 32,
        e.len() == 32,
        m.len() == 32,
        d.len() == 32,
        n.len() == 32,
    ensures
        xor_bytes(xor_bytes(xor_bytes(xor_bytes(a, e), m), d), n) == xor_bytes(
            xor_bytes(a, m),
            xor_bytes(xor_bytes(e, d), n),
        ),
{
    assert forall|i: int| 0 <= i < 32 implies (((a[i] ^ e[i]) ^ m[i]) ^ d[i]) ^ n[i] == (a[i]
        ^ m[i]) ^ ((e[i] ^ d[i]) ^ n[i]) by {
        let (p, q, r, s, t) = (a[i], e[i], m[i], d[i], n[i]);
        assert((((p ^ q) ^ r) ^ s) ^ t == (p ^ r) ^ ((q ^ s) ^ t)) by (bit_vector);
    }
    assert(xor_bytes(xor_bytes(xor_bytes(xor_bytes(a, e), m), d), n) =~= xor_bytes(
        xor_bytes(a, m),
        xor_bytes(xor_bytes(e, d), n),
    ));
}

} // verus!
