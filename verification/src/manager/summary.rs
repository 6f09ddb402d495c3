//! What the summary of a revision says of its index.

use crate::index::{IndexView, Object};
use crate::inodes::{increasing, lemma_numbers_in_order, numbers_in_order};
use crate::manager::compact::{
    checkpoint_differs, compact_fault, compaction, is_compact, law_compaction_keeps_indexes,
    lemma_chain_lower, lemma_slot_kept, owners_of, summary_of, IndexDigest, RevisionReport,
};
use crate::manager::delta::{
    base_counts, delta_base, delta_summary, needs_compaction, publishes_adjacent, publishes_delta,
    readies_base, touched_owners, AppliedDelta,
};
use crate::manager::fresh::{publishes_fresh, PathLookup};
use crate::manager::hashes::{
    delta_hashed, hash_right, index_hashed, law_revised_digests_are_right, Hashing,
};
use crate::manager::metadata::{
    covers, lemma_owners_keep_domain, object_in, opening_tally, owner_of, revised_summary,
    settle_owners_from, tally_adds_from, tally_deletes_from, tally_object, tally_objects_from,
    xor_bytes, ChangedDigests, DeltaDigests, SummaryView, Tally,
};
use crate::manager::owners::{counts_owners, law_settled_summary, owned_by, owning, xor_of};
use crate::manager::publish::{publishes_initial, CheckedIndex};
use crate::manager::reading::{
    applies_to, changed_index, law_delta_is_read_back, law_depth_bounds_the_chain,
    law_next_number_is_new, law_row_is_found, lemma_chain_push, lemma_depth,
    lemma_depths_compacted,
};
use crate::manager::revisions::{
    chain_index_from, chain_owner_count_from, chain_refs_from, chain_stored, changes_of,
    depths_sound, law_chain_agrees, lemma_chain_stored, overlaid_objects, revision_index,
    storage_chain, MAX_DEPTH,
};
use crate::manager::rows::{Overlay, Revision, RevisionState, Store};
use crate::manager::stage::{object_overrides, overrides_entries};
use crate::manager::subset::{delta_subset, touched, with_parents};
use crate::manager::table::{lemma_slot, numbered, slot};
use crate::manager::types::{
    CutReservation, InitializeReservation, InitializedWatch, ManagerError, PublishedCut,
    RecordedSnapshot,
};
use crate::manifest::ManifestView;
use crate::ordered::{key_set, Key};
use vstd::prelude::*;

verus! {

broadcast use vstd::std_specs::btree::group_btree_axioms;

/// Those of the inode numbers whose object passes the test.
pub open spec fn picked(objects: Map<u64, Object>, test: spec_fn(Object) -> bool) -> Set<u64> {
    objects.dom().filter(|ino: u64| test(objects[ino]))
}

/// The test of an object that carries privileged metadata.
pub open spec fn is_privileged() -> spec_fn(Object) -> bool {
    |object: Object| object.privilege_flags != 0
}

/// The test of an object that the user owns.
pub open spec fn is_owned(uid: u64) -> spec_fn(Object) -> bool {
    |object: Object| object.uid == uid
}

/// The one user that owns all objects.
pub open spec fn sole_owner(objects: Map<u64, Object>) -> Option<u64> {
    if owners_of(objects).len() == 1 {
        Some(owners_of(objects).choose())
    } else {
        None
    }
}

/// Whether the counts, the owners and the digests in a summary are those of the
/// index.
pub open spec fn summary_right(summary: SummaryView, index: IndexView, hashing: Hashing) -> bool {
    &&& index.objects.dom().finite()
    &&& index.references.finite()
    &&& summary.object_count == index.objects.dom().len()
    &&& summary.ref_count == index.references.len()
    &&& summary.owner_cardinality == owners_of(index.objects).len()
    &&& summary.owner_uid_xor == xor_of(owners_of(index.objects))
    &&& summary.single_owner_uid == sole_owner(index.objects)
    &&& summary.privileged == picked(index.objects, is_privileged()).len()
    &&& hash_right(summary, index, hashing)
}

/// The objects with the one at the inode number replaced.
pub open spec fn with_object(
    objects: Map<u64, Object>,
    ino: u64,
    object: Option<Object>,
) -> Map<u64, Object> {
    match object {
        Some(object) => objects.insert(ino, object),
        None => objects.remove(ino),
    }
}

/// The objects with those at the inode numbers from `at` on replaced by what
/// the target has there.
pub open spec fn replaced_from(
    objects: Map<u64, Object>,
    target: Map<u64, Object>,
    inos: Seq<u64>,
    at: int,
) -> Map<u64, Object>
    decreases inos.len() - at,
{
    if at < 0 || at >= inos.len() {
        objects
    } else {
        replaced_from(
            with_object(objects, inos[at], object_in(target, inos[at])),
            target,
            inos,
            at + 1,
        )
    }
}

/// One for an object that passes the test, nothing for another or for none.
pub open spec fn weight(object: Option<Object>, test: spec_fn(Object) -> bool) -> int {
    match object {
        Some(object) => if test(object) {
            1
        } else {
            0
        },
        None => 0,
    }
}

proof fn lemma_picked_replaced(
    objects: Map<u64, Object>,
    ino: u64,
    object: Option<Object>,
    test: spec_fn(Object) -> bool,
)
    requires
        objects.dom().finite(),
    ensures
        with_object(objects, ino, object).dom().finite(),
        picked(with_object(objects, ino, object), test).finite(),
        picked(with_object(objects, ino, object), test).len() == picked(objects, test).len()
            - weight(object_in(objects, ino), test) + weight(object, test),
{
    let after = with_object(objects, ino, object);
    let (before_set, after_set) = (picked(objects, test), picked(after, test));
    assert(before_set.finite());
    let rest = before_set.remove(ino);
    assert(rest.len() == before_set.len() - weight(object_in(objects, ino), test));
    if weight(object, test) == 1 {
        assert(after_set =~= rest.insert(ino));
    } else {
        assert(after_set =~= rest);
    }
}

proof fn lemma_owned_is_picked(objects: Map<u64, Object>, uid: u64)
    ensures
        owned_by(objects, objects.dom(), uid) == picked(objects, is_owned(uid)),
{
    assert(owned_by(objects, objects.dom(), uid) =~= picked(objects, is_owned(uid)));
}

/// The test that every object passes.
pub open spec fn is_any() -> spec_fn(Object) -> bool {
    |object: Object| true
}

/// Whether running totals are those of the objects, as far as they speak of
/// them.
pub open spec fn tally_right(tally: Tally, objects: Map<u64, Object>) -> bool {
    &&& objects.dom().finite()
    &&& tally.object_count == objects.dom().len()
    &&& tally.privileged == picked(objects, is_privileged()).len()
    &&& forall|uid: u64| #[trigger]
        tally.owners.contains_key(uid) ==> tally.owners[uid] == picked(
            objects,
            is_owned(uid),
        ).len()
}

proof fn lemma_step_right(
    tally: Tally,
    objects: Map<u64, Object>,
    ino: u64,
    new: Option<Object>,
    digests: ChangedDigests,
)
    requires
        tally_right(tally, objects),
        tally_object(tally, object_in(objects, ino), new, digests) is Ok,
    ensures
        tally_right(
            tally_object(tally, object_in(objects, ino), new, digests)->Ok_0,
            with_object(objects, ino, new),
        ),
{
    let old = object_in(objects, ino);
    let next = tally_object(tally, old, new, digests)->Ok_0;
    let after = with_object(objects, ino, new);
    lemma_picked_replaced(objects, ino, new, is_any());
    assert(picked(objects, is_any()) =~= objects.dom());
    assert(picked(after, is_any()) =~= after.dom());
    lemma_picked_replaced(objects, ino, new, is_privileged());
    assert forall|uid: u64| #[trigger] next.owners.contains_key(uid) implies next.owners[uid]
        == picked(after, is_owned(uid)).len() by {
        lemma_picked_replaced(objects, ino, new, is_owned(uid));
        assert(tally.owners.contains_key(uid));
    }
}

/// Totals that are right stay right over all changed objects.
proof fn lemma_tally_right(
    tally: Tally,
    objects: Map<u64, Object>,
    base: Map<u64, Object>,
    target: Map<u64, Object>,
    digests: Map<u64, ChangedDigests>,
    inos: Seq<u64>,
    at: int,
)
    requires
        0 <= at <= inos.len(),
        increasing(inos),
        tally_right(tally, objects),
        forall|i: int|
            at <= i < inos.len() ==> object_in(base, #[trigger] inos[i]) == object_in(
                objects,
                inos[i],
            ),
        tally_objects_from(tally, base, target, digests, inos, at) is Ok,
    ensures
        tally_right(
            tally_objects_from(tally, base, target, digests, inos, at)->Ok_0,
            replaced_from(objects, target, inos, at),
        ),
        tally_objects_from(tally, base, target, digests, inos, at)->Ok_0.ref_count
            == tally.ref_count,
        tally_objects_from(tally, base, target, digests, inos, at)->Ok_0.owners.dom()
            == tally.owners.dom(),
    decreases inos.len() - at,
{
    if at < inos.len() {
        let ino = inos[at];
        let new = object_in(target, ino);
        lemma_step_right(tally, objects, ino, new, digests[ino]);
        let next = tally_object(tally, object_in(base, ino), new, digests[ino])->Ok_0;
        assert(next.owners.dom() =~= tally.owners.dom());
        let after = with_object(objects, ino, new);
        assert forall|i: int| at + 1 <= i < inos.len() implies object_in(
            base,
            #[trigger] inos[i],
        ) == object_in(after, inos[i]) by {
            assert(inos[at] < inos[i]);
        }
        lemma_tally_right(next, after, base, target, digests, inos, at + 1);
    }
}

proof fn lemma_replaced(
    objects: Map<u64, Object>,
    target: Map<u64, Object>,
    inos: Seq<u64>,
    at: int,
    ino: u64,
)
    requires
        0 <= at <= inos.len(),
        increasing(inos),
    ensures
        object_in(replaced_from(objects, target, inos, at), ino) == if exists|i: int|
            at <= i < inos.len() && inos[i] == ino {
            object_in(target, ino)
        } else {
            object_in(objects, ino)
        },
    decreases inos.len() - at,
{
    if at < inos.len() {
        let next = with_object(objects, inos[at], object_in(target, inos[at]));
        lemma_replaced(next, target, inos, at + 1, ino);
        if exists|i: int| at <= i < inos.len() && inos[i] == ino {
            let i = choose|i: int| at <= i < inos.len() && inos[i] == ino;
            if i > at {
                assert(at + 1 <= i < inos.len() && inos[i] == ino);
            } else {
                assert(object_in(next, ino) == object_in(target, ino));
            }
        } else {
            assert(inos[at] != ino);
            assert(object_in(next, ino) == object_in(objects, ino));
        }
    }
}

pub(crate) proof fn lemma_tally_refs(tally: Tally, digests: Seq<[u8; 32]>, at: int)
    requires
        0 <= at <= digests.len(),
    ensures
        tally_deletes_from(tally, digests, at) matches Ok(next) ==> {
            &&& next.ref_count == tally.ref_count - (digests.len() - at)
            &&& next.object_count == tally.object_count
            &&& next.privileged == tally.privileged
            &&& next.owners == tally.owners
            &&& next.security == tally.security
        },
        tally_adds_from(tally, digests, at) matches Ok(next) ==> {
            &&& next.ref_count == tally.ref_count + (digests.len() - at)
            &&& next.object_count == tally.object_count
            &&& next.privileged == tally.privileged
            &&& next.owners == tally.owners
            &&& next.security == tally.security
        },
    decreases digests.len() - at,
{
    if at < digests.len() {
        let state = xor_bytes(tally.state, digests[at]@);
        lemma_tally_refs(
            Tally { ref_count: tally.ref_count - 1, state, ..tally },
            digests,
            at + 1,
        );
        lemma_tally_refs(
            Tally { ref_count: tally.ref_count + 1, state, ..tally },
            digests,
            at + 1,
        );
    }
}

proof fn lemma_owners_finite(objects: Map<u64, Object>)
    requires
        objects.dom().finite(),
    ensures
        owners_of(objects).finite(),
        forall|uid: u64| #[trigger]
            owners_of(objects).contains(uid) <==> picked(objects, is_owned(uid)).len() > 0,
{
    let uids = objects.dom().map(|ino: u64| objects[ino].uid);
    objects.dom().lemma_map_finite(|ino: u64| objects[ino].uid);
    assert forall|uid: u64| owners_of(objects).contains(uid) implies uids.contains(uid) by {
        lemma_owned_is_picked(objects, uid);
        let ino = owned_by(objects, objects.dom(), uid).choose();
        assert(owned_by(objects, objects.dom(), uid).contains(ino));
        assert(objects.dom().contains(ino) && objects[ino].uid == uid);
    }
    assert(owners_of(objects).subset_of(uids));
    vstd::set_lib::lemma_set_subset_finite(uids, owners_of(objects));
    assert forall|uid: u64| #[trigger] owners_of(objects).contains(uid) <==> picked(
        objects,
        is_owned(uid),
    ).len() > 0 by {
        lemma_owned_is_picked(objects, uid);
    }
}

pub(crate) proof fn lemma_changed_objects(
    base: Map<u64, Object>,
    target: Map<u64, Object>,
    changed: Set<u64>,
)
    requires
        changed.finite(),
    ensures
        overlaid_objects(base, object_overrides(changed, target)) == replaced_from(
            base,
            target,
            numbers_in_order(changed),
            0,
        ),
{
    let inos = numbers_in_order(changed);
    lemma_numbers_in_order(changed);
    let left = overlaid_objects(base, object_overrides(changed, target));
    let right = replaced_from(base, target, inos, 0);
    assert forall|ino: u64| object_in(left, ino) == object_in(right, ino) by {
        lemma_replaced(base, target, inos, 0, ino);
        assert(changed.contains(ino) == inos.to_set().contains(ino));
        if changed.contains(ino) {
            let i = choose|i: int| 0 <= i < inos.len() && inos[i] == ino;
            assert(0 <= i < inos.len() && inos[i] == ino);
        } else if exists|i: int| 0 <= i < inos.len() && inos[i] == ino {
            let i = choose|i: int| 0 <= i < inos.len() && inos[i] == ino;
            assert(inos.contains(ino));
        }
    }
    assert forall|ino: u64| left.dom().contains(ino) == right.dom().contains(ino) by {
        assert(object_in(left, ino) == object_in(right, ino));
    }
    assert forall|ino: u64| left.dom().contains(ino) implies left[ino] == right[ino] by {
        assert(object_in(left, ino) == object_in(right, ino));
    }
    assert(left =~= right);
}

/// A user whom a delta does not touch owns what they owned.
proof fn lemma_untouched_owner(
    base: Map<u64, Object>,
    target: Map<u64, Object>,
    changed: Set<u64>,
    uid: u64,
)
    requires
        forall|ino: u64| #[trigger]
            changed.contains(ino) ==> owner_of(object_in(base, ino)) != Some(uid) && owner_of(
                object_in(target, ino),
            ) != Some(uid),
    ensures
        picked(overlaid_objects(base, object_overrides(changed, target)), is_owned(uid)) == picked(
            base,
            is_owned(uid),
        ),
{
    let after = overlaid_objects(base, object_overrides(changed, target));
    let (left, right) = (picked(after, is_owned(uid)), picked(base, is_owned(uid)));
    assert forall|ino: u64| left.contains(ino) == right.contains(ino) by {
        if changed.contains(ino) {
            assert(owner_of(object_in(base, ino)) != Some(uid));
        }
    }
    assert(left =~= right);
}

proof fn lemma_changed_references(
    references: Set<Key>,
    adds: Set<Key>,
    deletes: Set<Key>,
)
    requires
        references.finite(),
        adds.finite(),
        deletes.finite(),
        adds.disjoint(references),
        deletes.subset_of(references),
    ensures
        references.difference(deletes).union(adds).finite(),
        references.difference(deletes).union(adds).len() == references.len() - deletes.len()
            + adds.len(),
{
    let left = references.difference(deletes);
    assert(references =~= left.union(deletes));
    vstd::set_lib::lemma_set_disjoint_lens(left, deletes);
    vstd::set_lib::lemma_set_disjoint_lens(left, adds);
}

/// Whether the counts say of each of their users what the user owns.
pub open spec fn counts_right(counts: Map<u64, i64>, objects: Map<u64, Object>) -> bool {
    forall|uid: u64| #[trigger]
        counts.contains_key(uid) ==> counts[uid] == picked(objects, is_owned(uid)).len()
}

/// The summary that a delta makes of a right one is right.
pub proof fn law_revised_summary_is_right(
    base: SummaryView,
    index: IndexView,
    subset: Map<u64, Object>,
    target: Map<u64, Object>,
    manifest: ManifestView,
    digests: DeltaDigests,
    counts: Map<u64, i64>,
    hashing: Hashing,
)
    requires
        summary_right(base, index, hashing),
        forall|uid: u64| #[trigger] picked(index.objects, is_owned(uid)).len() <= i64::MAX,
        manifest.objects.dom().finite(),
        manifest.ref_adds.finite(),
        manifest.ref_deletes.finite(),
        applies_to(manifest, index),
        covers(digests, manifest),
        forall|ino: u64| #[trigger]
            manifest.objects.contains_key(ino) ==> object_in(subset, ino) == object_in(
                index.objects,
                ino,
            ),
        counts.dom() == touched_owners(manifest.objects.dom(), subset, target),
        counts.dom().finite(),
        counts_right(counts, index.objects),
        delta_hashed(digests, subset, target, manifest, hashing),
    ensures
        revised_summary(base, subset, target, manifest, digests, counts) matches Ok(
            (revised, after),
        ) ==> {
            &&& summary_right(revised, changed_index(index, manifest, target), hashing)
            &&& counts_right(after, changed_index(index, manifest, target).objects)
            &&& after.dom() == counts.dom()
        },
{
    if let Ok((revised, after)) = revised_summary(
        base,
        subset,
        target,
        manifest,
        digests,
        counts,
    ) {
        let changed = manifest.objects.dom();
        let inos = numbers_in_order(changed);
        let objects = index.objects;
        let whole = changed_index(index, manifest, target);
        lemma_numbers_in_order(changed);
        lemma_changed_objects(objects, target, changed);
        lemma_changed_references(index.references, manifest.ref_adds, manifest.ref_deletes);
        let opening = opening_tally(base, counts);
        assert forall|i: int| 0 <= i < inos.len() implies object_in(subset, #[trigger] inos[i])
            == object_in(objects, inos[i]) by {
            assert(inos.to_set().contains(inos[i]));
        }
        lemma_tally_right(opening, objects, subset, target, digests.objects@, inos, 0);
        let middle = tally_objects_from(opening, subset, target, digests.objects@, inos, 0)->Ok_0;
        lemma_tally_refs(middle, digests.ref_deletes@, 0);
        let deleted = tally_deletes_from(middle, digests.ref_deletes@, 0)->Ok_0;
        lemma_tally_refs(deleted, digests.ref_adds@, 0);
        assert(after == middle.owners);
        lemma_settled_owners(objects, target, subset, changed, counts, after, base);
        law_revised_digests_are_right(
            base,
            index,
            subset,
            target,
            manifest,
            digests,
            counts,
            hashing,
        );
    }
}

proof fn lemma_settled_owners(
    objects: Map<u64, Object>,
    target: Map<u64, Object>,
    subset: Map<u64, Object>,
    changed: Set<u64>,
    before: Map<u64, i64>,
    after: Map<u64, i64>,
    base: SummaryView,
)
    requires
        objects.dom().finite(),
        changed.finite(),
        forall|uid: u64| #[trigger] picked(objects, is_owned(uid)).len() <= i64::MAX,
        base.owner_cardinality == owners_of(objects).len(),
        base.owner_uid_xor == xor_of(owners_of(objects)),
        forall|ino: u64| #[trigger]
            changed.contains(ino) ==> object_in(subset, ino) == object_in(objects, ino),
        before.dom() == touched_owners(changed, subset, target),
        before.dom().finite(),
        after.dom() == before.dom(),
        counts_right(before, objects),
        counts_right(after, overlaid_objects(objects, object_overrides(changed, target))),
        overlaid_objects(objects, object_overrides(changed, target)).dom().finite(),
    ensures
        settle_owners_from(
            before,
            after,
            numbers_in_order(after.dom()),
            0,
            base.owner_cardinality,
            base.owner_uid_xor,
        ) matches Ok((cardinality, xor)) ==> {
            let whole = overlaid_objects(objects, object_overrides(changed, target));
            &&& cardinality == owners_of(whole).len()
            &&& xor == xor_of(owners_of(whole))
            &&& cardinality == 1 ==> sole_owner(whole) == Some(xor)
        },
{
    let whole = overlaid_objects(objects, object_overrides(changed, target));
    let uids = numbers_in_order(after.dom());
    let all = Map::new(
        |uid: u64| owners_of(objects).contains(uid),
        |uid: u64| picked(objects, is_owned(uid)).len() as i64,
    );
    lemma_numbers_in_order(after.dom());
    lemma_owners_finite(objects);
    lemma_owners_finite(whole);
    assert(all.dom() =~= owners_of(objects));
    assert(owning(all) =~= owners_of(objects)) by {
        assert forall|uid: u64| owning(all).contains(uid) == owners_of(objects).contains(uid) by {
            assert(picked(objects, is_owned(uid)).len() <= i64::MAX);
        }
    }
    if let Ok((cardinality, xor)) = settle_owners_from(
        before,
        after,
        uids,
        0,
        base.owner_cardinality,
        base.owner_uid_xor,
    ) {
        assert forall|uid: u64| #[trigger] before.contains_key(uid) implies before[uid] == (
        if all.contains_key(uid) {
            all[uid]
        } else {
            0
        }) by {
            assert(picked(objects, is_owned(uid)).len() <= i64::MAX);
            assert(owners_of(objects).contains(uid) <==> picked(objects, is_owned(uid)).len() > 0);
        }
        law_settled_summary(all, before, after, uids, cardinality, xor);
        let settled = all.union_prefer_right(after);
        assert forall|uid: u64| owning(settled).contains(uid) == owners_of(whole).contains(uid) by {
            assert(owners_of(whole).contains(uid) <==> picked(whole, is_owned(uid)).len() > 0);
            assert(owners_of(objects).contains(uid) <==> picked(objects, is_owned(uid)).len() > 0);
            assert(picked(objects, is_owned(uid)).len() <= i64::MAX);
            if !after.contains_key(uid) {
                assert(!touched_owners(changed, subset, target).contains(uid));
                lemma_untouched_owner(objects, target, changed, uid);
            }
        }
        assert(owning(settled) =~= owners_of(whole));
        if cardinality == 1 {
            assert(owners_of(whole) == set![xor]);
            assert(set![xor].contains(owners_of(whole).choose()));
        }
    }
}

/// Whether a checkpoint that the revision has counts its owners.
pub open spec fn checkpoint_counted(revision: Revision) -> bool {
    revision.checkpoint matches Some(checkpoint) ==> counts_owners(
        checkpoint.owner_counts@,
        checkpoint.index@.objects,
        checkpoint.index@.objects.dom(),
    )
}

/// Whether the chain says of every user how many of the objects the user owns.
pub open spec fn chain_counted(
    revisions: Seq<Revision>,
    chain: Seq<i64>,
    objects: Map<u64, Object>,
) -> bool {
    forall|uid: u64| #[trigger]
        chain_owner_count_from(revisions, chain, uid, 0) == picked(objects, is_owned(uid)).len()
}

/// Whether a stored revision can be read, and its summary and its counts of
/// owners are those of what is read.
pub open spec fn summarized(revisions: Seq<Revision>, id: i64, hashing: Hashing) -> bool {
    &&& numbered(revisions, id) matches Some(revision)
    &&& storage_chain(revisions, id) matches Ok(chain)
    &&& chain_index_from(revisions, chain, 0) matches Ok(index)
    &&& summary_right(revision.summary@, index, hashing)
    &&& chain_counted(revisions, chain, index.objects)
    &&& checkpoint_counted(revision)
}

/// Whether the owner, the privileged objects and the digests in a digest are those
/// of the index.
pub open spec fn digest_right(digest: IndexDigest, index: IndexView, hashing: Hashing) -> bool {
    &&& digest.single_owner_uid == sole_owner(index.objects)
    &&& digest.privileged_metadata_count == picked(index.objects, is_privileged()).len()
    &&& index_hashed(digest, index, hashing)
}

pub(crate) proof fn lemma_count_push(
    revisions: Seq<Revision>,
    added: Revision,
    chain: Seq<i64>,
    uid: u64,
    at: int,
)
    requires
        chain_stored(revisions, chain),
        0 <= at,
    ensures
        chain_owner_count_from(revisions.push(added), chain, uid, at) == chain_owner_count_from(
            revisions,
            chain,
            uid,
            at,
        ),
    decreases chain.len() - at,
{
    if at >= chain.len() - 1 {
        assert(chain.last() == chain[chain.len() - 1]);
        law_row_is_found(revisions, added, chain.last());
    } else {
        law_row_is_found(revisions, added, chain[at]);
        lemma_count_push(revisions, added, chain, uid, at + 1);
    }
}

pub(crate) proof fn lemma_count_shift(
    revisions: Seq<Revision>,
    head: i64,
    rest: Seq<i64>,
    uid: u64,
    at: int,
)
    requires
        0 <= at < rest.len(),
    ensures
        chain_owner_count_from(revisions, seq![head] + rest, uid, at + 1)
            == chain_owner_count_from(revisions, rest, uid, at),
    decreases rest.len() - at,
{
    let chain = seq![head] + rest;
    assert(chain.last() == rest.last());
    assert(chain[at + 1] == rest[at]);
    if at < rest.len() - 1 {
        lemma_count_shift(revisions, head, rest, uid, at + 1);
    }
}

proof fn lemma_checkpoint_summarized(
    revisions: Seq<Revision>,
    id: i64,
    index: IndexView,
    digest: IndexDigest,
    hashing: Hashing,
)
    requires
        numbered(revisions, id) matches Some(revision) && {
            &&& revision.state == RevisionState::Ready
            &&& revision.storage_base_revision_id is None
            &&& revision.summary == summary_of(index, digest)
            &&& revision.checkpoint matches Some(checkpoint)
            &&& checkpoint.state == RevisionState::Ready
            &&& checkpoint.index@ == index
            &&& counts_owners(checkpoint.owner_counts@, index.objects, index.objects.dom())
        },
        index.objects.dom().len() <= i64::MAX,
        index.references.len() <= i64::MAX,
        owners_of(index.objects).len() <= i64::MAX,
        digest.privileged_metadata_count <= i64::MAX,
        digest_right(digest, index, hashing),
    ensures
        summarized(revisions, id, hashing),
{
    let chain = seq![id];
    let checkpoint = numbered(revisions, id)->0.checkpoint->0;
    assert(storage_chain(revisions, id) == Ok::<Seq<i64>, Seq<char>>(chain));
    assert(chain.last() == id);
    assert(chain_index_from(revisions, chain, 0) == Ok::<IndexView, Seq<char>>(index));
    assert(checkpoint.index@.objects.dom().finite());
    assert(key_set(checkpoint.index.references@).finite());
    assert forall|uid: u64| #[trigger] chain_owner_count_from(revisions, chain, uid, 0) == picked(
        index.objects,
        is_owned(uid),
    ).len() by {
        lemma_owned_is_picked(index.objects, uid);
        assert(checkpoint.owner_counts@.contains_key(uid) <==> owned_by(
            index.objects,
            index.objects.dom(),
            uid,
        ).len() > 0);
    }
}

/// The summary of a first checkpoint is that of its index, where its digest is.
pub proof fn law_initial_checkpoint_is_summarized(
    before: Store,
    after: Store,
    reservation: InitializeReservation,
    lease_owner: [u8; 16],
    snapshot_id: i64,
    snapshot_uuid: [u8; 16],
    checked: CheckedIndex,
    now_ns: i64,
    published: Result<InitializedWatch, ManagerError>,
    hashing: Hashing,
)
    requires
        publishes_initial(
            before,
            after,
            reservation,
            lease_owner,
            snapshot_id,
            snapshot_uuid,
            checked,
            now_ns,
            published,
        ),
        digest_right(checked.digest, checked.index@, hashing),
    ensures
        published matches Ok(watch) ==> summarized(after.revisions@, watch.revision_id, hashing),
{
    law_next_number_is_new(before.revisions@);
    if published is Ok {
        let added = after.revisions@.last();
        law_row_is_found(before.revisions@, added, added.id);
        lemma_checkpoint_summarized(after.revisions@, added.id, checked.index@, checked.digest, hashing);
    }
}

/// The summary of a cut that was indexed as a whole is that of its index, where
/// its digest is.
pub proof fn law_fresh_checkpoint_is_summarized(
    before: Store,
    after: Store,
    reservation: CutReservation,
    lease_owner: [u8; 16],
    snapshot_id: i64,
    snapshot_uuid: [u8; 16],
    checked: CheckedIndex,
    paths: Map<u64, PathLookup>,
    now_ns: i64,
    published: Result<PublishedCut, ManagerError>,
    hashing: Hashing,
)
    requires
        publishes_fresh(
            before,
            after,
            reservation,
            lease_owner,
            snapshot_id,
            snapshot_uuid,
            checked,
            paths,
            now_ns,
            published,
        ),
        digest_right(checked.digest, checked.index@, hashing),
    ensures
        published matches Ok(cut) ==> summarized(after.revisions@, cut.revision_id, hashing),
{
    law_next_number_is_new(before.revisions@);
    if published is Ok {
        let added = after.revisions@.last();
        law_row_is_found(before.revisions@, added, added.id);
        lemma_checkpoint_summarized(after.revisions@, added.id, checked.index@, checked.digest, hashing);
    }
}

proof fn lemma_overlay_finite(overlay: Overlay, manifest: ManifestView, target: Map<u64, Object>)
    requires
        overlay.objects@ == object_overrides(manifest.objects.dom(), target),
        overrides_entries(
            changes_of(overlay.references@),
            manifest.ref_adds,
            manifest.ref_deletes,
        ),
    ensures
        manifest.objects.dom().finite(),
        manifest.ref_adds.finite(),
        manifest.ref_deletes.finite(),
{
    assert(overlay.objects@.dom() =~= manifest.objects.dom());
    let changes = changes_of(overlay.references@);
    let keys = changes.map_values(|change: (Key, bool)| change.0);
    assert forall|key: Key, present: bool| #[trigger] changes.contains((key, present)) implies keys
        .to_set().contains(key) by {
        let i = choose|i: int| 0 <= i < changes.len() && changes[i] == (key, present);
        assert(keys[i] == key);
    }
    assert forall|key: Key| manifest.ref_adds.contains(key) implies keys.to_set().contains(key) by {
        assert(changes.contains((key, true)));
    }
    assert forall|key: Key| manifest.ref_deletes.contains(key) implies keys.to_set().contains(
        key,
    ) by {
        assert(changes.contains((key, false)));
    }
    vstd::set_lib::lemma_set_subset_finite(keys.to_set(), manifest.ref_adds);
    vstd::set_lib::lemma_set_subset_finite(keys.to_set(), manifest.ref_deletes);
}

/// The summary that a delta leaves is that of the index that is read back: the
/// numbers of its objects, entries and owners, the exclusive or of the owners,
/// the one owner where there is only one, the number of its privileged objects,
/// and both digests, however things are given theirs.
pub proof fn law_delta_is_summarized(
    before: Store,
    after: Store,
    base_revision_id: i64,
    reservation: CutReservation,
    lease_owner: [u8; 16],
    snapshot_id: i64,
    manifest: ManifestView,
    applied: AppliedDelta,
    digests: DeltaDigests,
    now_ns: i64,
    published: Result<PublishedCut, ManagerError>,
    hashing: Hashing,
)
    requires
        publishes_delta(
            before,
            after,
            base_revision_id,
            reservation,
            lease_owner,
            snapshot_id,
            manifest,
            applied,
            digests,
            now_ns,
            published,
        ),
        depths_sound(before.revisions@),
        numbered(before.revisions@, base_revision_id) matches Some(base) && base.delta_depth
            < MAX_DEPTH,
        summarized(before.revisions@, base_revision_id, hashing),
        applies_to(manifest, revision_index(before.revisions@, base_revision_id)->Ok_0),
        covers(digests, manifest),
        delta_hashed(
            digests,
            revision_index(before.revisions@, base_revision_id)->Ok_0.objects,
            applied.index.objects@,
            manifest,
            hashing,
        ),
    ensures
        published matches Ok(cut) ==> {
            &&& summarized(after.revisions@, cut.revision_id, hashing)
            &&& summary_right(
                numbered(after.revisions@, cut.revision_id)->0.summary@,
                changed_index(
                    revision_index(before.revisions@, base_revision_id)->Ok_0,
                    manifest,
                    applied.index.objects@,
                ),
                hashing,
            )
        },
{
    law_next_number_is_new(before.revisions@);
    if published is Ok {
        let revisions = before.revisions@;
        let added = after.revisions@.last();
        let id = added.id;
        let all = revisions.push(added);
        let target = applied.index.objects@;
        let rest = storage_chain(revisions, base_revision_id)->Ok_0;
        let index = revision_index(revisions, base_revision_id)->Ok_0;
        let whole = changed_index(index, manifest, target);
        let chain = seq![id] + rest;
        law_row_is_found(revisions, added, id);
        law_delta_is_read_back(
            before,
            after,
            base_revision_id,
            reservation,
            lease_owner,
            snapshot_id,
            manifest,
            applied,
            digests,
            now_ns,
            published,
            id,
        );
        lemma_depth(revisions, base_revision_id);
        law_depth_bounds_the_chain(revisions, base_revision_id, 1);
        lemma_chain_lower(revisions, base_revision_id, 1, 0);
        lemma_chain_push(revisions, added, base_revision_id, 1);
        lemma_chain_stored(revisions, base_revision_id, 0);
        assert(storage_chain(all, id) == Ok::<Seq<i64>, Seq<char>>(chain));
        lemma_overlay_finite(added.overlay, manifest, target);
        let subset = delta_subset(revisions, rest, manifest).objects;
        let uids = touched_owners(manifest.objects.dom(), subset, target);
        let counts = base_counts(revisions, rest, uids);
        assert forall|ino: u64| #[trigger] manifest.objects.contains_key(ino) implies object_in(
            subset,
            ino,
        ) == object_in(index.objects, ino) by {
            law_chain_agrees(revisions, rest, 0, ino);
            let references = chain_refs_from(revisions, rest, 0);
            assert(touched(references, manifest).contains(ino));
            assert(with_parents(references, touched(references, manifest)).contains(ino));
        }
        assert forall|uid: u64| #[trigger] picked(index.objects, is_owned(uid)).len()
            <= i64::MAX by {
            assert(chain_owner_count_from(revisions, rest, uid, 0) == picked(
                index.objects,
                is_owned(uid),
            ).len());
        }
        assert(counts.dom() =~= uids);
        let (summary, after_counts) = delta_summary(
            revisions,
            base_revision_id,
            manifest,
            target,
            digests,
        )->Ok_0;
        lemma_counts_domain(
            numbered(revisions, base_revision_id)->0.summary@,
            subset,
            target,
            manifest,
            digests,
            counts,
        );
        assert(added.overlay.owner_counts@.dom().finite());
        assert forall|uid: u64| #[trigger] counts.contains_key(uid) implies counts[uid] == picked(
            index.objects,
            is_owned(uid),
        ).len() by {
            assert(chain_owner_count_from(revisions, rest, uid, 0) == counts[uid]);
        }
        law_revised_summary_is_right(
            numbered(revisions, base_revision_id)->0.summary@,
            index,
            subset,
            target,
            manifest,
            digests,
            counts,
            hashing,
        );
        assert forall|uid: u64| #[trigger] chain_owner_count_from(all, chain, uid, 0) == picked(
            whole.objects,
            is_owned(uid),
        ).len() by {
            assert(chain[0] == id);
            lemma_count_shift(all, id, rest, uid, 0);
            lemma_count_push(revisions, added, rest, uid, 0);
            if !after_counts.contains_key(uid) {
                assert(!uids.contains(uid));
                assert(chain_owner_count_from(revisions, rest, uid, 0) == picked(
                    index.objects,
                    is_owned(uid),
                ).len());
                lemma_untouched_owner(index.objects, target, manifest.objects.dom(), uid);
            }
        }
    }
}

proof fn lemma_counts_domain(
    base: SummaryView,
    subset: Map<u64, Object>,
    target: Map<u64, Object>,
    manifest: ManifestView,
    digests: DeltaDigests,
    counts: Map<u64, i64>,
)
    ensures
        revised_summary(base, subset, target, manifest, digests, counts) matches Ok(
            (revised, after),
        ) ==> after.dom() == counts.dom(),
{
    let opening = opening_tally(base, counts);
    let inos = numbers_in_order(manifest.objects.dom());
    lemma_owners_keep_domain(opening, subset, target, digests.objects@, inos, 0);
    if let Ok(middle) = tally_objects_from(opening, subset, target, digests.objects@, inos, 0) {
        lemma_tally_refs(middle, digests.ref_deletes@, 0);
        if let Ok(deleted) = tally_deletes_from(middle, digests.ref_deletes@, 0) {
            lemma_tally_refs(deleted, digests.ref_adds@, 0);
        }
    }
}

pub(crate) proof fn lemma_compacted_summarized(
    before: Seq<Revision>,
    after: Seq<Revision>,
    id: i64,
    builder_owner: [u8; 16],
    digest: IndexDigest,
    hashing: Hashing,
)
    requires
        compact_fault(before, id, digest) is None,
        compaction(before, after, id, builder_owner, digest),
        !is_compact(numbered(before, id)->0),
        !checkpoint_differs(numbered(before, id)->0, revision_index(before, id)->Ok_0),
        checkpoint_counted(numbered(before, id)->0),
        digest_right(digest, revision_index(before, id)->Ok_0, hashing),
    ensures
        summarized(after, id, hashing),
{
    let at = slot(before, id)->0;
    lemma_slot(before, id, 0);
    lemma_slot_kept(before, after, at, id, 0);
    let index = revision_index(before, id)->Ok_0;
    law_compaction_keeps_indexes(before, after, id, builder_owner, digest, id);
    let chain = seq![id];
    assert(storage_chain(after, id) == Ok::<Seq<i64>, Seq<char>>(chain));
    assert(chain.last() == id);
    lemma_checkpoint_summarized(after, id, index, digest, hashing);
}

/// The summary that an indexed cut leaves is that of the index that is read
/// back, however the cut before it was stored: where that one is stored anew
/// first, its digest is the right one.
pub proof fn law_adjacent_delta_is_summarized(
    before: Store,
    after: Store,
    reservation: CutReservation,
    lease_owner: [u8; 16],
    snapshot: RecordedSnapshot,
    manifest: ManifestView,
    applied: AppliedDelta,
    base_report: RevisionReport,
    digests: DeltaDigests,
    now_ns: i64,
    published: Result<PublishedCut, ManagerError>,
    hashing: Hashing,
)
    requires
        publishes_adjacent(
            before,
            after,
            reservation,
            lease_owner,
            snapshot,
            manifest,
            applied,
            base_report,
            digests,
            now_ns,
            published,
        ),
        depths_sound(before.revisions@),
        published is Ok,
        delta_base(before, reservation) matches Ok(id) && {
            let revision = numbered(before.revisions@, id)->0;
            &&& revision_index(before.revisions@, id) matches Ok(base)
            &&& applies_to(manifest, base)
            &&& delta_hashed(
                digests,
                base.objects,
                applied.index.objects@,
                manifest,
                hashing,
            )
            &&& if needs_compaction(revision) && !is_compact(revision) {
                checkpoint_counted(revision) && (base_report.digest matches Ok(digest) ==> digest_right(
                    digest,
                    base,
                    hashing,
                ))
            } else {
                summarized(before.revisions@, id, hashing)
            }
        },
        covers(digests, manifest),
    ensures
        summarized(after.revisions@, published->Ok_0.revision_id, hashing),
        summary_right(
            numbered(after.revisions@, published->Ok_0.revision_id)->0.summary@,
            revision_index(after.revisions@, published->Ok_0.revision_id)->Ok_0,
            hashing,
        ),
        published->Ok_0.sequence == reservation.sequence,
{
    let (middle, readied) = choose|middle: Store, readied: Result<i64, Seq<char>>| #[trigger]
        readies_base(before, middle, reservation, lease_owner, base_report, readied)
            && match readied {
            Err(fault) => after == middle && (published matches Err(error) && error@ == fault),
            Ok(base_revision_id) => publishes_delta(
                middle,
                after,
                base_revision_id,
                reservation,
                lease_owner,
                snapshot.snapshot_id,
                manifest,
                applied,
                digests,
                now_ns,
                published,
            ),
        };
    let id = delta_base(before, reservation)->Ok_0;
    let revision = numbered(before.revisions@, id)->0;
    lemma_depth(before.revisions@, id);
    if needs_compaction(revision) {
        lemma_depths_compacted(
            before.revisions@,
            middle.revisions@,
            id,
            lease_owner,
            base_report.digest->Ok_0,
        );
        law_compaction_keeps_indexes(
            before.revisions@,
            middle.revisions@,
            id,
            lease_owner,
            base_report.digest->Ok_0,
            id,
        );
        lemma_slot(before.revisions@, id, 0);
        if !is_compact(revision) {
            lemma_compacted_summarized(
                before.revisions@,
                middle.revisions@,
                id,
                lease_owner,
                base_report.digest->Ok_0,
                hashing,
            );
        }
    }
    law_delta_is_summarized(
        middle,
        after,
        id,
        reservation,
        lease_owner,
        snapshot.snapshot_id,
        manifest,
        applied,
        digests,
        now_ns,
        published,
        hashing,
    );
}

} // verus!
