//! What is read back of the revisions that were published.

use crate::index::{IndexView, Object};
use crate::manager::compact::{
    compact_fault, compaction, is_compact, law_compaction_keeps_indexes, lemma_chain_lower,
    lemma_index_shift, lemma_slot_kept, IndexDigest, RevisionReport,
};
use crate::manager::delta::{
    delta_base, needs_compaction, publishes_adjacent, publishes_delta, readies_base, AppliedDelta,
};
use crate::manager::floor::lemma_row_stays;
use crate::manager::fresh::{publishes_fresh, PathLookup};
use crate::manager::metadata::DeltaDigests;
use crate::manager::publish::{publishes_initial, CheckedIndex};
use crate::manager::revisions::{
    chain_from, chain_index_from, chain_stored, changes_of, checkpoint_of, depth_sound,
    depths_sound, lemma_chain_stored,
    overlaid, overlaid_objects, overlaid_refs_from, revision_index, storage_chain, MAX_DEPTH,
};
use crate::manager::rows::{Revision, RevisionState, Store};
use crate::manager::stage::{object_overrides, overrides_entries};
use crate::manager::table::{
    fresh, largest_before, lemma_slot, numbered, slot, slot_from, Numbered,
};
use crate::manager::types::{
    CutReservation, InitializeReservation, InitializedWatch, ManagerError, PublishedCut,
    RecordedSnapshot,
};
use crate::manifest::ManifestView;
use crate::ordered::{ascending, law_key_order, Key};
use vstd::prelude::*;

verus! {

proof fn lemma_slot_push<T: Numbered>(rows: Seq<T>, added: T, number: i64, from: int)
    requires
        0 <= from <= rows.len(),
    ensures
        slot_from(rows.push(added), number, from) == match slot_from(rows, number, from) {
            Some(at) => Some(at),
            None => if added.num() == number {
                Some(rows.len() as int)
            } else {
                None
            },
        },
    decreases rows.len() - from,
{
    reveal_with_fuel(slot_from, 2);
    if from < rows.len() {
        assert(rows.push(added)[from] == rows[from]);
        lemma_slot_push(rows, added, number, from + 1);
    } else {
        assert(rows.push(added)[from] == added);
    }
}

/// A table that got a row has that row besides those it had.
pub proof fn law_row_is_found<T: Numbered>(rows: Seq<T>, added: T, number: i64)
    ensures
        numbered(rows.push(added), number) == match numbered(rows, number) {
            Some(row) => Some(row),
            None => if added.num() == number {
                Some(added)
            } else {
                None
            },
        },
{
    lemma_slot_push(rows, added, number, 0);
    lemma_slot(rows, number, 0);
}

proof fn lemma_largest<T: Numbered>(rows: Seq<T>, n: int, i: int)
    requires
        0 <= i < n <= rows.len(),
    ensures
        rows[i].num() <= largest_before(rows, n),
    decreases n,
{
    if i < n - 1 {
        lemma_largest(rows, n - 1, i);
    }
}

/// The number of the next row is that of no row, and positive.
pub proof fn law_next_number_is_new<T: Numbered>(rows: Seq<T>)
    ensures
        fresh(rows) matches Some(number) ==> number > 0 && numbered(rows, number) is None,
{
    if let Some(number) = fresh(rows) {
        lemma_slot(rows, number, 0);
        if let Some(at) = slot(rows, number) {
            lemma_largest(rows, rows.len() as int, at);
        }
        lemma_largest_positive(rows, rows.len() as int);
    }
}

proof fn lemma_largest_positive<T: Numbered>(rows: Seq<T>, n: int)
    ensures
        largest_before(rows, n) >= 0,
    decreases n,
{
    if n > 0 {
        lemma_largest_positive(rows, n - 1);
    }
}

pub(crate) proof fn lemma_chain_push(revisions: Seq<Revision>, added: Revision, current: i64, above: nat)
    requires
        chain_from(revisions, current, above) is Ok,
    ensures
        chain_from(revisions.push(added), current, above) == chain_from(revisions, current, above),
    decreases MAX_DEPTH + 1 - above,
{
    law_row_is_found(revisions, added, current);
    let revision = numbered(revisions, current)->0;
    if let Some(base) = revision.storage_base_revision_id {
        lemma_chain_push(revisions, added, base, above + 1);
    }
}

pub(crate) proof fn lemma_chain_index_push(
    revisions: Seq<Revision>,
    added: Revision,
    chain: Seq<i64>,
    at: int,
)
    requires
        chain_stored(revisions, chain),
        0 <= at,
    ensures
        chain_index_from(revisions.push(added), chain, at) == chain_index_from(
            revisions,
            chain,
            at,
        ),
    decreases chain.len() - at,
{
    if at >= chain.len() - 1 {
        assert(chain.last() == chain[chain.len() - 1]);
        law_row_is_found(revisions, added, chain.last());
    } else {
        law_row_is_found(revisions, added, chain[at]);
        lemma_chain_index_push(revisions, added, chain, at + 1);
    }
}

/// A revision that is added leaves what every other revision holds as it was.
pub proof fn law_added_revision_keeps_indexes(
    revisions: Seq<Revision>,
    added: Revision,
    other: i64,
)
    requires
        revision_index(revisions, other) is Ok,
    ensures
        revision_index(revisions.push(added), other) == revision_index(revisions, other),
{
    lemma_chain_push(revisions, added, other, 0);
    lemma_chain_stored(revisions, other, 0);
    lemma_chain_index_push(revisions, added, storage_chain(revisions, other)->Ok_0, 0);
}

pub(crate) proof fn lemma_checkpoint_is_loaded(revisions: Seq<Revision>, added: Revision, id: i64)
    requires
        numbered(revisions, id) is None,
        added.id == id,
        added.state == RevisionState::Ready,
        added.storage_base_revision_id is None,
        added.checkpoint matches Some(checkpoint) && checkpoint.state == RevisionState::Ready,
    ensures
        checkpoint_of(revisions.push(added), id) == Ok::<IndexView, Seq<char>>(
            added.checkpoint->0.index@,
        ),
        revision_index(revisions.push(added), id) == Ok::<IndexView, Seq<char>>(
            added.checkpoint->0.index@,
        ),
{
    law_row_is_found(revisions, added, id);
    let chain = seq![id];
    assert(chain_from(revisions.push(added), id, 0) == Ok::<Seq<i64>, Seq<char>>(chain));
    assert(chain.last() == id);
}

/// The first checkpoint of a watch is read back as it was published, both as a
/// checkpoint and as a revision, and nothing else that is stored changes.
pub proof fn law_initial_checkpoint_is_read_back(
    before: Store,
    after: Store,
    reservation: InitializeReservation,
    lease_owner: [u8; 16],
    snapshot_id: i64,
    snapshot_uuid: [u8; 16],
    checked: CheckedIndex,
    now_ns: i64,
    published: Result<InitializedWatch, ManagerError>,
    other: i64,
)
    requires
        publishes_initial(
            before,
            after,
            reservation,
            lease_owner,
            snapshot_id,
            snapshot_uuid,
            checked,
            now_ns,
            published,
        ),
    ensures
        published matches Ok(watch) ==> {
            &&& checkpoint_of(after.revisions@, watch.revision_id) == Ok::<IndexView, Seq<char>>(
                checked.index@,
            )
            &&& revision_index(after.revisions@, watch.revision_id) == Ok::<IndexView, Seq<char>>(
                checked.index@,
            )
        },
        revision_index(before.revisions@, other) is Ok ==> revision_index(after.revisions@, other)
            == revision_index(before.revisions@, other),
{
    law_next_number_is_new(before.revisions@);
    if published is Ok {
        let added = after.revisions@.last();
        lemma_checkpoint_is_loaded(before.revisions@, added, added.id);
        if revision_index(before.revisions@, other) is Ok {
            law_added_revision_keeps_indexes(before.revisions@, added, other);
        }
    }
}

/// A cut that was indexed as a whole is read back as it was published, and
/// nothing else that is stored changes.
pub proof fn law_fresh_checkpoint_is_read_back(
    before: Store,
    after: Store,
    reservation: CutReservation,
    lease_owner: [u8; 16],
    snapshot_id: i64,
    snapshot_uuid: [u8; 16],
    checked: CheckedIndex,
    paths: Map<u64, PathLookup>,
    now_ns: i64,
    published: Result<PublishedCut, ManagerError>,
    other: i64,
)
    requires
        publishes_fresh(
            before,
            after,
            reservation,
            lease_owner,
            snapshot_id,
            snapshot_uuid,
            checked,
            paths,
            now_ns,
            published,
        ),
    ensures
        published matches Ok(cut) ==> {
            &&& checkpoint_of(after.revisions@, cut.revision_id) == Ok::<IndexView, Seq<char>>(
                checked.index@,
            )
            &&& revision_index(after.revisions@, cut.revision_id) == Ok::<IndexView, Seq<char>>(
                checked.index@,
            )
        },
        revision_index(before.revisions@, other) is Ok ==> revision_index(after.revisions@, other)
            == revision_index(before.revisions@, other),
{
    law_next_number_is_new(before.revisions@);
    if published is Ok {
        let added = after.revisions@.last();
        lemma_checkpoint_is_loaded(before.revisions@, added, added.id);
        if revision_index(before.revisions@, other) is Ok {
            law_added_revision_keeps_indexes(before.revisions@, added, other);
        }
    }
}

pub(crate) proof fn lemma_depth(revisions: Seq<Revision>, number: i64)
    requires
        depths_sound(revisions),
    ensures
        numbered(revisions, number) matches Some(revision) ==> depth_sound(revisions, revision)
            && revision.id == number,
{
    lemma_slot(revisions, number, 0);
}

/// A revision is stored as no more revisions than its depth allows, so that it
/// is never too deep to be read.
pub proof fn law_depth_bounds_the_chain(revisions: Seq<Revision>, id: i64, above: nat)
    requires
        depths_sound(revisions),
        numbered(revisions, id) matches Some(revision) && revision.state == RevisionState::Ready
            && above + revision.delta_depth <= MAX_DEPTH,
    ensures
        chain_from(revisions, id, above) matches Ok(chain) && chain.len() <= numbered(
            revisions,
            id,
        )->0.delta_depth + 1,
    decreases MAX_DEPTH + 1 - above,
{
    lemma_depth(revisions, id);
    let revision = numbered(revisions, id)->0;
    if let Some(base) = revision.storage_base_revision_id {
        lemma_depth(revisions, base);
        law_depth_bounds_the_chain(revisions, base, above + 1);
    }
}

pub(crate) proof fn lemma_depths_push(revisions: Seq<Revision>, added: Revision)
    requires
        depths_sound(revisions),
        numbered(revisions, added.id) is None,
        depth_sound(revisions, added),
    ensures
        depths_sound(revisions.push(added)),
{
    let all = revisions.push(added);
    assert forall|i: int| 0 <= i < all.len() implies depth_sound(all, #[trigger] all[i]) by {
        let revision = all[i];
        if i < revisions.len() {
            assert(revision == revisions[i]);
        }
        if let Some(base) = revision.storage_base_revision_id {
            law_row_is_found(revisions, added, base);
        }
    }
}

/// A revision that no other rests on can go.
pub(crate) proof fn lemma_depths_left(revisions: Seq<Revision>, at: int)
    requires
        depths_sound(revisions),
        0 <= at < revisions.len(),
        forall|i: int|
            0 <= i < revisions.len() ==> (#[trigger] revisions[i]).storage_base_revision_id != Some(
                revisions[at].id,
            ),
    ensures
        depths_sound(revisions.remove(at)),
{
    let left = revisions.remove(at);
    assert forall|i: int| 0 <= i < left.len() implies depth_sound(left, #[trigger] left[i]) by {
        let place = if i < at {
            i
        } else {
            i + 1
        };
        assert(left[i] == revisions[place]);
        assert(depth_sound(revisions, revisions[place]));
        if let Some(base) = left[i].storage_base_revision_id {
            lemma_row_stays(revisions, at, base, 0);
            lemma_slot(revisions, base, 0);
        }
    }
}

pub(crate) proof fn lemma_depths_compacted(
    before: Seq<Revision>,
    after: Seq<Revision>,
    id: i64,
    builder_owner: [u8; 16],
    digest: IndexDigest,
)
    requires
        depths_sound(before),
        compact_fault(before, id, digest) is None,
        compaction(before, after, id, builder_owner, digest),
    ensures
        depths_sound(after),
        numbered(after, id) matches Some(revision) && revision.delta_depth == 0 && revision.state
            == RevisionState::Ready,
{
    let place = slot(before, id)->0;
    lemma_slot(before, id, 0);
    if !is_compact(before[place]) {
        lemma_slot_kept(before, after, place, id, 0);
        assert forall|i: int| 0 <= i < after.len() implies depth_sound(
            after,
            #[trigger] after[i],
        ) by {
            assert(depth_sound(before, before[i]));
            let revision = after[i];
            if i != place {
                assert(revision == before[i]);
            }
            if let Some(base) = revision.storage_base_revision_id {
                lemma_slot_kept(before, after, place, base, 0);
                lemma_slot(before, base, 0);
                let below = slot(before, base)->0;
                assert(depth_sound(before, before[below]));
            }
        }
    }
}

/// Publishing a first checkpoint keeps every revision readable by its depth.
pub proof fn law_initial_checkpoint_keeps_depths(
    before: Store,
    after: Store,
    reservation: InitializeReservation,
    lease_owner: [u8; 16],
    snapshot_id: i64,
    snapshot_uuid: [u8; 16],
    checked: CheckedIndex,
    now_ns: i64,
    published: Result<InitializedWatch, ManagerError>,
)
    requires
        depths_sound(before.revisions@),
        publishes_initial(
            before,
            after,
            reservation,
            lease_owner,
            snapshot_id,
            snapshot_uuid,
            checked,
            now_ns,
            published,
        ),
    ensures
        depths_sound(after.revisions@),
{
    law_next_number_is_new(before.revisions@);
    if published is Ok {
        lemma_depths_push(before.revisions@, after.revisions@.last());
    }
}

/// Publishing a cut as a whole keeps every revision readable by its depth.
pub proof fn law_fresh_checkpoint_keeps_depths(
    before: Store,
    after: Store,
    reservation: CutReservation,
    lease_owner: [u8; 16],
    snapshot_id: i64,
    snapshot_uuid: [u8; 16],
    checked: CheckedIndex,
    paths: Map<u64, PathLookup>,
    now_ns: i64,
    published: Result<PublishedCut, ManagerError>,
)
    requires
        depths_sound(before.revisions@),
        publishes_fresh(
            before,
            after,
            reservation,
            lease_owner,
            snapshot_id,
            snapshot_uuid,
            checked,
            paths,
            now_ns,
            published,
        ),
    ensures
        depths_sound(after.revisions@),
{
    law_next_number_is_new(before.revisions@);
    if published is Ok {
        lemma_depths_push(before.revisions@, after.revisions@.last());
    }
}

/// Whether an added or a deleted entry stands among the changes from `at` on.
spec fn stands(changes: Seq<(Key, bool)>, at: int, key: Key, present: bool) -> bool {
    exists|i: int| at <= i < changes.len() && #[trigger] changes[i] == (key, present)
}

proof fn lemma_overlaid_refs(references: Set<Key>, changes: Seq<(Key, bool)>, at: int)
    requires
        0 <= at <= changes.len(),
        ascending(changes.map_values(|change: (Key, bool)| change.0)),
        forall|i: int|
            at <= i < changes.len() ==> references.contains((#[trigger] changes[i]).0)
                != changes[i].1,
    ensures
        overlaid_refs_from(references, changes, at) matches Ok(after) && forall|key: Key|
            #[trigger] after.contains(key) <==> stands(changes, at, key, true) || (
            references.contains(key) && !stands(changes, at, key, false)),
    decreases changes.len() - at,
{
    if at < changes.len() {
        let (key, present) = changes[at];
        let next = if present {
            references.insert(key)
        } else {
            references.remove(key)
        };
        let keys = changes.map_values(|change: (Key, bool)| change.0);
        assert forall|i: int| at < i < changes.len() implies (#[trigger] changes[i]).0 != key by {
            assert(keys[at] == key);
            assert(keys[i] == changes[i].0);
            law_key_order(key, key, key);
        }
        assert forall|i: int| at + 1 <= i < changes.len() implies next.contains(
            (#[trigger] changes[i]).0,
        ) != changes[i].1 by {
            assert(references.contains(changes[i].0) != changes[i].1);
        }
        lemma_overlaid_refs(next, changes, at + 1);
        let after = overlaid_refs_from(next, changes, at + 1)->Ok_0;
        assert forall|other: Key| #[trigger] after.contains(other) <==> stands(
            changes,
            at,
            other,
            true,
        ) || (references.contains(other) && !stands(changes, at, other, false)) by {
            lemma_stands(changes, at, other, true);
            lemma_stands(changes, at, other, false);
            assert(changes[at] == (key, present));
        }
    }
}

proof fn lemma_stands(changes: Seq<(Key, bool)>, at: int, key: Key, present: bool)
    requires
        0 <= at < changes.len(),
    ensures
        stands(changes, at, key, present) <==> changes[at] == (key, present) || stands(
            changes,
            at + 1,
            key,
            present,
        ),
{
    if stands(changes, at, key, present) {
        let i = choose|i: int| at <= i < changes.len() && #[trigger] changes[i] == (key, present);
        if i > at {
            assert(changes[i] == (key, present));
        }
    }
    if stands(changes, at + 1, key, present) {
        let i = choose|i: int|
            at + 1 <= i < changes.len() && #[trigger] changes[i] == (key, present);
        assert(changes[i] == (key, present));
    }
}

/// Whether a manifest can be applied to an index: it adds entries that are not
/// there, and deletes entries that are.
pub open spec fn applies_to(manifest: ManifestView, base: IndexView) -> bool {
    &&& manifest.ref_adds.disjoint(base.references)
    &&& manifest.ref_deletes.subset_of(base.references)
}

/// The index that a manifest makes of another: the changed objects are those of
/// the target, the added entries come and the deleted ones go.
pub open spec fn changed_index(
    base: IndexView,
    manifest: ManifestView,
    target: Map<u64, Object>,
) -> IndexView {
    IndexView {
        objects: overlaid_objects(
            base.objects,
            object_overrides(manifest.objects.dom(), target),
        ),
        references: base.references.difference(manifest.ref_deletes).union(manifest.ref_adds),
    }
}

proof fn lemma_overlay_applies(
    changes: Seq<(Key, bool)>,
    manifest: ManifestView,
    base: IndexView,
)
    requires
        overrides_entries(changes, manifest.ref_adds, manifest.ref_deletes),
        applies_to(manifest, base),
    ensures
        overlaid_refs_from(base.references, changes, 0) == Ok::<Set<Key>, Seq<char>>(
            base.references.difference(manifest.ref_deletes).union(manifest.ref_adds),
        ),
{
    assert forall|i: int| 0 <= i < changes.len() implies base.references.contains(
        (#[trigger] changes[i]).0,
    ) != changes[i].1 by {
        let (key, present) = changes[i];
        assert(changes.contains((key, present)));
    }
    lemma_overlaid_refs(base.references, changes, 0);
    let after = overlaid_refs_from(base.references, changes, 0)->Ok_0;
    let expected = base.references.difference(manifest.ref_deletes).union(manifest.ref_adds);
    assert forall|key: Key| after.contains(key) == expected.contains(key) by {
        assert(stands(changes, 0, key, true) == changes.contains((key, true)));
        assert(stands(changes, 0, key, false) == changes.contains((key, false)));
    }
    assert(after =~= expected);
}

/// A delta is read back as what its manifest makes of the revision that it
/// was published on, and nothing else that is stored changes.
pub proof fn law_delta_is_read_back(
    before: Store,
    after: Store,
    base_revision_id: i64,
    reservation: CutReservation,
    lease_owner: [u8; 16],
    snapshot_id: i64,
    manifest: ManifestView,
    applied: AppliedDelta,
    digests: DeltaDigests,
    now_ns: i64,
    published: Result<PublishedCut, ManagerError>,
    other: i64,
)
    requires
        publishes_delta(
            before,
            after,
            base_revision_id,
            reservation,
            lease_owner,
            snapshot_id,
            manifest,
            applied,
            digests,
            now_ns,
            published,
        ),
        depths_sound(before.revisions@),
        numbered(before.revisions@, base_revision_id) matches Some(base) && base.delta_depth
            < MAX_DEPTH,
        revision_index(before.revisions@, base_revision_id) matches Ok(base) && applies_to(
            manifest,
            base,
        ),
    ensures
        depths_sound(after.revisions@),
        published matches Ok(cut) ==> revision_index(after.revisions@, cut.revision_id) == Ok::<
            IndexView,
            Seq<char>,
        >(
            changed_index(
                revision_index(before.revisions@, base_revision_id)->Ok_0,
                manifest,
                applied.index.objects@,
            ),
        ),
        revision_index(before.revisions@, other) is Ok ==> revision_index(after.revisions@, other)
            == revision_index(before.revisions@, other),
{
    law_next_number_is_new(before.revisions@);
    if published is Ok {
        let revisions = before.revisions@;
        let added = after.revisions@.last();
        let id = added.id;
        let all = revisions.push(added);
        lemma_depth(revisions, base_revision_id);
        lemma_depths_push(revisions, added);
        law_row_is_found(revisions, added, id);
        law_depth_bounds_the_chain(revisions, base_revision_id, 1);
        lemma_chain_lower(revisions, base_revision_id, 1, 0);
        let rest = chain_from(revisions, base_revision_id, 1)->Ok_0;
        lemma_chain_push(revisions, added, base_revision_id, 1);
        lemma_chain_stored(revisions, base_revision_id, 1);
        let chain = seq![id] + rest;
        assert(chain_from(all, id, 0) == Ok::<Seq<i64>, Seq<char>>(chain));
        lemma_index_shift(all, id, rest, 0);
        lemma_chain_index_push(revisions, added, rest, 0);
        assert(chain[0] == id);
        let base = revision_index(revisions, base_revision_id)->Ok_0;
        assert(chain_index_from(all, chain, 1) == Ok::<IndexView, Seq<char>>(base));
        lemma_overlay_applies(changes_of(added.overlay.references@), manifest, base);
        assert(chain_index_from(all, chain, 0) == overlaid(base, added.overlay));
        if revision_index(revisions, other) is Ok {
            law_added_revision_keeps_indexes(revisions, added, other);
        }
    }
}

/// A cut that was indexed on the one before it is read back as what its
/// manifest makes of that one, however that one is stored, and no other
/// revision changes. What it rests on is never too deep.
pub proof fn law_adjacent_delta_is_read_back(
    before: Store,
    after: Store,
    reservation: CutReservation,
    lease_owner: [u8; 16],
    snapshot: RecordedSnapshot,
    manifest: ManifestView,
    applied: AppliedDelta,
    base_report: RevisionReport,
    digests: DeltaDigests,
    now_ns: i64,
    published: Result<PublishedCut, ManagerError>,
    other: i64,
)
    requires
        publishes_adjacent(
            before,
            after,
            reservation,
            lease_owner,
            snapshot,
            manifest,
            applied,
            base_report,
            digests,
            now_ns,
            published,
        ),
        depths_sound(before.revisions@),
        published is Ok,
        delta_base(before, reservation) matches Ok(id) && (revision_index(
            before.revisions@,
            id,
        ) matches Ok(base) && applies_to(manifest, base)),
    ensures
        depths_sound(after.revisions@),
        revision_index(after.revisions@, published->Ok_0.revision_id) == Ok::<
            IndexView,
            Seq<char>,
        >(
            changed_index(
                revision_index(before.revisions@, delta_base(before, reservation)->Ok_0)->Ok_0,
                manifest,
                applied.index.objects@,
            ),
        ),
        revision_index(before.revisions@, other) is Ok ==> revision_index(after.revisions@, other)
            == revision_index(before.revisions@, other),
{
    let (middle, readied) = choose|middle: Store, readied: Result<i64, Seq<char>>| #[trigger]
        readies_base(before, middle, reservation, lease_owner, base_report, readied)
            && match readied {
            Err(fault) => after == middle && (published matches Err(error) && error@ == fault),
            Ok(base_revision_id) => publishes_delta(
                middle,
                after,
                base_revision_id,
                reservation,
                lease_owner,
                snapshot.snapshot_id,
                manifest,
                applied,
                digests,
                now_ns,
                published,
            ),
        };
    let id = delta_base(before, reservation)->Ok_0;
    let revision = numbered(before.revisions@, id)->0;
    lemma_depth(before.revisions@, id);
    if needs_compaction(revision) {
        lemma_depths_compacted(
            before.revisions@,
            middle.revisions@,
            id,
            lease_owner,
            base_report.digest->Ok_0,
        );
        law_compaction_keeps_indexes(
            before.revisions@,
            middle.revisions@,
            id,
            lease_owner,
            base_report.digest->Ok_0,
            id,
        );
        if revision_index(before.revisions@, other) is Ok {
            law_compaction_keeps_indexes(
                before.revisions@,
                middle.revisions@,
                id,
                lease_owner,
                base_report.digest->Ok_0,
                other,
            );
        }
    }
    law_delta_is_read_back(
        middle,
        after,
        id,
        reservation,
        lease_owner,
        snapshot.snapshot_id,
        manifest,
        applied,
        digests,
        now_ns,
        published,
        other,
    );
}

} // verus!
