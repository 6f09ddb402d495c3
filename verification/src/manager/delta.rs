//! Publishing a cut as a delta on the one before it.

use crate::digest::sha256;
use crate::index::{copy_events, events_view, Event, EventView, Index, Object};
use crate::inodes::sorted_keys;
use crate::manager::compact::{
    checkpoint_fault, compaction, is_compact, lemma_slot_kept, read_fault, RevisionReport,
};
use crate::manager::cuts::{cut_operation, find_cut_operation};
use crate::manager::gaps::lemma_cuts_changed;
use crate::manager::loading::invalid_subset_text;
use crate::manager::metadata::{
    apply_revision_metadata, covers, object_in, owner_of, revised_summary, DeltaDigests,
    RevisionMetadata, SummaryView, SUMMARY_VERSION,
};
use crate::manager::pins::{pins_on, unpin};
use crate::manager::provenance::lemma_provenance_pushed;
use crate::manager::publish::{
    cut_at, done, find_cut, raise_triggers, raised, settle_admissions, settled,
};
use crate::manager::reading::{law_next_number_is_new, lemma_depths_push};
use crate::manager::revisions::{
    chain_owner_count_from, chain_stored, revision_index, revision_sound, storage_chain,
};
use crate::manager::rows::{
    full_text, none_changed, number_row, same_owner, AdmissionState, Comparison, ComparisonKind,
    ComparisonState, CutState, Operation, OperationState, PhysicalState, Pin, PinOwner, PinReason,
    Revision, RevisionState, Store, Watch, WatchCut, WatchState,
};
use crate::manager::stage::{
    object_rows, ordered_ref_rows, overlay_of, ref_rows, stage_delta_rows, stage_fault, STORED_MAX,
};
use crate::manager::subset::delta_subset;
use crate::manager::table::{
    changing, find, find_number, first, fresh, numbered, place, remove, removing, row, slot,
};
use crate::manager::types::{
    row_count_text, CutReservation, ManagerError, PublishedCut, RecordedSnapshot,
};
use crate::manifest::{canonical_preimage, ChangedObjectsManifest, ManifestView};
use std::collections::BTreeMap;
use vstd::prelude::*;

verus! {

broadcast use vstd::std_specs::btree::group_btree_axioms;

/// How many overlays a revision may rest on before it is compacted.
pub const COMPACTION_DEPTH: i64 = 31;

/// What applying a manifest to the part of the base that it touches gives.
#[derive(Debug)]
pub struct AppliedDelta {
    pub index: Index,
    pub events: Vec<Event>,
    /// Whether some event concerns the clients that wait for triggers.
    pub wakes_triggers: bool,
}

/// The number of the revision that a cut builds on.
pub open spec fn delta_base(store: Store, reservation: CutReservation) -> Result<i64, Seq<char>> {
    let unready = Err("prior cut is not the ready indexed head"@);
    match row(store.watches@, reservation.watch_id) {
        Some(watch) => match (watch.indexed_revision_id, watch.indexed_seq) {
            (Some(revision_id), Some(indexed)) => match numbered(store.revisions@, revision_id) {
                Some(revision) => if watch.state != WatchState::Active || indexed + 1
                    != reservation.sequence || revision.state != RevisionState::Ready {
                    unready
                } else if revision.snapshot_id != reservation.base_snapshot_id {
                    Err("cut base snapshot differs from indexed predecessor"@)
                } else {
                    Ok(revision_id)
                },
                None => unready,
            },
            _ => unready,
        },
        None => unready,
    }
}

/// Whether a revision is to be compacted before anything is built on it.
pub open spec fn needs_compaction(revision: Revision) -> bool {
    revision.delta_depth >= COMPACTION_DEPTH || revision.summary.summary_version != SUMMARY_VERSION
}

/// What making the base of a cut ready does.
pub open spec fn readies_base(
    before: Store,
    after: Store,
    reservation: CutReservation,
    lease_owner: [u8; 16],
    report: RevisionReport,
    readied: Result<i64, Seq<char>>,
) -> bool {
    match delta_base(before, reservation) {
        Err(fault) => after == before && readied == Err::<i64, Seq<char>>(fault),
        Ok(id) => {
            let revision = numbered(before.revisions@, id)->0;
            if !needs_compaction(revision) {
                after == before && readied == Ok::<i64, Seq<char>>(id)
            } else {
                match read_fault(before.revisions@, id, report) {
                    Some(fault) => after == before && readied == Err::<i64, Seq<char>>(fault),
                    None => {
                        &&& after == (Store { revisions: after.revisions, ..before })
                        &&& compaction(
                            before.revisions@,
                            after.revisions@,
                            id,
                            lease_owner,
                            report.digest->Ok_0,
                        )
                        &&& match checkpoint_fault(
                            revision,
                            revision_index(before.revisions@, id)->Ok_0,
                            report,
                        ) {
                            Some(fault) => readied == Err::<i64, Seq<char>>(fault),
                            None => readied == Ok::<i64, Seq<char>>(id),
                        }
                    },
                }
            }
        },
    }
}

/// The users whose objects a delta touches.
pub open spec fn touched_owners(
    inos: Set<u64>,
    base: Map<u64, Object>,
    target: Map<u64, Object>,
) -> Set<u64> {
    Set::new(
        |uid: u64|
            exists|ino: u64| #[trigger]
                inos.contains(ino) && (owner_of(object_in(base, ino)) == Some(uid) || owner_of(
                    object_in(target, ino),
                ) == Some(uid)),
    )
}

/// How many objects of the base each of the users owns.
pub open spec fn base_counts(
    revisions: Seq<Revision>,
    chain: Seq<i64>,
    uids: Set<u64>,
) -> Map<u64, i64> {
    Map::new(
        |uid: u64| uids.contains(uid),
        |uid: u64| chain_owner_count_from(revisions, chain, uid, 0),
    )
}

/// The summary of the revision that a delta makes, and the counts of the
/// owners it touches.
pub open spec fn delta_summary(
    revisions: Seq<Revision>,
    base_revision_id: i64,
    manifest: ManifestView,
    target: Map<u64, Object>,
    digests: DeltaDigests,
) -> Result<(SummaryView, Map<u64, i64>), Seq<char>> {
    match storage_chain(revisions, base_revision_id) {
        Err(fault) => Err(fault),
        Ok(chain) => match digests.base_fault {
            Some(fault) => Err(invalid_subset_text(fault@)),
            None => {
                let base = delta_subset(revisions, chain, manifest).objects;
                revised_summary(
                    numbered(revisions, base_revision_id)->0.summary@,
                    base,
                    target,
                    manifest,
                    digests,
                    base_counts(
                        revisions,
                        chain,
                        touched_owners(manifest.objects.dom(), base, target),
                    ),
                )
            },
        },
    }
}

/// Whether a published cut is still this manager's to index on its base.
pub open spec fn delta_stands(
    store: Store,
    reservation: CutReservation,
    lease_owner: [u8; 16],
    snapshot_id: i64,
    base_revision_id: i64,
) -> bool {
    &&& cut_operation(
        store.operations@,
        reservation,
        lease_owner,
        OperationState::ManifestReady,
    )
    &&& row(store.watches@, reservation.watch_id) matches Some(watch)
    &&& watch.indexed_revision_id == Some(base_revision_id)
    &&& watch.indexed_seq matches Some(indexed)
    &&& indexed + 1 == reservation.sequence
    &&& first(store.cuts@, cut_at(reservation.watch_id, reservation.sequence)) matches Some(at)
    &&& store.cuts@[at].state == CutState::Created
    &&& store.cuts@[at].target_snapshot_id == snapshot_id
    &&& numbered(store.snapshots@, snapshot_id) matches Some(snapshot)
    &&& snapshot.physical_state == PhysicalState::Present
}

/// Why a delta cannot be published.
pub open spec fn delta_fault(
    store: Store,
    base_revision_id: i64,
    reservation: CutReservation,
    lease_owner: [u8; 16],
    snapshot_id: i64,
    manifest: ManifestView,
    target: Map<u64, Object>,
    events: Seq<EventView>,
    digests: DeltaDigests,
) -> Option<Seq<char>> {
    match delta_summary(store.revisions@, base_revision_id, manifest, target, digests) {
        Err(fault) => Some(fault),
        Ok((summary, owner_counts)) => if stage_fault(
            manifest,
            events,
            target,
            owner_counts,
        ) is Some {
            stage_fault(manifest, events, target, owner_counts)
        } else if !delta_stands(
            store,
            reservation,
            lease_owner,
            snapshot_id,
            base_revision_id,
        ) {
            Some("delta publication fence, predecessor, or snapshot is stale"@)
        } else if manifest.raw_ref_adds > STORED_MAX {
            Some("raw ref add count overflow"@)
        } else if manifest.raw_ref_deletes > STORED_MAX {
            Some("raw ref delete count overflow"@)
        } else if fresh(store.comparisons@) is None {
            Some(full_text())
        } else if fresh(store.revisions@) is None {
            Some(full_text())
        } else if row(store.watches@, reservation.watch_id)->0.state != WatchState::Active {
            Some(row_count_text("advance indexed watch head"@, 0))
        } else {
            None
        },
    }
}

/// Whether the row is the ready comparison that a manifest describes.
pub open spec fn delta_comparison(
    comparison: Comparison,
    id: i64,
    from_snapshot_id: i64,
    to_snapshot_id: i64,
    lease_owner: [u8; 16],
    lease_fence: i64,
    manifest: ManifestView,
    events: Seq<EventView>,
) -> bool {
    &&& comparison.manifest_hash matches Some(hash)
    &&& hash@ == sha256(canonical_preimage(manifest))
    &&& comparison == (Comparison {
        id,
        from_snapshot_id,
        to_snapshot_id,
        kind: ComparisonKind::Incremental,
        algorithm_version: 1,
        state: ComparisonState::IndexReady,
        lease_owner: Some(lease_owner),
        lease_fence,
        lease_expires_ns: None,
        raw_ref_adds: Some(manifest.raw_ref_adds as i64),
        raw_ref_deletes: Some(manifest.raw_ref_deletes as i64),
        ..comparison
    })
    &&& comparison.objects@ == object_rows(manifest.objects)
    &&& ref_rows(comparison.references@) == ordered_ref_rows(
        manifest.ref_adds,
        manifest.ref_deletes,
    )
    &&& events_view(comparison.events@) == events
}

/// Whether the row is the ready revision that a delta makes of its base.
pub open spec fn delta_revision(
    revision: Revision,
    id: i64,
    snapshot_id: i64,
    base_revision_id: i64,
    comparison_id: i64,
    depth: int,
    lease_owner: [u8; 16],
    lease_fence: i64,
    summary: SummaryView,
    created_ns: i64,
) -> bool {
    &&& revision.id == id
    &&& revision.snapshot_id == snapshot_id
    &&& revision.storage_base_revision_id == Some(base_revision_id)
    &&& revision.provenance_comparison_id == Some(comparison_id)
    &&& revision.delta_depth == depth
    &&& revision.state == RevisionState::Ready
    &&& revision.builder_owner == lease_owner
    &&& revision.builder_fence == lease_fence
    &&& revision.summary@ == summary
    &&& revision.created_ns == created_ns
    &&& revision.checkpoint is None
}

/// The pins of an operation on either snapshot.
pub open spec fn operation_pins_on(operation_id: [u8; 16], left: i64, right: i64) -> spec_fn(
    Pin,
) -> bool {
    |pin: Pin|
        pin.owner == PinOwner::Operation(operation_id) && (pin.snapshot_id == left
            || pin.snapshot_id == right)
}

/// What publishing a delta on its base does.
pub open spec fn publishes_delta(
    before: Store,
    after: Store,
    base_revision_id: i64,
    reservation: CutReservation,
    lease_owner: [u8; 16],
    snapshot_id: i64,
    manifest: ManifestView,
    applied: AppliedDelta,
    digests: DeltaDigests,
    now_ns: i64,
    published: Result<PublishedCut, ManagerError>,
) -> bool {
    let target = applied.index.objects@;
    let events = events_view(applied.events@);
    match delta_fault(
        before,
        base_revision_id,
        reservation,
        lease_owner,
        snapshot_id,
        manifest,
        target,
        events,
        digests,
    ) {
        Some(fault) => {
            &&& after == before
            &&& published matches Err(error)
            &&& error@ == fault
        },
        None => {
            let (summary, owner_counts) = delta_summary(
                before.revisions@,
                base_revision_id,
                manifest,
                target,
                digests,
            )->Ok_0;
            let base = numbered(before.revisions@, base_revision_id)->0;
            let comparison_id = fresh(before.comparisons@)->0;
            let revision_id = fresh(before.revisions@)->0;
            let watch_at = place(before.watches@, reservation.watch_id)->0;
            let at = place(before.operations@, reservation.operation_id)->0;
            let cut_place = first(
                before.cuts@,
                cut_at(reservation.watch_id, reservation.sequence),
            )->0;
            &&& after == (Store {
                comparisons: after.comparisons,
                revisions: after.revisions,
                pins: after.pins,
                watches: after.watches,
                cuts: after.cuts,
                operations: after.operations,
                admissions: after.admissions,
                triggers: after.triggers,
                ..before
            })
            &&& after.comparisons@ == before.comparisons@.push(after.comparisons@.last())
            &&& delta_comparison(
                after.comparisons@.last(),
                comparison_id,
                base.snapshot_id,
                snapshot_id,
                lease_owner,
                reservation.operation_fence,
                manifest,
                events,
            )
            &&& after.revisions@ == before.revisions@.push(after.revisions@.last())
            &&& delta_revision(
                after.revisions@.last(),
                revision_id,
                snapshot_id,
                base_revision_id,
                comparison_id,
                base.delta_depth + 1,
                lease_owner,
                reservation.operation_fence,
                summary,
                now_ns,
            )
            &&& overlay_of(after.revisions@.last().overlay, manifest, target, owner_counts)
            &&& after.watches@ == before.watches@.update(
                watch_at,
                Watch {
                    indexed_revision_id: Some(revision_id),
                    indexed_seq: Some(reservation.sequence),
                    ..before.watches@[watch_at]
                },
            )
            &&& after.cuts@ == before.cuts@.update(
                cut_place,
                WatchCut {
                    comparison_id: Some(comparison_id),
                    comparison_from_snapshot_id: Some(base.snapshot_id),
                    state: CutState::Ready,
                    ..before.cuts@[cut_place]
                },
            )
            &&& after.pins@ == removing(
                removing(
                    before.pins@.push(
                        Pin {
                            snapshot_id,
                            owner: PinOwner::WatchIndexedHead(reservation.watch_id),
                            reason: PinReason::IndexedHead,
                        },
                    ),
                    pins_on(base.snapshot_id, PinOwner::WatchIndexedHead(reservation.watch_id)),
                ),
                operation_pins_on(reservation.operation_id, base.snapshot_id, snapshot_id),
            )
            &&& after.operations@ == before.operations@.update(
                at,
                done(before.operations@[at], now_ns),
            )
            &&& after.admissions@ == changing(
                before.admissions@,
                settled(
                    reservation.operation_id,
                    reservation.watch_id,
                    AdmissionState::Fulfilled,
                ),
            )
            &&& after.triggers@ == if applied.wakes_triggers {
                changing(before.triggers@, raised(reservation.watch_id, reservation.sequence))
            } else {
                before.triggers@
            }
            &&& published matches Ok(published)
            &&& published.watch_id == reservation.watch_id
            &&& published.sequence == reservation.sequence
            &&& published.snapshot_id == snapshot_id
            &&& published.revision_id == revision_id
            &&& published.comparison_id == comparison_id
            &&& events_view(published.events@) == events
        },
    }
}

fn add_owner(
    uids: &mut std::collections::BTreeSet<u64>,
    objects: &BTreeMap<u64, Object>,
    ino: u64,
)
    ensures
        final(uids)@ == match owner_of(object_in(objects@, ino)) {
            Some(uid) => old(uids)@.insert(uid),
            None => old(uids)@,
        },
{
    match objects.get(&ino) {
        Some(object) => {
            uids.insert(object.uid);
        },
        None => {},
    }
}

/// What [`Store::publish_adjacent_delta`] does.
pub open spec fn publishes_adjacent(
    before: Store,
    after: Store,
    reservation: CutReservation,
    lease_owner: [u8; 16],
    snapshot: RecordedSnapshot,
    manifest: ManifestView,
    applied: AppliedDelta,
    base_report: RevisionReport,
    digests: DeltaDigests,
    now_ns: i64,
    published: Result<PublishedCut, ManagerError>,
) -> bool {
    exists|middle: Store, readied: Result<i64, Seq<char>>| #[trigger]
        readies_base(
            before,
            middle,
            reservation,
            lease_owner,
            base_report,
            readied,
        ) && match readied {
            Err(fault) => after == middle && (published matches Err(error)
                && error@ == fault),
            Ok(base_revision_id) => publishes_delta(
                middle,
                after,
                base_revision_id,
                reservation,
                lease_owner,
                snapshot.snapshot_id,
                manifest,
                applied,
                digests,
                now_ns,
                published,
            ),
        }
}

impl Store {
    /// Whether the revision is to be compacted before anything is built on it.
    pub fn must_compact(&self, revision_id: i64) -> (must: bool)
        ensures
            must == (numbered(self.revisions@, revision_id) matches Some(revision)
                && needs_compaction(revision)),
    {
        match find_number(&self.revisions, revision_id) {
            Some(at) => self.revisions[at].delta_depth >= COMPACTION_DEPTH
                || self.revisions[at].summary.summary_version != SUMMARY_VERSION,
            None => false,
        }
    }

    /// Finds the revision that a cut builds on.
    pub fn find_delta_base(&self, reservation: &CutReservation) -> (base: Result<
        i64,
        ManagerError,
    >)
        ensures
            match base {
                Ok(id) => delta_base(*self, *reservation) == Ok::<i64, Seq<char>>(id),
                Err(error) => delta_base(*self, *reservation) == Err::<i64, Seq<char>>(error@),
            },
    {
        match find(&self.watches, &reservation.watch_id) {
            Some(at) => match (self.watches[at].indexed_revision_id, self.watches[at].indexed_seq) {
                (Some(revision_id), Some(indexed)) => match find_number(
                    &self.revisions,
                    revision_id,
                ) {
                    Some(revision_at) => {
                        if self.watches[at].state == WatchState::Active && indexed < i64::MAX
                            && indexed + 1 == reservation.sequence
                            && self.revisions[revision_at].state == RevisionState::Ready {
                            if self.revisions[revision_at].snapshot_id
                                != reservation.base_snapshot_id {
                                return Err(
                                    ManagerError::new(
                                        "cut base snapshot differs from indexed predecessor",
                                    ),
                                );
                            }
                            return Ok(revision_id);
                        }
                    },
                    None => {},
                },
                _ => {},
            },
            None => {},
        }
        Err(ManagerError::new("prior cut is not the ready indexed head"))
    }

    /// Finds the revision that a cut builds on and compacts it where it rests
    /// on too many overlays or has an old summary.
    pub fn ready_delta_base(
        &mut self,
        reservation: &CutReservation,
        lease_owner: [u8; 16],
        report: &RevisionReport,
    ) -> (readied: Result<i64, ManagerError>)
        requires
            old(self).well_formed(),
        ensures
            final(self).well_formed(),
            readies_base(
                *old(self),
                *final(self),
                *reservation,
                lease_owner,
                *report,
                match readied {
                    Ok(id) => Ok(id),
                    Err(error) => Err(error@),
                },
            ),
            readied matches Ok(id) ==> {
                &&& numbered(final(self).revisions@, id) matches Some(base)
                &&& base.delta_depth < COMPACTION_DEPTH
                &&& base.state == RevisionState::Ready
            },
    {
        let id: i64 = match self.find_delta_base(reservation) {
            Ok(id) => id,
            Err(error) => {
                return Err(error);
            },
        };
        let at: usize = match find_number(&self.revisions, id) {
            Some(at) => at,
            None => {
                return Err(ManagerError::new("prior cut is not the ready indexed head"));
            },
        };
        let ghost before = self.revisions@;
        if self.must_compact(id) {
            match self.compact_revision(id, lease_owner, report) {
                Ok(_) => {
                    proof {
                        assert(!is_compact(before[at as int]));
                        lemma_found_again(before, self.revisions@, at as int, id);
                    }
                },
                Err(error) => {
                    return Err(error);
                },
            }
        }
        Ok(id)
    }

    fn count_touched_owners(
        &self,
        chain: &Vec<i64>,
        manifest: &ChangedObjectsManifest,
        base: &Index,
        target: &Index,
    ) -> (counts: BTreeMap<u64, i64>)
        requires
            chain_stored(self.revisions@, chain@),
        ensures
            counts@ == base_counts(
                self.revisions@,
                chain@,
                touched_owners(manifest@.objects.dom(), base.objects@, target.objects@),
            ),
    {
        let ghost all = touched_owners(manifest@.objects.dom(), base.objects@, target.objects@);
        let inos = sorted_keys(&manifest.objects);
        let mut uids: std::collections::BTreeSet<u64> = std::collections::BTreeSet::new();
        let mut counts: BTreeMap<u64, i64> = BTreeMap::new();
        let mut at: usize = 0;
        while at < inos.len()
            invariant
                at <= inos.len(),
                chain_stored(self.revisions@, chain@),
                inos@.to_set() == manifest@.objects.dom(),
                all == touched_owners(manifest@.objects.dom(), base.objects@, target.objects@),
                forall|uid: u64| #[trigger] uids@.contains(uid) ==> all.contains(uid),
                forall|i: int, uid: u64|
                    0 <= i < at && (owner_of(object_in(base.objects@, #[trigger] inos@[i]))
                        == Some(uid) || owner_of(object_in(target.objects@, inos@[i])) == Some(
                        uid,
                    )) ==> #[trigger] uids@.contains(uid),
                forall|uid: u64| #[trigger] counts@.contains_key(uid) <==> uids@.contains(uid),
                forall|uid: u64| #[trigger]
                    counts@.contains_key(uid) ==> counts@[uid] == chain_owner_count_from(
                        self.revisions@,
                        chain@,
                        uid,
                        0,
                    ),
            decreases inos.len() - at,
        {
            let ino: u64 = inos[at];
            assert(inos@.to_set().contains(inos@[at as int]));
            assert(manifest@.objects.dom().contains(ino));
            add_owner(&mut uids, &base.objects, ino);
            match base.objects.get(&ino) {
                Some(object) => {
                    let count: i64 = self.load_revision_owner_count_from_chain(chain, object.uid);
                    counts.insert(object.uid, count);
                },
                None => {},
            }
            add_owner(&mut uids, &target.objects, ino);
            match target.objects.get(&ino) {
                Some(object) => {
                    let count: i64 = self.load_revision_owner_count_from_chain(chain, object.uid);
                    counts.insert(object.uid, count);
                },
                None => {},
            }
            at += 1;
        }
        proof {
            assert forall|uid: u64| all.contains(uid) implies uids@.contains(uid) by {
                let ino = choose|ino: u64| #[trigger]
                    manifest@.objects.dom().contains(ino) && (owner_of(
                        object_in(base.objects@, ino),
                    ) == Some(uid) || owner_of(object_in(target.objects@, ino)) == Some(uid));
                assert(inos@.to_set().contains(ino));
                let i = choose|i: int| 0 <= i < inos@.len() && inos@[i] == ino;
                assert(owner_of(object_in(base.objects@, inos@[i])) == Some(uid) || owner_of(
                    object_in(target.objects@, inos@[i]),
                ) == Some(uid));
            }
            assert(counts@ =~= base_counts(self.revisions@, chain@, all));
        }
        counts
    }

    /// Publishes a delta on a ready base. `digests` are those of what the
    /// delta changes.
    pub fn publish_delta(
        &mut self,
        base_revision_id: i64,
        reservation: &CutReservation,
        lease_owner: [u8; 16],
        snapshot: &RecordedSnapshot,
        manifest: &ChangedObjectsManifest,
        applied: &AppliedDelta,
        digests: &DeltaDigests,
        now_ns: i64,
    ) -> (published: Result<PublishedCut, ManagerError>)
        requires
            old(self).well_formed(),
            manifest.well_formed(),
            covers(*digests, manifest@),
            numbered(old(self).revisions@, base_revision_id) matches Some(base)
                && base.delta_depth < COMPACTION_DEPTH && base.state == RevisionState::Ready,
        ensures
            final(self).well_formed(),
            publishes_delta(
                *old(self),
                *final(self),
                base_revision_id,
                *reservation,
                lease_owner,
                snapshot.snapshot_id,
                manifest@,
                *applied,
                *digests,
                now_ns,
                published,
            ),
    {
        let base_subset = match self.load_revision_delta_subset(
            base_revision_id,
            manifest,
            &digests.base_fault,
        ) {
            Ok(subset) => subset,
            Err(error) => {
                return Err(error);
            },
        };
        let chain = match self.revision_storage_chain(base_revision_id) {
            Ok(chain) => chain,
            Err(error) => {
                return Err(error);
            },
        };
        let base_metadata = match self.load_revision_metadata(base_revision_id) {
            Ok(metadata) => metadata,
            Err(error) => {
                return Err(error);
            },
        };
        let counts = self.count_touched_owners(&chain, manifest, &base_subset, &applied.index);
        let (summary, owner_counts): (RevisionMetadata, BTreeMap<u64, i64>) =
            match apply_revision_metadata(
            &base_metadata,
            &base_subset,
            &applied.index,
            manifest,
            digests,
            &counts,
        ) {
            Ok(revised) => revised,
            Err(error) => {
                return Err(error);
            },
        };
        let manifest_hash: [u8; 32] = manifest.canonical_hash();
        let staged = match stage_delta_rows(
            manifest,
            &applied.events,
            &applied.index,
            &owner_counts,
        ) {
            Ok(staged) => staged,
            Err(error) => {
                return Err(error);
            },
        };
        let snapshot_id: i64 = snapshot.snapshot_id;
        let (at, watch_at, cut_place, row_at): (usize, usize, usize, usize) = match (
            find_cut_operation(
                &self.operations,
                reservation,
                &lease_owner,
                OperationState::ManifestReady,
            ),
            find(&self.watches, &reservation.watch_id),
            find_cut(&self.cuts, &reservation.watch_id, reservation.sequence),
            find_number(&self.snapshots, snapshot_id),
        ) {
            (Some(at), Some(watch_at), Some(cut_place), Some(row_at)) => (
                at,
                watch_at,
                cut_place,
                row_at,
            ),
            _ => {
                return Err(
                    ManagerError::new("delta publication fence, predecessor, or snapshot is stale"),
                );
            },
        };
        let follows: bool = match self.watches[watch_at].indexed_seq {
            Some(indexed) => indexed < i64::MAX && indexed + 1 == reservation.sequence,
            None => false,
        };
        if self.watches[watch_at].indexed_revision_id != Some(base_revision_id) || !follows
            || self.cuts[cut_place].state != CutState::Created
            || self.cuts[cut_place].target_snapshot_id != snapshot_id
            || self.snapshots[row_at].physical_state != PhysicalState::Present {
            return Err(
                ManagerError::new("delta publication fence, predecessor, or snapshot is stale"),
            );
        }
        if manifest.raw_ref_adds as u64 > STORED_MAX {
            return Err(ManagerError::new("raw ref add count overflow"));
        }
        if manifest.raw_ref_deletes as u64 > STORED_MAX {
            return Err(ManagerError::new("raw ref delete count overflow"));
        }
        let comparison_id: i64 = match number_row(&self.comparisons) {
            Ok(id) => id,
            Err(error) => {
                return Err(error);
            },
        };
        let revision_id: i64 = match number_row(&self.revisions) {
            Ok(id) => id,
            Err(error) => {
                return Err(error);
            },
        };
        if self.watches[watch_at].state != WatchState::Active {
            return Err(none_changed("advance indexed watch head"));
        }
        let base_at: usize = match find_number(&self.revisions, base_revision_id) {
            Some(base_at) => base_at,
            None => {
                return Err(
                    ManagerError::new("delta publication fence, predecessor, or snapshot is stale"),
                );
            },
        };
        let base_snapshot_id: i64 = self.revisions[base_at].snapshot_id;
        let delta_depth: i64 = self.revisions[base_at].delta_depth + 1;
        self.comparisons.push(
            Comparison {
                id: comparison_id,
                from_snapshot_id: base_snapshot_id,
                to_snapshot_id: snapshot_id,
                kind: ComparisonKind::Incremental,
                algorithm_version: 1,
                state: ComparisonState::IndexReady,
                lease_owner: Some(lease_owner),
                lease_fence: reservation.operation_fence,
                lease_expires_ns: None,
                manifest_hash: Some(manifest_hash),
                raw_ref_adds: Some(manifest.raw_ref_adds as i64),
                raw_ref_deletes: Some(manifest.raw_ref_deletes as i64),
                objects: staged.objects,
                references: staged.references,
                events: staged.events,
            },
        );
        self.revisions.push(
            Revision {
                id: revision_id,
                snapshot_id,
                storage_base_revision_id: Some(base_revision_id),
                provenance_comparison_id: Some(comparison_id),
                delta_depth,
                state: RevisionState::Ready,
                builder_owner: lease_owner,
                builder_fence: reservation.operation_fence,
                summary,
                created_ns: now_ns,
                checkpoint: None,
                overlay: staged.overlay,
            },
        );
        self.pins.push(
            Pin {
                snapshot_id,
                owner: PinOwner::WatchIndexedHead(reservation.watch_id),
                reason: PinReason::IndexedHead,
            },
        );
        self.watches[watch_at].indexed_revision_id = Some(revision_id);
        self.watches[watch_at].indexed_seq = Some(reservation.sequence);
        self.cuts[cut_place].comparison_id = Some(comparison_id);
        self.cuts[cut_place].comparison_from_snapshot_id = Some(base_snapshot_id);
        self.cuts[cut_place].state = CutState::Ready;
        unpin(
            &mut self.pins,
            base_snapshot_id,
            PinOwner::WatchIndexedHead(reservation.watch_id),
        );
        let owner = PinOwner::Operation(reservation.operation_id);
        let test = |pin: &Pin| -> (picked: bool)
            ensures
                picked == operation_pins_on(
                    reservation.operation_id,
                    base_snapshot_id,
                    snapshot_id,
                )(*pin),
            {
                same_owner(&pin.owner, &owner) && (pin.snapshot_id == base_snapshot_id
                    || pin.snapshot_id == snapshot_id)
            };
        remove(
            &mut self.pins,
            test,
            Ghost(
                operation_pins_on(reservation.operation_id, base_snapshot_id, snapshot_id),
            ),
        );
        self.operations[at].state = OperationState::Done;
        self.operations[at].lease_owner = None;
        self.operations[at].lease_expires_ns = None;
        self.operations[at].updated_ns = now_ns;
        settle_admissions(
            &mut self.admissions,
            reservation.operation_id,
            reservation.watch_id,
            AdmissionState::Fulfilled,
        );
        if applied.wakes_triggers {
            raise_triggers(&mut self.triggers, reservation.watch_id, reservation.sequence);
        }
        proof {
            assert(self.comparisons@ =~= old(self).comparisons@.push(self.comparisons@.last()));
            assert(self.revisions@ =~= old(self).revisions@.push(self.revisions@.last()));
            law_next_number_is_new(old(self).revisions@);
            lemma_depths_push(old(self).revisions@, self.revisions@.last());
            lemma_provenance_pushed(
                old(self).revisions@,
                self.revisions@.last(),
                old(self).comparisons@,
                self.comparisons@.last(),
            );
            assert(revision_sound(self.revisions@.last()));
            assert(self.watches@ =~= old(self).watches@.update(
                watch_at as int,
                self.watches@[watch_at as int],
            ));
            assert(self.cuts@ =~= old(self).cuts@.update(
                cut_place as int,
                self.cuts@[cut_place as int],
            ));
            lemma_cuts_changed(old(self).cuts@, self.cuts@);
            assert(self.operations@ =~= old(self).operations@.update(
                at as int,
                done(old(self).operations@[at as int], now_ns),
            ));
        }
        Ok(
            PublishedCut {
                watch_id: reservation.watch_id,
                sequence: reservation.sequence,
                snapshot_id,
                revision_id,
                comparison_id,
                events: copy_events(&applied.events),
            },
        )
    }

    /// Publishes a cut as a delta on the one before it. `applied` is what the
    /// manifest makes of the base, `base_report` is on the base, and
    /// `digests` are those of what the delta changes. A base that was
    /// compacted for the delta stays compacted even where the delta is then
    /// refused.
    pub fn publish_adjacent_delta(
        &mut self,
        reservation: &CutReservation,
        lease_owner: [u8; 16],
        snapshot: &RecordedSnapshot,
        manifest: &ChangedObjectsManifest,
        applied: &AppliedDelta,
        base_report: &RevisionReport,
        digests: &DeltaDigests,
        now_ns: i64,
    ) -> (published: Result<PublishedCut, ManagerError>)
        requires
            old(self).well_formed(),
            manifest.well_formed(),
            covers(*digests, manifest@),
        ensures
            final(self).well_formed(),
            publishes_adjacent(
                *old(self),
                *final(self),
                *reservation,
                lease_owner,
                *snapshot,
                manifest@,
                *applied,
                *base_report,
                *digests,
                now_ns,
                published,
            ),
    {
        let readied = self.ready_delta_base(reservation, lease_owner, base_report);
        let ghost middle = *self;
        assert(readies_base(
            *old(self),
            middle,
            *reservation,
            lease_owner,
            *base_report,
            match readied {
                Ok(id) => Ok(id),
                Err(error) => Err(error@),
            },
        ));
        match readied {
            Ok(base_revision_id) => self.publish_delta(
                base_revision_id,
                reservation,
                lease_owner,
                snapshot,
                manifest,
                applied,
                digests,
                now_ns,
            ),
            Err(error) => Err(error),
        }
    }
}

proof fn lemma_found_again(before: Seq<Revision>, after: Seq<Revision>, at: int, id: i64)
    requires
        0 <= at < before.len(),
        slot(before, id) == Some(at),
        after == before.update(at, after[at]),
        after[at].id == before[at].id,
    ensures
        numbered(after, id) == Some(after[at]),
{
    lemma_slot_kept(before, after, at, id, 0);
}

} // verus!
