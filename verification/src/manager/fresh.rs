//! Publishing a cut behind a gap: everything in it counts as new.

use crate::index::{copy_events, events_view, Event, EventKind, EventView, Object};
use crate::inodes::{numbers_in_order, sorted_keys};
use crate::manager::compact::{flags_overflow, has_flags_overflow};
use crate::manager::cuts::{cut_operation, find_cut_operation};
use crate::manager::gaps::lemma_cuts_changed;
use crate::manager::pins::{pins_of, pins_on, unpin, unpin_owner};
use crate::manager::provenance::lemma_provenance_pushed;
use crate::manager::publish::{
    check_index, checkpoint_revision, checkpoint_row, cut_at, done, find_cut, index_fault, raised,
    raise_triggers, settle_admissions, settled, CheckedIndex,
};
use crate::manager::reading::{law_next_number_is_new, lemma_depths_push};
use crate::manager::rows::{
    full_text, number_row, AdmissionState, Comparison, ComparisonKind, ComparisonState, CutState,
    Operation, OperationState, PhysicalState, Pin, PinOwner, PinReason, Revision, RevisionState,
    Store, Watch, WatchCut, WatchState,
};
use crate::manager::stage::{ref_rows, stage_references, STORED_MAX};
use crate::manager::table::{
    changing, count, find, find_number, first, fresh, numbered, place, removing, row, tally,
};
use crate::manager::types::{CutReservation, ManagerError, PublishedCut, RecordedSnapshot};
use crate::manifest::{
    lemma_ascending_len, ObjectChange, Reference, CHANGE_CREATED, CHANGE_INODE, CHANGE_REF,
};
use crate::ordered::{in_order, key_set, keys_of, law_in_order, Key};
use crate::text::{context_text, copy_bytes, in_context, same_array};
use std::collections::BTreeMap;
use vstd::prelude::*;

verus! {

broadcast use vstd::std_specs::btree::group_btree_axioms;

/// The paths of an inode, or why they could not be resolved.
pub type PathLookup = Result<Vec<Vec<u8>>, String>;

/// What a new path is reported with: it was created, and so were its inode and
/// its entry.
pub open spec fn fresh_mask() -> u64 {
    CHANGE_CREATED | CHANGE_INODE | CHANGE_REF
}

/// The event of a new path.
pub open spec fn path_added(object: Object, path: Seq<u8>) -> EventView {
    EventView {
        kind: EventKind::PathAdded,
        ino: object.ino,
        old_generation: None,
        new_generation: Some(object.generation),
        change_mask: fresh_mask(),
        old_path: None,
        new_path: Some(path),
    }
}

/// The events of an object's paths.
pub open spec fn paths_added(object: Object, paths: Seq<Vec<u8>>) -> Seq<EventView> {
    paths.map_values(|path: Vec<u8>| path_added(object, path@))
}

/// The events of the objects from `at` on.
pub open spec fn fresh_events_from(
    objects: Map<u64, Object>,
    paths: Map<u64, PathLookup>,
    inos: Seq<u64>,
    at: int,
) -> Result<Seq<EventView>, Seq<char>>
    decreases inos.len() - at,
{
    if at < 0 || at >= inos.len() {
        Ok(Seq::empty())
    } else {
        match paths[inos[at]] {
            Err(fault) => Err(in_context("resolve full-fresh inode paths"@, fault@)),
            Ok(found) => match fresh_events_from(objects, paths, inos, at + 1) {
                Ok(rest) => Ok(paths_added(objects[inos[at]], found@) + rest),
                Err(fault) => Err(fault),
            },
        }
    }
}

/// The events of an index of which everything is new.
pub open spec fn fresh_events(objects: Map<u64, Object>, paths: Map<u64, PathLookup>) -> Result<
    Seq<EventView>,
    Seq<char>,
> {
    fresh_events_from(objects, paths, numbers_in_order(objects.dom()), 0)
}

/// The events of an index of which everything is new: one for each path.
pub fn full_fresh_events(
    objects: &BTreeMap<u64, Object>,
    paths: &BTreeMap<u64, PathLookup>,
) -> (events: Result<Vec<Event>, ManagerError>)
    requires
        objects@.dom().subset_of(paths@.dom()),
    ensures
        match events {
            Ok(events) => fresh_events(objects@, paths@) == Ok::<Seq<EventView>, Seq<char>>(
                events_view(events@),
            ),
            Err(error) => fresh_events(objects@, paths@) == Err::<Seq<EventView>, Seq<char>>(
                error@,
            ),
        },
{
    let inos = sorted_keys(objects);
    let mut events: Vec<Event> = Vec::new();
    let mut at: usize = 0;
    proof {
        assert(events_view(events@) =~= Seq::empty());
        if let Ok(rest) = fresh_events_from(objects@, paths@, inos@, 0) {
            assert(events_view(events@) + rest =~= rest);
        }
    }
    while at < inos.len()
        invariant
            at <= inos.len(),
            inos@ == numbers_in_order(objects@.dom()),
            inos@.to_set() == objects@.dom(),
            objects@.dom().subset_of(paths@.dom()),
            fresh_events(objects@, paths@) == match fresh_events_from(
                objects@,
                paths@,
                inos@,
                at as int,
            ) {
                Ok(rest) => Ok::<Seq<EventView>, Seq<char>>(events_view(events@) + rest),
                Err(fault) => Err::<Seq<EventView>, Seq<char>>(fault),
            },
        decreases inos.len() - at,
    {
        let ino: u64 = inos[at];
        assert(inos@.to_set().contains(inos@[at as int]));
        match (objects.get(&ino), paths.get(&ino)) {
            (Some(object), Some(lookup)) => {
                match lookup {
                    Ok(found) => {
                        let ghost before = events_view(events@);
                        push_added(&mut events, object, found);
                        proof {
                            if let Ok(rest) = fresh_events_from(
                                objects@,
                                paths@,
                                inos@,
                                at + 1,
                            ) {
                                assert(before + (paths_added(*object, found@) + rest)
                                    =~= events_view(events@) + rest);
                            }
                        }
                    },
                    Err(fault) => {
                        return Err(
                            ManagerError::of(
                                context_text("resolve full-fresh inode paths", fault),
                            ),
                        );
                    },
                }
            },
            _ => {
                assert(objects@.contains_key(ino));
                assert(false);
            },
        }
        at += 1;
    }
    assert(events_view(events@) + Seq::empty() =~= events_view(events@));
    Ok(events)
}

fn push_added(events: &mut Vec<Event>, object: &Object, paths: &Vec<Vec<u8>>)
    ensures
        events_view(final(events)@) == events_view(old(events)@) + paths_added(*object, paths@),
{
    let ghost before = events_view(events@);
    let mut at: usize = 0;
    assert(before =~= before + paths_added(*object, paths@.take(0)));
    while at < paths.len()
        invariant
            at <= paths.len(),
            events_view(events@) == before + paths_added(*object, paths@.take(at as int)),
        decreases paths.len() - at,
    {
        let ghost there = events@;
        events.push(
            Event {
                kind: EventKind::PathAdded,
                ino: object.ino,
                old_generation: None,
                new_generation: Some(object.generation),
                change_mask: CHANGE_CREATED | CHANGE_INODE | CHANGE_REF,
                old_path: None,
                new_path: Some(copy_bytes(&paths[at])),
            },
        );
        proof {
            let added = path_added(*object, paths@[at as int]@);
            assert(events@[there.len() as int]@ =~= added);
            assert(events_view(events@) =~= events_view(there).push(added));
            assert(paths_added(*object, paths@.take(at + 1)) =~= paths_added(
                *object,
                paths@.take(at as int),
            ).push(added));
            assert(events_view(events@) =~= before + paths_added(*object, paths@.take(at + 1)));
        }
        at += 1;
    }
    assert(paths@.take(at as int) =~= paths@);
}

/// The rows of objects that are all new.
pub open spec fn created_rows(objects: Map<u64, Object>) -> Seq<ObjectChange> {
    numbers_in_order(objects.dom()).map_values(
        |ino: u64|
            ObjectChange {
                ino: objects[ino].ino,
                old_generation: None,
                new_generation: Some(objects[ino].generation),
                change_mask: CHANGE_CREATED | CHANGE_INODE,
            },
    )
}

fn stage_created(objects: &BTreeMap<u64, Object>) -> (rows: Vec<ObjectChange>)
    ensures
        rows@ == created_rows(objects@),
{
    let inos = sorted_keys(objects);
    let mut rows: Vec<ObjectChange> = Vec::with_capacity(inos.len());
    let mut at: usize = 0;
    while at < inos.len()
        invariant
            at <= inos.len(),
            inos@ == numbers_in_order(objects@.dom()),
            inos@.to_set() == objects@.dom(),
            rows@.len() == at,
            forall|i: int| 0 <= i < at ==> #[trigger] rows@[i] == created_rows(objects@)[i],
        decreases inos.len() - at,
    {
        assert(inos@.to_set().contains(inos@[at as int]));
        match objects.get(&inos[at]) {
            Some(object) => {
                rows.push(
                    ObjectChange {
                        ino: object.ino,
                        old_generation: None,
                        new_generation: Some(object.generation),
                        change_mask: CHANGE_CREATED | CHANGE_INODE,
                    },
                );
            },
            None => {
                assert(false);
            },
        }
        at += 1;
    }
    assert(rows@ =~= created_rows(objects@));
    rows
}

/// Whether the cut lies strictly between two sequences of a watch and both it
/// and its operation have failed.
pub open spec fn failed_between(
    operations: Seq<Operation>,
    watch_id: [u8; 16],
    after: i64,
    before: i64,
) -> spec_fn(WatchCut) -> bool {
    |cut: WatchCut|
        {
            &&& cut.watch_id == watch_id
            &&& after < cut.sequence < before
            &&& cut.state == CutState::Failed
            &&& row(operations, cut.operation_id) matches Some(operation)
            &&& operation.watch_id == cut.watch_id
            &&& operation.sequence == Some(cut.sequence)
            &&& operation.state == OperationState::Failed
        }
}

fn count_failed(
    cuts: &Vec<WatchCut>,
    operations: &Vec<Operation>,
    watch_id: &[u8; 16],
    after: i64,
    before: i64,
) -> (number: usize)
    ensures
        number == tally(cuts@, failed_between(operations@, *watch_id, after, before)),
{
    let test = |cut: &WatchCut| -> (picked: bool)
        ensures
            picked == failed_between(operations@, *watch_id, after, before)(*cut),
        {
            match find(operations, &cut.operation_id) {
                Some(at) => same_array(&cut.watch_id, watch_id) && after < cut.sequence
                    && cut.sequence < before && cut.state == CutState::Failed && same_array(
                    &operations[at].watch_id,
                    &cut.watch_id,
                ) && operations[at].sequence == Some(cut.sequence) && operations[at].state
                    == OperationState::Failed,
                None => false,
            }
        };
    count(cuts, test, Ghost(failed_between(operations@, *watch_id, after, before)))
}

/// The indexed head of an active watch that the sequence lies behind: the
/// number of its revision and its sequence.
pub open spec fn head_before(store: Store, watch_id: [u8; 16], sequence: i64) -> Option<
    (i64, i64),
> {
    match row(store.watches@, watch_id) {
        Some(watch) => match (watch.indexed_revision_id, watch.indexed_seq) {
            (Some(revision_id), Some(indexed)) => match numbered(store.revisions@, revision_id) {
                Some(revision) => if watch.state == WatchState::Active && revision.state
                    == RevisionState::Ready && indexed < sequence {
                    Some((revision_id, indexed))
                } else {
                    None
                },
                None => None,
            },
            _ => None,
        },
        None => None,
    }
}

/// Whether a published cut is still this manager's to index.
pub open spec fn cut_unindexed(
    store: Store,
    reservation: CutReservation,
    lease_owner: [u8; 16],
    snapshot_id: i64,
    snapshot_uuid: [u8; 16],
) -> bool {
    &&& cut_operation(
        store.operations@,
        reservation,
        lease_owner,
        OperationState::ManifestReady,
    )
    &&& first(store.cuts@, cut_at(reservation.watch_id, reservation.sequence)) matches Some(at)
    &&& store.cuts@[at].operation_id == reservation.operation_id
    &&& store.cuts@[at].state == CutState::Created
    &&& store.cuts@[at].target_snapshot_id == snapshot_id
    &&& numbered(store.snapshots@, snapshot_id) matches Some(snapshot)
    &&& snapshot.subvol_uuid == snapshot_uuid
    &&& snapshot.physical_state == PhysicalState::Present
    &&& snapshot.readonly
}

/// Why a cut cannot be published behind a gap.
pub open spec fn fresh_fault(
    store: Store,
    reservation: CutReservation,
    lease_owner: [u8; 16],
    snapshot_id: i64,
    snapshot_uuid: [u8; 16],
    checked: CheckedIndex,
    paths: Map<u64, PathLookup>,
) -> Option<Seq<char>> {
    let index = checked.index@;
    let events = fresh_events(index.objects, paths);
    let head = head_before(store, reservation.watch_id, reservation.sequence);
    if checked.fault is Some {
        Some(in_context("refuse invalid gap-recovery checkpoint"@, checked.fault->0@))
    } else if events is Err {
        Some(events->Err_0)
    } else if index_fault(index) is Some {
        index_fault(index)
    } else if head is None {
        Some("gap target is not newer than the indexed head"@)
    } else if !cut_unindexed(store, reservation, lease_owner, snapshot_id, snapshot_uuid) {
        Some("full-fresh publication fence or target identity is stale"@)
    } else if tally(
        store.cuts@,
        failed_between(
            store.operations@,
            reservation.watch_id,
            (head->0).1,
            reservation.sequence,
        ),
    ) != reservation.sequence - (head->0).1 - 1 {
        Some("gap contains a cut which is not terminally failed"@)
    } else if fresh(store.comparisons@) is None {
        Some(full_text())
    } else if (events->Ok_0).len() > STORED_MAX + 1 {
        Some("event ordinal overflow"@)
    } else if checked.digest.privileged_metadata_count > STORED_MAX {
        Some("privileged metadata count overflow"@)
    } else if fresh(store.revisions@) is None {
        Some(full_text())
    } else if flags_overflow(index.objects) {
        Some("privilege flags exceed SQLite INTEGER"@)
    } else {
        None
    }
}

/// Whether the row is the comparison of a cut of which everything is new.
pub open spec fn fresh_comparison(
    comparison: Comparison,
    id: i64,
    from_snapshot_id: i64,
    to_snapshot_id: i64,
    lease_owner: [u8; 16],
    lease_fence: i64,
    checked: CheckedIndex,
    events: Seq<EventView>,
) -> bool {
    let index = checked.index@;
    &&& comparison == (Comparison {
        id,
        from_snapshot_id,
        to_snapshot_id,
        kind: ComparisonKind::FullFresh,
        algorithm_version: 1,
        state: ComparisonState::IndexReady,
        lease_owner: Some(lease_owner),
        lease_fence,
        lease_expires_ns: None,
        manifest_hash: Some(checked.digest.state_hash),
        raw_ref_adds: Some(index.references.len() as i64),
        raw_ref_deletes: Some(0),
        ..comparison
    })
    &&& comparison.objects@ == created_rows(index.objects)
    &&& ref_rows(comparison.references@) == in_order(index.references).map_values(
        |key: Key| (true, key),
    )
    &&& events_view(comparison.events@) == events
}

/// What publishing a cut behind a gap does.
pub open spec fn publishes_fresh(
    before: Store,
    after: Store,
    reservation: CutReservation,
    lease_owner: [u8; 16],
    snapshot_id: i64,
    snapshot_uuid: [u8; 16],
    checked: CheckedIndex,
    paths: Map<u64, PathLookup>,
    now_ns: i64,
    published: Result<PublishedCut, ManagerError>,
) -> bool {
    match fresh_fault(
        before,
        reservation,
        lease_owner,
        snapshot_id,
        snapshot_uuid,
        checked,
        paths,
    ) {
        Some(fault) => {
            &&& after == before
            &&& published matches Err(error)
            &&& error@ == fault
        },
        None => {
            let events = fresh_events(checked.index@.objects, paths)->Ok_0;
            let (base_revision_id, base_sequence) = head_before(
                before,
                reservation.watch_id,
                reservation.sequence,
            )->0;
            let base_snapshot_id = numbered(before.revisions@, base_revision_id)->0.snapshot_id;
            let comparison_id = fresh(before.comparisons@)->0;
            let revision_id = fresh(before.revisions@)->0;
            let watch_at = place(before.watches@, reservation.watch_id)->0;
            let at = place(before.operations@, reservation.operation_id)->0;
            let cut_place = first(
                before.cuts@,
                cut_at(reservation.watch_id, reservation.sequence),
            )->0;
            &&& after == (Store {
                comparisons: after.comparisons,
                revisions: after.revisions,
                pins: after.pins,
                watches: after.watches,
                cuts: after.cuts,
                operations: after.operations,
                admissions: after.admissions,
                triggers: after.triggers,
                ..before
            })
            &&& after.comparisons@ == before.comparisons@.push(after.comparisons@.last())
            &&& fresh_comparison(
                after.comparisons@.last(),
                comparison_id,
                base_snapshot_id,
                snapshot_id,
                lease_owner,
                reservation.operation_fence,
                checked,
                events,
            )
            &&& after.revisions@ == before.revisions@.push(after.revisions@.last())
            &&& checkpoint_revision(
                after.revisions@.last(),
                revision_id,
                snapshot_id,
                Some(comparison_id),
                lease_owner,
                reservation.operation_fence,
                checked.index@,
                checked.digest,
                now_ns,
            )
            &&& after.watches@ == before.watches@.update(
                watch_at,
                Watch {
                    indexed_revision_id: Some(revision_id),
                    indexed_seq: Some(reservation.sequence),
                    ..before.watches@[watch_at]
                },
            )
            &&& after.cuts@ == before.cuts@.update(
                cut_place,
                WatchCut {
                    comparison_id: Some(comparison_id),
                    comparison_from_snapshot_id: Some(base_snapshot_id),
                    state: CutState::Ready,
                    fresh_instance: true,
                    ..before.cuts@[cut_place]
                },
            )
            &&& after.pins@ == removing(
                removing(
                    before.pins@.push(
                        Pin {
                            snapshot_id,
                            owner: PinOwner::WatchIndexedHead(reservation.watch_id),
                            reason: PinReason::GapRecoveryHead,
                        },
                    ),
                    pins_on(base_snapshot_id, PinOwner::WatchIndexedHead(reservation.watch_id)),
                ),
                pins_of(PinOwner::Operation(reservation.operation_id)),
            )
            &&& after.operations@ == before.operations@.update(
                at,
                done(before.operations@[at], now_ns),
            )
            &&& after.admissions@ == changing(
                before.admissions@,
                settled(
                    reservation.operation_id,
                    reservation.watch_id,
                    AdmissionState::Fulfilled,
                ),
            )
            &&& after.triggers@ == changing(
                before.triggers@,
                raised(reservation.watch_id, reservation.sequence),
            )
            &&& published matches Ok(published)
            &&& published.watch_id == reservation.watch_id
            &&& published.sequence == reservation.sequence
            &&& published.snapshot_id == snapshot_id
            &&& published.revision_id == revision_id
            &&& published.comparison_id == comparison_id
            &&& events_view(published.events@) == events
        },
    }
}

fn find_head_before(
    watches: &Vec<Watch>,
    revisions: &Vec<Revision>,
    watch_id: &[u8; 16],
    sequence: i64,
    Ghost(store): Ghost<Store>,
) -> (head: Option<(usize, usize, i64)>)
    requires
        store.watches@ == watches@,
        store.revisions@ == revisions@,
    ensures
        match head {
            Some((watch_at, revision_at, indexed)) => {
                &&& watch_at < watches@.len()
                &&& revision_at < revisions@.len()
                &&& place(watches@, *watch_id) == Some(watch_at as int)
                &&& row(watches@, *watch_id) == Some(watches@[watch_at as int])
                &&& head_before(store, *watch_id, sequence) == Some(
                    (revisions@[revision_at as int].id, indexed),
                )
                &&& numbered(revisions@, revisions@[revision_at as int].id) == Some(
                    revisions@[revision_at as int],
                )
            },
            None => head_before(store, *watch_id, sequence) is None,
        },
{
    match find(watches, watch_id) {
        Some(watch_at) => match (
            watches[watch_at].indexed_revision_id,
            watches[watch_at].indexed_seq,
        ) {
            (Some(revision_id), Some(indexed)) => match find_number(revisions, revision_id) {
                Some(revision_at) => if watches[watch_at].state == WatchState::Active
                    && revisions[revision_at].state == RevisionState::Ready && indexed < sequence {
                    Some((watch_at, revision_at, indexed))
                } else {
                    None
                },
                None => None,
            },
            _ => None,
        },
        None => None,
    }
}

impl Store {
    /// Publishes a cut whose predecessors could not be compared: the index of
    /// its snapshot is taken whole, and every path in it is reported as new.
    pub fn publish_full_fresh_checkpoint(
        &mut self,
        reservation: &CutReservation,
        lease_owner: [u8; 16],
        snapshot: &RecordedSnapshot,
        checked: &CheckedIndex,
        paths: &BTreeMap<u64, PathLookup>,
        now_ns: i64,
    ) -> (published: Result<PublishedCut, ManagerError>)
        requires
            checked.index.well_formed(),
            checked.index@.objects.dom().subset_of(paths@.dom()),
        ensures
            old(self).well_formed() ==> final(self).well_formed(),
            publishes_fresh(
                *old(self),
                *final(self),
                *reservation,
                lease_owner,
                snapshot.snapshot_id,
                snapshot.identity.subvol_uuid,
                *checked,
                paths@,
                now_ns,
                published,
            ),
    {
        match &checked.fault {
            Some(fault) => {
                return Err(
                    ManagerError::of(context_text("refuse invalid gap-recovery checkpoint", fault)),
                );
            },
            None => {},
        }
        let events = match full_fresh_events(&checked.index.objects, paths) {
            Ok(events) => events,
            Err(error) => {
                return Err(error);
            },
        };
        let totals = match check_index(&checked.index) {
            Ok(totals) => totals,
            Err(error) => {
                return Err(error);
            },
        };
        let snapshot_id: i64 = snapshot.snapshot_id;
        let (watch_at, revision_at, base_sequence): (usize, usize, i64) = match find_head_before(
            &self.watches,
            &self.revisions,
            &reservation.watch_id,
            reservation.sequence,
            Ghost(*self),
        ) {
            Some(head) => head,
            None => {
                return Err(ManagerError::new("gap target is not newer than the indexed head"));
            },
        };
        let base_snapshot_id: i64 = self.revisions[revision_at].snapshot_id;
        let (at, cut_place, row_at): (usize, usize, usize) = match (
            find_cut_operation(
                &self.operations,
                reservation,
                &lease_owner,
                OperationState::ManifestReady,
            ),
            find_cut(&self.cuts, &reservation.watch_id, reservation.sequence),
            find_number(&self.snapshots, snapshot_id),
        ) {
            (Some(at), Some(cut_place), Some(row_at)) => (at, cut_place, row_at),
            _ => {
                return Err(
                    ManagerError::new("full-fresh publication fence or target identity is stale"),
                );
            },
        };
        if !same_array(&self.cuts[cut_place].operation_id, &reservation.operation_id)
            || self.cuts[cut_place].state != CutState::Created
            || self.cuts[cut_place].target_snapshot_id != snapshot_id || !same_array(
            &self.snapshots[row_at].subvol_uuid,
            &snapshot.identity.subvol_uuid,
        ) || self.snapshots[row_at].physical_state != PhysicalState::Present
            || !self.snapshots[row_at].readonly {
            return Err(
                ManagerError::new("full-fresh publication fence or target identity is stale"),
            );
        }
        let failed: usize = count_failed(
            &self.cuts,
            &self.operations,
            &reservation.watch_id,
            base_sequence,
            reservation.sequence,
        );
        let expected: i128 = reservation.sequence as i128 - base_sequence as i128 - 1;
        if failed as i128 != expected {
            return Err(ManagerError::new("gap contains a cut which is not terminally failed"));
        }
        let comparison_id: i64 = match number_row(&self.comparisons) {
            Ok(id) => id,
            Err(error) => {
                return Err(error);
            },
        };
        if events.len() as u64 > STORED_MAX + 1 {
            return Err(ManagerError::new("event ordinal overflow"));
        }
        if checked.digest.privileged_metadata_count > STORED_MAX {
            return Err(ManagerError::new("privileged metadata count overflow"));
        }
        let revision_id: i64 = match number_row(&self.revisions) {
            Ok(id) => id,
            Err(error) => {
                return Err(error);
            },
        };
        if has_flags_overflow(&checked.index.objects) {
            return Err(ManagerError::new("privilege flags exceed SQLite INTEGER"));
        }
        let none: Vec<Reference> = Vec::new();
        let references = stage_references(&none, &checked.index.references);
        proof {
            lemma_ascending_len(keys_of(checked.index.references@));
            assert(key_set(none@) =~= Set::empty());
            law_in_order(keys_of(none@));
            assert(ref_rows(references@) =~= in_order(checked.index@.references).map_values(
                |key: Key| (true, key),
            ));
        }
        self.comparisons.push(
            Comparison {
                id: comparison_id,
                from_snapshot_id: base_snapshot_id,
                to_snapshot_id: snapshot_id,
                kind: ComparisonKind::FullFresh,
                algorithm_version: 1,
                state: ComparisonState::IndexReady,
                lease_owner: Some(lease_owner),
                lease_fence: reservation.operation_fence,
                lease_expires_ns: None,
                manifest_hash: Some(checked.digest.state_hash),
                raw_ref_adds: Some(checked.index.references.len() as i64),
                raw_ref_deletes: Some(0),
                objects: stage_created(&checked.index.objects),
                references,
                events: copy_events(&events),
            },
        );
        self.revisions.push(
            checkpoint_row(
                revision_id,
                snapshot_id,
                Some(comparison_id),
                lease_owner,
                reservation.operation_fence,
                checked,
                totals,
                now_ns,
            ),
        );
        self.pins.push(
            Pin {
                snapshot_id,
                owner: PinOwner::WatchIndexedHead(reservation.watch_id),
                reason: PinReason::GapRecoveryHead,
            },
        );
        self.watches[watch_at].indexed_revision_id = Some(revision_id);
        self.watches[watch_at].indexed_seq = Some(reservation.sequence);
        self.cuts[cut_place].comparison_id = Some(comparison_id);
        self.cuts[cut_place].comparison_from_snapshot_id = Some(base_snapshot_id);
        self.cuts[cut_place].state = CutState::Ready;
        self.cuts[cut_place].fresh_instance = true;
        unpin(
            &mut self.pins,
            base_snapshot_id,
            PinOwner::WatchIndexedHead(reservation.watch_id),
        );
        unpin_owner(&mut self.pins, PinOwner::Operation(reservation.operation_id));
        self.operations[at].state = OperationState::Done;
        self.operations[at].lease_owner = None;
        self.operations[at].lease_expires_ns = None;
        self.operations[at].updated_ns = now_ns;
        settle_admissions(
            &mut self.admissions,
            reservation.operation_id,
            reservation.watch_id,
            AdmissionState::Fulfilled,
        );
        raise_triggers(&mut self.triggers, reservation.watch_id, reservation.sequence);
        proof {
            assert(self.comparisons@ =~= old(self).comparisons@.push(self.comparisons@.last()));
            assert(self.revisions@ =~= old(self).revisions@.push(self.revisions@.last()));
            if old(self).well_formed() {
                law_next_number_is_new(old(self).revisions@);
                lemma_depths_push(old(self).revisions@, self.revisions@.last());
            }
            if old(self).well_formed() {
                lemma_provenance_pushed(
                    old(self).revisions@,
                    self.revisions@.last(),
                    old(self).comparisons@,
                    self.comparisons@.last(),
                );
            }
            assert(self.watches@ =~= old(self).watches@.update(
                watch_at as int,
                self.watches@[watch_at as int],
            ));
            assert(self.cuts@ =~= old(self).cuts@.update(
                cut_place as int,
                self.cuts@[cut_place as int],
            ));
            if old(self).well_formed() {
                lemma_cuts_changed(old(self).cuts@, self.cuts@);
            }
            assert(self.operations@ =~= old(self).operations@.update(
                at as int,
                done(old(self).operations@[at as int], now_ns),
            ));
        }
        Ok(
            PublishedCut {
                watch_id: reservation.watch_id,
                sequence: reservation.sequence,
                snapshot_id,
                revision_id,
                comparison_id,
                events,
            },
        )
    }
}

} // verus!
