//! Publishing what a cut found: its comparison, its revision and the new head
//! of its watch.

use crate::index::{Index, IndexView};
use crate::manager::compact::{
    flags_overflow, has_flags_overflow, overlay_empty, owners_fault, owners_of, summary_of,
    total_owners, IndexDigest, OwnerTotals,
};
use crate::manager::cuts::{
    cut_operation, does_snapshot_stand, find_cut_operation, snapshot_stands,
};
use crate::manager::gaps::lemma_cuts_changed;
use crate::manager::metadata::{RevisionMetadata, SUMMARY_VERSION};
use crate::manager::owners::{counts_owners, xor_of};
use crate::manager::pins::{pins_for, pins_of, unpin_owner, unpin_reason};
use crate::manager::reading::{law_next_number_is_new, lemma_depths_push};
use crate::manager::revisions::revision_sound;
use crate::manager::rows::{
    full_text, held, is_held, none_changed, number_row, Admission, AdmissionState, Checkpoint,
    CutState, Operation, OperationState, Overlay, Pin, PinOwner, PinReason, Revision, RevisionState,
    Store, Trigger, TriggerState, Watch, WatchCut, WatchState,
};
use crate::manager::stage::STORED_MAX;
use crate::manager::table::{
    change, changing, count, find, find_first, first, fresh, place, removing, row,
};
use crate::manager::types::{
    holds, row_count_text, CutReservation, InitializeReservation, InitializedWatch, ManagerError,
    RecordedSnapshot,
};
use crate::manifest::lemma_ascending_len;
use crate::ordered::keys_of;
use crate::text::{context_text, in_context, same_array};
use std::collections::BTreeMap;
use vstd::prelude::*;

verus! {

broadcast use vstd::std_specs::btree::group_btree_axioms;

/// A whole index, what its own rules find wrong with it, and its digest.
#[derive(Debug)]
pub struct CheckedIndex {
    pub index: Index,
    pub fault: Option<String>,
    pub digest: IndexDigest,
}

/// Settles what waits for an operation of a watch.
pub open spec fn settled(
    operation_id: [u8; 16],
    watch_id: [u8; 16],
    state: AdmissionState,
) -> spec_fn(Admission) -> Admission {
    |waiting: Admission|
        if waiting.operation_id == operation_id && waiting.watch_id == watch_id && waiting.state
            == AdmissionState::Waiting {
            Admission { state, ..waiting }
        } else {
            waiting
        }
}

/// Settles what waits for an operation of a watch.
pub fn settle_admissions(
    admissions: &mut Vec<Admission>,
    operation_id: [u8; 16],
    watch_id: [u8; 16],
    state: AdmissionState,
)
    ensures
        final(admissions)@ == changing(old(admissions)@, settled(operation_id, watch_id, state)),
{
    let apply = |waiting: Admission| -> (after: Admission)
        ensures
            after == settled(operation_id, watch_id, state)(waiting),
        {
            if same_array(&waiting.operation_id, &operation_id) && same_array(
                &waiting.watch_id,
                &watch_id,
            ) && waiting.state == AdmissionState::Waiting {
                Admission { state, ..waiting }
            } else {
                waiting
            }
        };
    change(admissions, apply, Ghost(settled(operation_id, watch_id, state)));
}

/// The later of a sequence and one that may already be pending.
pub open spec fn later(pending: Option<i64>, sequence: i64) -> i64 {
    match pending {
        Some(pending) => if pending > sequence {
            pending
        } else {
            sequence
        },
        None => sequence,
    }
}

/// Gives the active triggers of a watch something to do.
pub open spec fn raised(watch_id: [u8; 16], sequence: i64) -> spec_fn(Trigger) -> Trigger {
    |trigger: Trigger|
        if trigger.watch_id == watch_id && trigger.state == TriggerState::Active {
            Trigger {
                pending_through_seq: Some(later(trigger.pending_through_seq, sequence)),
                ..trigger
            }
        } else {
            trigger
        }
}

/// The later of a sequence and one that may already be pending.
pub fn later_of(pending: Option<i64>, sequence: i64) -> (latest: i64)
    ensures
        latest == later(pending, sequence),
{
    match pending {
        Some(pending) => if pending > sequence {
            pending
        } else {
            sequence
        },
        None => sequence,
    }
}

/// Gives the active triggers of a watch something to do.
pub fn raise_triggers(triggers: &mut Vec<Trigger>, watch_id: [u8; 16], sequence: i64)
    ensures
        final(triggers)@ == changing(old(triggers)@, raised(watch_id, sequence)),
{
    let apply = |trigger: Trigger| -> (after: Trigger)
        ensures
            after == raised(watch_id, sequence)(trigger),
        {
            if same_array(&trigger.watch_id, &watch_id) && trigger.state == TriggerState::Active {
                Trigger {
                    pending_through_seq: Some(later_of(trigger.pending_through_seq, sequence)),
                    ..trigger
                }
            } else {
                trigger
            }
        };
    change(triggers, apply, Ghost(raised(watch_id, sequence)));
}

/// The cut of a watch with the sequence.
pub open spec fn cut_at(watch_id: [u8; 16], sequence: i64) -> spec_fn(WatchCut) -> bool {
    |cut: WatchCut| cut.watch_id == watch_id && cut.sequence == sequence
}

/// Finds the cut of a watch with the sequence.
pub fn find_cut(cuts: &Vec<WatchCut>, watch_id: &[u8; 16], sequence: i64) -> (at: Option<usize>)
    ensures
        match at {
            Some(at) => first(cuts@, cut_at(*watch_id, sequence)) == Some(at as int) && at
                < cuts@.len() && cut_at(*watch_id, sequence)(cuts@[at as int]),
            None => first(cuts@, cut_at(*watch_id, sequence)) is None,
        },
{
    let test = |cut: &WatchCut| -> (picked: bool)
        ensures
            picked == cut_at(*watch_id, sequence)(*cut),
        { same_array(&cut.watch_id, watch_id) && cut.sequence == sequence };
    find_first(cuts, test, Ghost(cut_at(*watch_id, sequence)))
}

/// Why an index cannot be summarised.
pub open spec fn index_fault(index: IndexView) -> Option<Seq<char>> {
    if owners_fault(index.objects) is Some {
        owners_fault(index.objects)
    } else if index.objects.dom().len() > STORED_MAX {
        Some("object count exceeds SQLite INTEGER"@)
    } else if index.references.len() > STORED_MAX {
        Some("reference count exceeds SQLite INTEGER"@)
    } else {
        None
    }
}

pub fn check_index(index: &Index) -> (totals: Result<OwnerTotals, ManagerError>)
    requires
        index.well_formed(),
    ensures
        match totals {
            Ok(totals) => {
                &&& index_fault(index@) is None
                &&& counts_owners(totals.counts@, index@.objects, index@.objects.dom())
                &&& totals.cardinality == owners_of(index@.objects).len()
                &&& totals.uid_xor == xor_of(
                    owners_of(index@.objects),
                )
            },
            Err(error) => index_fault(index@) == Some(error@),
        },
{
    let totals = match total_owners(index) {
        Ok(totals) => totals,
        Err(error) => {
            return Err(error);
        },
    };
    if index.objects.len() as u64 > STORED_MAX {
        return Err(ManagerError::new("object count exceeds SQLite INTEGER"));
    }
    proof {
        lemma_ascending_len(keys_of(index.references@));
    }
    if index.references.len() as u64 > STORED_MAX {
        return Err(ManagerError::new("reference count exceeds SQLite INTEGER"));
    }
    Ok(totals)
}

/// Whether the row is the ready revision of a snapshot, stored as a checkpoint
/// of its own.
pub open spec fn checkpoint_revision(
    revision: Revision,
    id: i64,
    snapshot_id: i64,
    provenance: Option<i64>,
    builder_owner: [u8; 16],
    builder_fence: i64,
    index: IndexView,
    digest: IndexDigest,
    created_ns: i64,
) -> bool {
    &&& revision.id == id
    &&& revision.snapshot_id == snapshot_id
    &&& revision.storage_base_revision_id is None
    &&& revision.provenance_comparison_id == provenance
    &&& revision.delta_depth == 0
    &&& revision.state == RevisionState::Ready
    &&& revision.builder_owner == builder_owner
    &&& revision.builder_fence == builder_fence
    &&& revision.summary == summary_of(index, digest)
    &&& revision.created_ns == created_ns
    &&& revision.checkpoint matches Some(checkpoint)
    &&& checkpoint.state == RevisionState::Ready
    &&& checkpoint.builder_owner == builder_owner
    &&& checkpoint.builder_fence == builder_fence
    &&& checkpoint.index@ == index
    &&& checkpoint.index.well_formed()
    &&& counts_owners(checkpoint.owner_counts@, index.objects, index.objects.dom())
    &&& overlay_empty(revision.overlay)
}

pub fn checkpoint_row(
    id: i64,
    snapshot_id: i64,
    provenance: Option<i64>,
    builder_owner: [u8; 16],
    builder_fence: i64,
    checked: &CheckedIndex,
    totals: OwnerTotals,
    created_ns: i64,
) -> (revision: Revision)
    requires
        checked.index.well_formed(),
        index_fault(checked.index@) is None,
        checked.digest.privileged_metadata_count <= STORED_MAX,
        counts_owners(totals.counts@, checked.index@.objects, checked.index@.objects.dom()),
        totals.cardinality == owners_of(checked.index@.objects).len(),
        totals.uid_xor == xor_of(
            owners_of(checked.index@.objects),
        ),
    ensures
        checkpoint_revision(
            revision,
            id,
            snapshot_id,
            provenance,
            builder_owner,
            builder_fence,
            checked.index@,
            checked.digest,
            created_ns,
        ),
        revision_sound(revision),
{
    proof {
        lemma_ascending_len(keys_of(checked.index.references@));
    }
    let summary = RevisionMetadata {
        summary_version: SUMMARY_VERSION,
        owner_cardinality: totals.cardinality,
        owner_uid_xor: totals.uid_xor,
        object_count: checked.index.objects.len() as i64,
        ref_count: checked.index.references.len() as i64,
        state_hash: checked.digest.state_hash,
        single_owner_uid: checked.digest.single_owner_uid,
        privileged_metadata_count: checked.digest.privileged_metadata_count as i64,
        security_state_hash: checked.digest.security_state_hash,
    };
    let index = checked.index.copy();
    Revision {
        id,
        snapshot_id,
        storage_base_revision_id: None,
        provenance_comparison_id: provenance,
        delta_depth: 0,
        state: RevisionState::Ready,
        builder_owner,
        builder_fence,
        summary,
        created_ns,
        checkpoint: Some(
            Checkpoint {
                state: RevisionState::Ready,
                builder_owner,
                builder_fence,
                index,
                owner_counts: totals.counts,
            },
        ),
        overlay: Overlay {
            objects: BTreeMap::new(),
            references: Vec::new(),
            owner_counts: BTreeMap::new(),
        },
    }
}

/// Whether a recorded initialization is still this manager's to publish.
pub open spec fn initialize_recorded(
    store: Store,
    reservation: InitializeReservation,
    lease_owner: [u8; 16],
    snapshot_id: i64,
    snapshot_uuid: [u8; 16],
) -> bool {
    &&& row(store.operations@, reservation.operation_id) matches Some(operation)
    &&& operation.watch_id == reservation.watch_id
    &&& operation.state == OperationState::UuidRecorded
    &&& held(operation, lease_owner, reservation.operation_fence)
    &&& operation.discovered_uuid == Some(snapshot_uuid)
    &&& snapshot_stands(
        store.snapshots@,
        snapshot_id,
        operation.filesystem_id,
        snapshot_uuid,
    )
    &&& row(store.watches@, reservation.watch_id) matches Some(watch)
    &&& watch.state == WatchState::Initializing
}

/// Why the first checkpoint of a watch cannot be published.
pub open spec fn initial_fault(
    store: Store,
    reservation: InitializeReservation,
    lease_owner: [u8; 16],
    snapshot_id: i64,
    snapshot_uuid: [u8; 16],
    checked: CheckedIndex,
) -> Option<Seq<char>> {
    let index = checked.index@;
    if checked.fault is Some {
        Some(in_context("refuse invalid initial checkpoint"@, checked.fault->0@))
    } else if index_fault(index) is Some {
        index_fault(index)
    } else if !initialize_recorded(
        store,
        reservation,
        lease_owner,
        snapshot_id,
        snapshot_uuid,
    ) {
        Some("initialize publication fence or snapshot identity is stale"@)
    } else if checked.digest.privileged_metadata_count > STORED_MAX {
        Some("privileged metadata count overflow"@)
    } else if fresh(store.revisions@) is None {
        Some(full_text())
    } else if flags_overflow(index.objects) {
        Some("privilege flags exceed SQLite INTEGER"@)
    } else if row(store.watches@, reservation.watch_id)->0.indexed_revision_id is Some || row(
        store.watches@,
        reservation.watch_id,
    )->0.last_cut_snapshot_id is Some {
        Some(row_count_text("activate initialized watch"@, 0))
    } else {
        None
    }
}

/// The operation once it is done.
pub open spec fn done(operation: Operation, now_ns: i64) -> Operation {
    Operation {
        state: OperationState::Done,
        lease_owner: None,
        lease_expires_ns: None,
        updated_ns: now_ns,
        ..operation
    }
}

/// What publishing the first checkpoint of a watch does.
pub open spec fn publishes_initial(
    before: Store,
    after: Store,
    reservation: InitializeReservation,
    lease_owner: [u8; 16],
    snapshot_id: i64,
    snapshot_uuid: [u8; 16],
    checked: CheckedIndex,
    now_ns: i64,
    published: Result<InitializedWatch, ManagerError>,
) -> bool {
    match initial_fault(
        before,
        reservation,
        lease_owner,
        snapshot_id,
        snapshot_uuid,
        checked,
    ) {
        Some(fault) => {
            &&& after == before
            &&& published matches Err(error)
            &&& error@ == fault
        },
        None => {
            let id = fresh(before.revisions@)->0;
            let watch_at = place(before.watches@, reservation.watch_id)->0;
            let at = place(before.operations@, reservation.operation_id)->0;
            &&& after == (Store {
                revisions: after.revisions,
                watches: after.watches,
                pins: after.pins,
                operations: after.operations,
                ..before
            })
            &&& after.revisions@ == before.revisions@.push(after.revisions@.last())
            &&& checkpoint_revision(
                after.revisions@.last(),
                id,
                snapshot_id,
                None,
                lease_owner,
                reservation.operation_fence,
                checked.index@,
                checked.digest,
                now_ns,
            )
            &&& after.watches@ == before.watches@.update(
                watch_at,
                Watch {
                    indexed_revision_id: Some(id),
                    indexed_seq: Some(0),
                    last_cut_snapshot_id: Some(snapshot_id),
                    last_cut_seq: Some(0),
                    replay_floor_seq: Some(0),
                    state: WatchState::Active,
                    ..before.watches@[watch_at]
                },
            )
            &&& after.pins@ == removing(
                before.pins@.push(
                    Pin {
                        snapshot_id,
                        owner: PinOwner::WatchIndexedHead(reservation.watch_id),
                        reason: PinReason::InitializedIndexHead,
                    },
                ).push(
                    Pin {
                        snapshot_id,
                        owner: PinOwner::WatchLastCut(reservation.watch_id),
                        reason: PinReason::InitializedPhysicalHead,
                    },
                ),
                pins_for(
                    snapshot_id,
                    PinOwner::Operation(reservation.operation_id),
                    PinReason::InitializeBuild,
                ),
            )
            &&& after.operations@ == before.operations@.update(
                at,
                done(before.operations@[at], now_ns),
            )
            &&& published == Ok::<InitializedWatch, ManagerError>(
                InitializedWatch {
                    watch_id: reservation.watch_id,
                    grant_id: reservation.grant_id,
                    revision_id: id,
                    snapshot_id,
                    sequence: 0,
                    fresh_instance: true,
                },
            )
        },
    }
}

/// What [`Store::fail_cut_comparison`] does.
pub open spec fn fails_cut(
    before: Store,
    after: Store,
    reservation: CutReservation,
    lease_owner: [u8; 16],
    text: Seq<char>,
    now_ns: i64,
    failed: Result<(), ManagerError>,
) -> bool {
    match fail_cut_fault(before, reservation, lease_owner, text) {
        Some(fault) => {
            &&& after == before
            &&& failed matches Err(error)
            &&& error@ == fault
        },
        None => {
            let cut_place = first(
                before.cuts@,
                cut_at(reservation.watch_id, reservation.sequence),
            )->0;
            let at = place(before.operations@, reservation.operation_id)->0;
            let operation = after.operations@[at];
            &&& failed is Ok
            &&& after == (Store {
                cuts: after.cuts,
                operations: after.operations,
                pins: after.pins,
                admissions: after.admissions,
                ..before
            })
            &&& after.cuts@ =~= before.cuts@.update(
                cut_place,
                WatchCut { state: CutState::Failed, ..before.cuts@[cut_place] },
            )
            &&& after.operations@ =~= before.operations@.update(at, operation)
            &&& operation == (Operation {
                state: OperationState::Failed,
                error: operation.error,
                lease_owner: None,
                lease_expires_ns: None,
                updated_ns: now_ns,
                ..before.operations@[at]
            })
            &&& operation.error matches Some(kept)
            &&& kept@ == text
            &&& after.pins@ =~= removing(
                before.pins@,
                pins_of(PinOwner::Operation(reservation.operation_id)),
            )
            &&& after.admissions@ =~= changing(
                before.admissions@,
                settled(
                    reservation.operation_id,
                    reservation.watch_id,
                    AdmissionState::Abandoned,
                ),
            )
        },
    }
}

impl Store {
    /// Publishes the first checkpoint of a watch and makes the watch active.
    pub fn publish_initial_checkpoint(
        &mut self,
        reservation: &InitializeReservation,
        lease_owner: [u8; 16],
        snapshot: &RecordedSnapshot,
        checked: &CheckedIndex,
        now_ns: i64,
    ) -> (published: Result<InitializedWatch, ManagerError>)
        requires
            checked.index.well_formed(),
        ensures
            old(self).well_formed() ==> final(self).well_formed(),
            publishes_initial(
                *old(self),
                *final(self),
                *reservation,
                lease_owner,
                snapshot.snapshot_id,
                snapshot.identity.subvol_uuid,
                *checked,
                now_ns,
                published,
            ),
    {
        match &checked.fault {
            Some(fault) => {
                return Err(
                    ManagerError::of(context_text("refuse invalid initial checkpoint", fault)),
                );
            },
            None => {},
        }
        let totals = match check_index(&checked.index) {
            Ok(totals) => totals,
            Err(error) => {
                return Err(error);
            },
        };
        let snapshot_id: i64 = snapshot.snapshot_id;
        let (at, watch_at): (usize, usize) = match (
            find(&self.operations, &reservation.operation_id),
            find(&self.watches, &reservation.watch_id),
        ) {
            (Some(at), Some(watch_at)) => (at, watch_at),
            _ => {
                return Err(
                    ManagerError::new("initialize publication fence or snapshot identity is stale"),
                );
            },
        };
        let operation = &self.operations[at];
        if !same_array(&operation.watch_id, &reservation.watch_id) || operation.state
            != OperationState::UuidRecorded || !is_held(
            operation,
            &lease_owner,
            reservation.operation_fence,
        ) || !holds(
            &operation.discovered_uuid,
            &snapshot.identity.subvol_uuid,
        ) || !does_snapshot_stand(
            &self.snapshots,
            snapshot_id,
            operation.filesystem_id,
            &snapshot.identity.subvol_uuid,
        ) || self.watches[watch_at].state != WatchState::Initializing {
            return Err(
                ManagerError::new("initialize publication fence or snapshot identity is stale"),
            );
        }
        if checked.digest.privileged_metadata_count > STORED_MAX {
            return Err(ManagerError::new("privileged metadata count overflow"));
        }
        let revision_id: i64 = match number_row(&self.revisions) {
            Ok(id) => id,
            Err(error) => {
                return Err(error);
            },
        };
        if has_flags_overflow(&checked.index.objects) {
            return Err(ManagerError::new("privilege flags exceed SQLite INTEGER"));
        }
        if self.watches[watch_at].indexed_revision_id.is_some()
            || self.watches[watch_at].last_cut_snapshot_id.is_some() {
            return Err(none_changed("activate initialized watch"));
        }
        self.revisions.push(
            checkpoint_row(
                revision_id,
                snapshot_id,
                None,
                lease_owner,
                reservation.operation_fence,
                checked,
                totals,
                now_ns,
            ),
        );
        self.watches[watch_at].indexed_revision_id = Some(revision_id);
        self.watches[watch_at].indexed_seq = Some(0);
        self.watches[watch_at].last_cut_snapshot_id = Some(snapshot_id);
        self.watches[watch_at].last_cut_seq = Some(0);
        self.watches[watch_at].replay_floor_seq = Some(0);
        self.watches[watch_at].state = WatchState::Active;
        self.pins.push(
            Pin {
                snapshot_id,
                owner: PinOwner::WatchIndexedHead(reservation.watch_id),
                reason: PinReason::InitializedIndexHead,
            },
        );
        self.pins.push(
            Pin {
                snapshot_id,
                owner: PinOwner::WatchLastCut(reservation.watch_id),
                reason: PinReason::InitializedPhysicalHead,
            },
        );
        unpin_reason(
            &mut self.pins,
            snapshot_id,
            PinOwner::Operation(reservation.operation_id),
            PinReason::InitializeBuild,
        );
        self.operations[at].state = OperationState::Done;
        self.operations[at].lease_owner = None;
        self.operations[at].lease_expires_ns = None;
        self.operations[at].updated_ns = now_ns;
        proof {
            assert(self.revisions@ =~= old(self).revisions@.push(self.revisions@.last()));
            if old(self).well_formed() {
                law_next_number_is_new(old(self).revisions@);
                lemma_depths_push(old(self).revisions@, self.revisions@.last());
            }
            assert(self.watches@ =~= old(self).watches@.update(
                watch_at as int,
                self.watches@[watch_at as int],
            ));
            assert(self.operations@ =~= old(self).operations@.update(
                at as int,
                done(old(self).operations@[at as int], now_ns),
            ));
        }
        Ok(
            InitializedWatch {
                watch_id: reservation.watch_id,
                grant_id: reservation.grant_id,
                revision_id,
                snapshot_id,
                sequence: 0,
                fresh_instance: true,
            },
        )
    }

    /// Gives up on comparing a cut whose snapshot was published.
    pub fn fail_cut_comparison(
        &mut self,
        reservation: &CutReservation,
        lease_owner: [u8; 16],
        error: &str,
        now_ns: i64,
    ) -> (failed: Result<(), ManagerError>)
        ensures
            fails_cut(*old(self), *final(self), *reservation, lease_owner, error@, now_ns, failed),
            old(self).well_formed() ==> final(self).well_formed(),
    {
        let text = error.to_owned();
        if is_empty_text(&text) {
            return Err(ManagerError::new("terminal cut failure needs an error"));
        }
        let cut_place: usize = match find_cut(
            &self.cuts,
            &reservation.watch_id,
            reservation.sequence,
        ) {
            Some(cut_place) => cut_place,
            None => {
                return Err(none_changed("fail cut comparison"));
            },
        };
        if !same_array(&self.cuts[cut_place].operation_id, &reservation.operation_id)
            || self.cuts[cut_place].state != CutState::Created
            || self.cuts[cut_place].comparison_id.is_some() {
            return Err(none_changed("fail cut comparison"));
        }
        let at: usize = match find_cut_operation(
            &self.operations,
            reservation,
            &lease_owner,
            OperationState::ManifestReady,
        ) {
            Some(at) => at,
            None => {
                return Err(none_changed("fail cut operation"));
            },
        };
        self.cuts[cut_place].state = CutState::Failed;
        self.operations[at].state = OperationState::Failed;
        self.operations[at].error = Some(text);
        self.operations[at].lease_owner = None;
        self.operations[at].lease_expires_ns = None;
        self.operations[at].updated_ns = now_ns;
        unpin_owner(&mut self.pins, PinOwner::Operation(reservation.operation_id));
        settle_admissions(
            &mut self.admissions,
            reservation.operation_id,
            reservation.watch_id,
            AdmissionState::Abandoned,
        );
        proof {
            if old(self).well_formed() {
                lemma_cuts_changed(old(self).cuts@, self.cuts@);
            }
        }
        Ok(())
    }
}

/// Why a cut cannot be given up.
pub open spec fn fail_cut_fault(
    store: Store,
    reservation: CutReservation,
    lease_owner: [u8; 16],
    error: Seq<char>,
) -> Option<Seq<char>> {
    let unfinished = match first(
        store.cuts@,
        cut_at(reservation.watch_id, reservation.sequence),
    ) {
        Some(at) => store.cuts@[at].operation_id == reservation.operation_id
            && store.cuts@[at].state == CutState::Created && store.cuts@[at].comparison_id is None,
        None => false,
    };
    if error.len() == 0 {
        Some("terminal cut failure needs an error"@)
    } else if !unfinished {
        Some(row_count_text("fail cut comparison"@, 0))
    } else if !cut_operation(
        store.operations@,
        reservation,
        lease_owner,
        OperationState::ManifestReady,
    ) {
        Some(row_count_text("fail cut operation"@, 0))
    } else {
        None
    }
}

fn is_empty_text(text: &String) -> (empty: bool)
    ensures
        empty == (text@.len() == 0),
{
    let none = String::new();
    let empty: bool = *text == none;
    proof {
        if text@.len() == 0 {
            assert(text@ =~= none@);
        }
    }
    empty
}

} // verus!
