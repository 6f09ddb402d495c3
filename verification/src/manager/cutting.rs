//! The life of a cut: from its reservation to the cut that its watch is indexed to.

use crate::manager::compact::{lemma_slot_kept, RevisionReport};
use crate::manager::cuts::{
    abandons_admission, admits_cut, earliest_planned, earliest_planned_before,
    last_sequence_before, polls_admission, publishes_cut, ready_cut, records_cut, reserves_cut,
    revision_from, starts_cut,
};
use crate::manager::delta::{publishes_adjacent, publishes_delta, readies_base, AppliedDelta};
use crate::manager::fencing::law_changed_row_is_found;
use crate::manager::fresh::{publishes_fresh, PathLookup};
use crate::manager::keeping::lemma_place_pushed;
use crate::manager::metadata::DeltaDigests;
use crate::manager::pins::{pins_of, pins_on};
use crate::manager::publish::{cut_at, fails_cut, CheckedIndex};
use crate::manager::delta::operation_pins_on;
use crate::manager::reading::{law_next_number_is_new, law_row_is_found};
use crate::manager::rows::{
    AdmissionState, ComparisonKind, ComparisonState, CutState, GrantState, Operation, OperationKind,
    OperationState, PhysicalState, Pin, PinOwner, PinReason, RequestKind, RevisionState, Snapshot,
    Store, Watch, WatchCut, WatchState,
};
use crate::manager::table::{
    first, fresh, law_removing, lemma_first, lemma_place, lemma_slot, numbered, place, removing,
    row, slot,
};
use crate::manager::types::{
    CutAdmission, CutRequest, CutReservation, ManagerError, PublishedCut, RecordedSnapshot,
    SnapshotIdentity,
};
use crate::manifest::ManifestView;
use vstd::prelude::*;

verus! {

/// Whether the operation of the reserved cut is in the state, and the owner is who
/// works on it.
pub open spec fn works_on(
    store: Store,
    reservation: CutReservation,
    owner: [u8; 16],
    state: OperationState,
) -> bool {
    &&& row(store.operations@, reservation.operation_id) matches Some(operation)
    &&& operation.state == state
    &&& operation.watch_id == reservation.watch_id
    &&& operation.sequence == Some(reservation.sequence)
    &&& operation.lease_owner == Some(owner)
    &&& operation.lease_fence == reservation.operation_fence
}

/// Whether the watch is cut by the owner, under the reservation.
pub open spec fn cuts_watch(store: Store, reservation: CutReservation, owner: [u8; 16]) -> bool {
    &&& row(store.watches@, reservation.watch_id) matches Some(watch)
    &&& watch.cut_owner == Some(owner)
    &&& watch.cut_fence == reservation.cut_fence
}

/// Whether a grant lets its holder read and cut the watch.
pub open spec fn may_cut(store: Store, watch_id: [u8; 16], grant_id: [u8; 16]) -> bool {
    &&& row(store.grants@, grant_id) matches Some(grant)
    &&& grant.watch_id == watch_id
    &&& grant.state == GrantState::Active
    &&& grant.permissions & 3 == 3
}

/// Whether the owner may cut the watch now: it has been cut before, and nobody else
/// is cutting it whose time has not run out.
pub open spec fn open_to(watch: Watch, owner: [u8; 16], now_ns: i64) -> bool {
    &&& watch.state == WatchState::Active
    &&& watch.last_cut_snapshot_id is Some
    &&& watch.last_cut_seq is Some
    &&& watch.cut_owner matches Some(other) ==> other == owner || (
    watch.cut_expires_ns matches Some(expires) && !(now_ns < expires))
}

proof fn lemma_last_sequence(operations: Seq<Operation>, watch_id: [u8; 16], n: int)
    requires
        0 <= n <= operations.len(),
    ensures
        match last_sequence_before(operations, watch_id, n) {
            Some(last) => (exists|i: int|
                0 <= i < n && (#[trigger] operations[i]).watch_id == watch_id
                    && operations[i].sequence == Some(last)) && forall|i: int|
                0 <= i < n && (#[trigger] operations[i]).watch_id == watch_id ==> (
                operations[i].sequence matches Some(sequence) ==> sequence <= last),
            None => forall|i: int|
                0 <= i < n && (#[trigger] operations[i]).watch_id == watch_id
                    ==> operations[i].sequence is None,
        },
    decreases n,
{
    if n > 0 {
        lemma_last_sequence(operations, watch_id, n - 1);
        let last = operations[n - 1];
        if let Some(sequence) = last_sequence_before(operations, watch_id, n) {
            if last.watch_id == watch_id && last.sequence == Some(sequence) {
                assert(operations[n - 1].watch_id == watch_id);
            } else {
                let i = choose|i: int|
                    0 <= i < n - 1 && (#[trigger] operations[i]).watch_id == watch_id
                        && operations[i].sequence == Some(sequence);
                assert(operations[i].watch_id == watch_id);
            }
        }
    }
}

/// A cut is reserved only for who may cut the watch while nobody else does, and for
/// a time to come. It gets a number behind every earlier one of the watch, and the
/// one who asked works on it. What it builds on is kept for it.
pub proof fn law_reserved_cut(
    before: Store,
    after: Store,
    request: CutRequest,
    id: [u8; 16],
    reserved: Result<CutReservation, ManagerError>,
)
    requires
        reserves_cut(before, after, request, id, reserved),
    ensures
        reserved is Err ==> after == before,
        reserved matches Ok(reservation) ==> {
            &&& request.reserved_snapshot_path@.len() > 0
            &&& request.now_ns < request.lease_expires_ns
            &&& may_cut(before, request.watch_id, request.authorization_id)
            &&& row(before.operations@, id) is None
            &&& row(before.watches@, request.watch_id) matches Some(watch)
            &&& open_to(watch, request.lease_owner, request.now_ns)
            &&& reservation.operation_id == id
            &&& reservation.watch_id == request.watch_id
            &&& reservation.authorization_id == request.authorization_id
            &&& reservation.filesystem_id == watch.filesystem_id
            &&& reservation.source_subvol_uuid == watch.live_subvol_uuid
            &&& Some(reservation.base_snapshot_id) == watch.last_cut_snapshot_id
            &&& watch.last_cut_seq->0 < reservation.sequence
            &&& forall|i: int|
                0 <= i < before.operations@.len() && (#[trigger] before.operations@[i]).watch_id
                    == request.watch_id ==> (before.operations@[i].sequence matches Some(earlier)
                    ==> earlier < reservation.sequence)
            &&& watch.last_cut_seq->0 + 1 == reservation.sequence || exists|i: int|
                0 <= i < before.operations@.len() && (#[trigger] before.operations@[i]).watch_id
                    == request.watch_id && before.operations@[i].sequence == Some(
                    (reservation.sequence - 1) as i64,
                )
            &&& watch.cut_fence < i64::MAX ==> reservation.cut_fence == watch.cut_fence + 1
            &&& works_on(after, reservation, request.lease_owner, OperationState::Planned)
            &&& cuts_watch(after, reservation, request.lease_owner)
            &&& row(after.watches@, request.watch_id)->0 == (Watch {
                cut_owner: Some(request.lease_owner),
                cut_fence: reservation.cut_fence,
                cut_expires_ns: Some(request.lease_expires_ns),
                ..watch
            })
            &&& row(after.operations@, id) matches Some(operation)
            &&& operation.kind == OperationKind::Cut
            &&& operation.filesystem_id == watch.filesystem_id
            &&& operation.source_subvol_uuid == watch.live_subvol_uuid
            &&& operation.expected_parent_uuid == watch.live_subvol_uuid
            &&& operation.base_snapshot_id == watch.last_cut_snapshot_id
            &&& operation.reserved_path@ == request.reserved_snapshot_path@
            &&& operation.requested_readonly
            &&& operation.requester_uid == request.requester_uid
            &&& operation.requester_gid == request.requester_gid
            &&& operation.authorization_id == request.authorization_id
            &&& operation.lease_expires_ns == Some(request.lease_expires_ns)
            &&& operation.updated_ns == request.now_ns
            &&& operation.discovered_uuid is None
            &&& operation.destination is None
            &&& operation.guard is None
            &&& operation.error is None
            &&& after.pins@.contains(
                Pin {
                    snapshot_id: reservation.base_snapshot_id,
                    owner: PinOwner::Operation(id),
                    reason: PinReason::CutBase,
                },
            )
        },
        request.reserved_snapshot_path@.len() > 0 && request.now_ns < request.lease_expires_ns
            && may_cut(before, request.watch_id, request.authorization_id) && row(
            before.operations@,
            id,
        ) is None && (row(before.watches@, request.watch_id) matches Some(watch) && open_to(
            watch,
            request.lease_owner,
            request.now_ns,
        ) && watch.last_cut_seq->0 < i64::MAX && forall|i: int|
            0 <= i < before.operations@.len() && (#[trigger] before.operations@[i]).watch_id
                == request.watch_id ==> before.operations@[i].sequence == watch.last_cut_seq
                || before.operations@[i].sequence is None) ==> (reserved matches Ok(reservation)
            && reservation.sequence == row(before.watches@, request.watch_id)->0.last_cut_seq->0
            + 1),
{
    let n = before.operations@.len() as int;
    lemma_last_sequence(before.operations@, request.watch_id, n);
    lemma_place(before.watches@, request.watch_id, 0);
    lemma_place(before.operations@, id, 0);
    if let Ok(reservation) = reserved {
        let at = place(before.watches@, request.watch_id)->0;
        law_changed_row_is_found(before.watches@, at, after.watches@[at], request.watch_id);
        lemma_place_pushed(before.operations@, after.operations@.last(), id, 0);
        let added = Pin {
            snapshot_id: reservation.base_snapshot_id,
            owner: PinOwner::Operation(id),
            reason: PinReason::CutBase,
        };
        assert(after.pins@[before.pins@.len() as int] == added);
    }
}

/// Only who works on a cut starts it, and only while it is planned.
pub proof fn law_started_cut(
    before: Store,
    after: Store,
    reservation: CutReservation,
    owner: [u8; 16],
    now_ns: i64,
    started: Result<(), ManagerError>,
)
    requires
        starts_cut(before, after, reservation, owner, now_ns, started),
    ensures
        started is Ok <==> works_on(before, reservation, owner, OperationState::Planned),
        started is Err ==> after == before,
        started is Ok ==> {
            &&& works_on(after, reservation, owner, OperationState::FsStarted)
            &&& row(after.operations@, reservation.operation_id) == Some(
                Operation {
                    state: OperationState::FsStarted,
                    updated_ns: now_ns,
                    ..row(before.operations@, reservation.operation_id)->0
                },
            )
            &&& after == (Store { operations: after.operations, ..before })
            &&& forall|id: [u8; 16]|
                id != reservation.operation_id ==> #[trigger] row(after.operations@, id) == row(
                    before.operations@,
                    id,
                )
        },
{
    lemma_place(before.operations@, reservation.operation_id, 0);
    if started is Ok {
        let at = place(before.operations@, reservation.operation_id)->0;
        lemma_others(before.operations@, at, after.operations@[at]);
    }
}

/// Changing one row leaves what is found under every other identifier.
pub(crate) proof fn lemma_others<T: crate::manager::table::Identified>(
    rows: Seq<T>,
    at: int,
    changed: T,
)
    requires
        0 <= at < rows.len(),
        changed.ident() == rows[at].ident(),
    ensures
        forall|id: [u8; 16]|
            id != changed.ident() ==> #[trigger] row(rows.update(at, changed), id) == row(rows, id),
        place(rows, changed.ident()) == Some(at) ==> row(rows.update(at, changed), changed.ident())
            == Some(changed),
{
    assert forall|id: [u8; 16]| id != changed.ident() implies #[trigger] row(
        rows.update(at, changed),
        id,
    ) == row(rows, id) by {
        law_changed_row_is_found(rows, at, changed, id);
        lemma_place(rows, id, 0);
    }
    law_changed_row_is_found(rows, at, changed, changed.ident());
}

/// A snapshot is recorded for a started cut only where it is the one that was asked
/// for: read-only, at the reserved path, of the filesystem and taken of the watched
/// subvolume. It is stored as it was found, and kept for the cut.
pub proof fn law_recorded_cut(
    before: Store,
    after: Store,
    reservation: CutReservation,
    owner: [u8; 16],
    snapshot: SnapshotIdentity,
    now_ns: i64,
    recorded: Result<RecordedSnapshot, ManagerError>,
)
    requires
        records_cut(before, after, reservation, owner, snapshot, now_ns, recorded),
    ensures
        recorded is Err ==> after == before,
        recorded is Ok <==> {
            &&& works_on(before, reservation, owner, OperationState::FsStarted)
            &&& snapshot.readonly
            &&& snapshot.path@ == row(
                before.operations@,
                reservation.operation_id,
            )->0.reserved_path@
            &&& snapshot.parent_uuid == Some(reservation.source_subvol_uuid)
            &&& numbered(before.filesystems@, reservation.filesystem_id) matches Some(filesystem)
            &&& snapshot.fs_uuid == filesystem.fs_uuid
            &&& fresh(before.snapshots@) is Some
        },
        recorded matches Ok(recorded) ==> {
            &&& works_on(after, reservation, owner, OperationState::UuidRecorded)
            &&& row(after.operations@, reservation.operation_id) == Some(
                Operation {
                    state: OperationState::UuidRecorded,
                    discovered_uuid: Some(snapshot.subvol_uuid),
                    updated_ns: now_ns,
                    ..row(before.operations@, reservation.operation_id)->0
                },
            )
            &&& numbered(before.snapshots@, recorded.snapshot_id) is None
            &&& numbered(after.snapshots@, recorded.snapshot_id) matches Some(stored)
            &&& stands_as(stored, snapshot, reservation.filesystem_id)
            &&& recorded.identity.subvol_uuid == snapshot.subvol_uuid
            &&& recorded.identity.path@ == snapshot.path@
            &&& recorded.identity.fs_uuid == snapshot.fs_uuid
            &&& recorded.identity.root_id == snapshot.root_id
            &&& recorded.identity.parent_uuid == snapshot.parent_uuid
            &&& after.pins@ == before.pins@.push(
                Pin {
                    snapshot_id: recorded.snapshot_id,
                    owner: PinOwner::Operation(reservation.operation_id),
                    reason: PinReason::CutTarget,
                },
            )
            &&& after.watches == before.watches
            &&& after.cuts == before.cuts
            &&& after.grants == before.grants
        },
{
    lemma_place(before.operations@, reservation.operation_id, 0);
    law_next_number_is_new(before.snapshots@);
    lemma_slot(before.filesystems@, reservation.filesystem_id, 0);
    if let Ok(recorded) = recorded {
        let at = place(before.operations@, reservation.operation_id)->0;
        lemma_others(before.operations@, at, after.operations@[at]);
        law_row_is_found(before.snapshots@, after.snapshots@.last(), recorded.snapshot_id);
    }
}

/// Whether the stored snapshot is there as it was found.
pub open spec fn stands_as(stored: Snapshot, found: SnapshotIdentity, filesystem_id: i64) -> bool {
    &&& stored.filesystem_id == filesystem_id
    &&& stored.subvol_uuid == found.subvol_uuid
    &&& stored.parent_uuid == found.parent_uuid
    &&& stored.received_uuid == found.received_uuid
    &&& stored.root_id == found.root_id
    &&& stored.ctransid == found.ctransid
    &&& stored.otransid == found.otransid
    &&& stored.path@ == found.path@
    &&& stored.created_ns == found.created_ns
    &&& stored.deleted_ns is None
    &&& stored.readonly
    &&& stored.physical_state == PhysicalState::Present
}

/// Whether there is a cut of the watch at the sequence.
pub open spec fn has_cut(store: Store, watch_id: [u8; 16], sequence: i64) -> bool {
    exists|i: int|
        0 <= i < store.cuts@.len() && (#[trigger] store.cuts@[i]).watch_id == watch_id
            && store.cuts@[i].sequence == sequence
}

/// A cut whose snapshot was recorded is made, where it is the one behind the last,
/// by who works on it and cuts the watch. The watch was last cut at it from that time
/// on, and is free to be cut again.
pub proof fn law_made_cut(
    before: Store,
    after: Store,
    reservation: CutReservation,
    owner: [u8; 16],
    snapshot: RecordedSnapshot,
    now_ns: i64,
    published: Result<(), ManagerError>,
)
    requires
        publishes_cut(before, after, reservation, owner, snapshot, now_ns, published),
    ensures
        published is Err ==> after == before,
        published is Ok <==> {
            let uuid = snapshot.identity.subvol_uuid;
            &&& works_on(before, reservation, owner, OperationState::UuidRecorded)
            &&& cuts_watch(before, reservation, owner)
            &&& row(before.operations@, reservation.operation_id)->0.discovered_uuid == Some(uuid)
            &&& numbered(before.snapshots@, snapshot.snapshot_id) matches Some(stored)
            &&& stored.subvol_uuid == uuid
            &&& stored.readonly
            &&& stored.physical_state == PhysicalState::Present
            &&& stored.filesystem_id == row(
                before.operations@,
                reservation.operation_id,
            )->0.filesystem_id
            &&& !has_cut(before, reservation.watch_id, reservation.sequence)
            &&& row(before.watches@, reservation.watch_id)->0.state == WatchState::Active
            &&& row(before.watches@, reservation.watch_id)->0.last_cut_snapshot_id == Some(
                reservation.base_snapshot_id,
            )
            &&& row(before.watches@, reservation.watch_id)->0.last_cut_seq matches Some(last)
            &&& last == reservation.sequence - 1
        },
        published is Ok ==> {
            let made = after.cuts@.last();
            &&& works_on(after, reservation, owner, OperationState::ManifestReady)
            &&& row(after.watches@, reservation.watch_id) == Some(
                Watch {
                    last_cut_snapshot_id: Some(snapshot.snapshot_id),
                    last_cut_seq: Some(reservation.sequence),
                    cut_owner: None,
                    cut_expires_ns: None,
                    ..row(before.watches@, reservation.watch_id)->0
                },
            )
            &&& after.cuts@.len() == before.cuts@.len() + 1
            &&& made.watch_id == reservation.watch_id
            &&& made.sequence == reservation.sequence
            &&& made.operation_id == reservation.operation_id
            &&& made.base_snapshot_id == reservation.base_snapshot_id
            &&& made.target_snapshot_id == snapshot.snapshot_id
            &&& made.comparison_id is None
            &&& made.state == CutState::Created
            &&& !made.fresh_instance
            &&& after.snapshots == before.snapshots
            &&& after.revisions == before.revisions
            &&& forall|pin: Pin|
                #[trigger] after.pins@.contains(pin) <==> (before.pins@.contains(pin) || pin == Pin {
                    snapshot_id: snapshot.snapshot_id,
                    owner: PinOwner::WatchLastCut(reservation.watch_id),
                    reason: PinReason::PhysicalHead,
                }) && !(pin.snapshot_id == reservation.base_snapshot_id && pin.owner
                    == PinOwner::WatchLastCut(reservation.watch_id))
        },
{
    lemma_place(before.operations@, reservation.operation_id, 0);
    lemma_place(before.watches@, reservation.watch_id, 0);
    lemma_slot(before.snapshots@, snapshot.snapshot_id, 0);
    let picks = cut_at(reservation.watch_id, reservation.sequence);
    if has_cut(before, reservation.watch_id, reservation.sequence) {
        let i = choose|i: int|
            0 <= i < before.cuts@.len() && (#[trigger] before.cuts@[i]).watch_id
                == reservation.watch_id && before.cuts@[i].sequence == reservation.sequence;
        assert(picks(before.cuts@[i]));
    }
    if published is Ok {
        let at = place(before.operations@, reservation.operation_id)->0;
        lemma_others(before.operations@, at, after.operations@[at]);
        let watch_at = place(before.watches@, reservation.watch_id)->0;
        lemma_others(before.watches@, watch_at, after.watches@[watch_at]);
        let added = Pin {
            snapshot_id: snapshot.snapshot_id,
            owner: PinOwner::WatchLastCut(reservation.watch_id),
            reason: PinReason::PhysicalHead,
        };
        let gone = pins_on(
            reservation.base_snapshot_id,
            PinOwner::WatchLastCut(reservation.watch_id),
        );
        lemma_pins(before.pins@, added, gone);
    }
}

/// Adding a pin and taking those away that are to go.
proof fn lemma_pins(pins: Seq<Pin>, added: Pin, gone: spec_fn(Pin) -> bool)
    ensures
        forall|pin: Pin|
            #[trigger] removing(pins.push(added), gone).contains(pin) <==> (pins.contains(pin) || pin == added)
                && !gone(pin),
{
    let all = pins.push(added);
    assert forall|pin: Pin|
        #[trigger] removing(all, gone).contains(pin) <==> (pins.contains(pin) || pin == added) && !gone(
            pin,
        ) by {
        law_removing(all, gone, pin);
        if pins.contains(pin) {
            let i = choose|i: int| 0 <= i < pins.len() && pins[i] == pin;
            assert(all[i] == pin);
        }
        assert(all[pins.len() as int] == added);
        if all.contains(pin) {
            let i = choose|i: int| 0 <= i < all.len() && all[i] == pin;
            if i < pins.len() {
                assert(pins[i] == pin);
            }
        }
    }
}

/// A cut goes all the way from its reservation to being made, where its snapshot is
/// the one that was asked for and the watch was not cut meanwhile.
pub proof fn law_cut_goes_all_the_way(
    stores: Seq<Store>,
    request: CutRequest,
    id: [u8; 16],
    reserved: Result<CutReservation, ManagerError>,
    started: Result<(), ManagerError>,
    snapshot: SnapshotIdentity,
    recorded: Result<RecordedSnapshot, ManagerError>,
    published: Result<(), ManagerError>,
    now_ns: i64,
)
    requires
        stores.len() == 5,
        reserves_cut(stores[0], stores[1], request, id, reserved),
        reserved is Ok,
        starts_cut(stores[1], stores[2], reserved->Ok_0, request.lease_owner, now_ns, started),
        records_cut(
            stores[2],
            stores[3],
            reserved->Ok_0,
            request.lease_owner,
            snapshot,
            now_ns,
            recorded,
        ),
        recorded is Ok ==> publishes_cut(
            stores[3],
            stores[4],
            reserved->Ok_0,
            request.lease_owner,
            recorded->Ok_0,
            now_ns,
            published,
        ),
        row(stores[0].watches@, request.watch_id)->0.last_cut_seq == Some(
            (reserved->Ok_0.sequence - 1) as i64,
        ),
        !has_cut(stores[0], request.watch_id, reserved->Ok_0.sequence),
        snapshot.readonly,
        snapshot.path@ == request.reserved_snapshot_path@,
        snapshot.parent_uuid == Some(
            row(stores[0].watches@, request.watch_id)->0.live_subvol_uuid,
        ),
        numbered(
            stores[0].filesystems@,
            row(stores[0].watches@, request.watch_id)->0.filesystem_id,
        ) matches Some(filesystem) && filesystem.fs_uuid == snapshot.fs_uuid,
        fresh(stores[0].snapshots@) is Some,
    ensures
        started is Ok,
        recorded is Ok,
        published is Ok,
        row(stores[4].watches@, request.watch_id) matches Some(watch) && watch.last_cut_seq == Some(
            reserved->Ok_0.sequence,
        ) && watch.last_cut_snapshot_id == Some(recorded->Ok_0.snapshot_id),
        numbered(stores[4].snapshots@, recorded->Ok_0.snapshot_id) matches Some(stored)
            && stored.subvol_uuid == snapshot.subvol_uuid && stored.path@ == snapshot.path@,
{
    let reservation = reserved->Ok_0;
    let owner = request.lease_owner;
    law_reserved_cut(stores[0], stores[1], request, id, reserved);
    law_started_cut(stores[1], stores[2], reservation, owner, now_ns, started);
    law_recorded_cut(stores[2], stores[3], reservation, owner, snapshot, now_ns, recorded);
    law_made_cut(
        stores[3],
        stores[4],
        reservation,
        owner,
        recorded->Ok_0,
        now_ns,
        published,
    );
    assert(stores[3].cuts@ == stores[0].cuts@);
}

/// Whether the watch is indexed to the cut: the head, the cut, the operation, the
/// comparison and the revision all say so, and the snapshot is kept for it.
pub open spec fn indexed_to(
    before: Store,
    after: Store,
    reservation: CutReservation,
    snapshot_id: i64,
    published: PublishedCut,
    now_ns: i64,
) -> bool {
    let head = row(before.watches@, reservation.watch_id)->0;
    let base = numbered(before.revisions@, head.indexed_revision_id->0)->0;
    &&& published.watch_id == reservation.watch_id
    &&& published.sequence == reservation.sequence
    &&& published.snapshot_id == snapshot_id
    &&& row(after.watches@, reservation.watch_id) == Some(
        Watch {
            indexed_revision_id: Some(published.revision_id),
            indexed_seq: Some(reservation.sequence),
            ..head
        },
    )
    &&& row(after.operations@, reservation.operation_id) == Some(
        Operation {
            state: OperationState::Done,
            lease_owner: None,
            lease_expires_ns: None,
            updated_ns: now_ns,
            ..row(before.operations@, reservation.operation_id)->0
        },
    )
    &&& numbered(before.revisions@, published.revision_id) is None
    &&& numbered(after.revisions@, published.revision_id) matches Some(revision)
    &&& revision.snapshot_id == snapshot_id
    &&& revision.state == RevisionState::Ready
    &&& revision.provenance_comparison_id == Some(published.comparison_id)
    &&& revision.created_ns == now_ns
    &&& numbered(before.comparisons@, published.comparison_id) is None
    &&& numbered(after.comparisons@, published.comparison_id) matches Some(comparison)
    &&& comparison.from_snapshot_id == base.snapshot_id
    &&& comparison.to_snapshot_id == snapshot_id
    &&& comparison.state == ComparisonState::IndexReady
    &&& exists|i: int|
        0 <= i < after.cuts@.len() && #[trigger] cut_indexed(
            before.cuts@[i],
            after.cuts@[i],
            reservation,
            snapshot_id,
            base.snapshot_id,
            published.comparison_id,
        ) && forall|j: int|
            0 <= j < after.cuts@.len() && j != i ==> #[trigger] after.cuts@[j] == before.cuts@[j]
    &&& after.cuts@.len() == before.cuts@.len()
    &&& forall|pin: Pin|
        pin.owner == PinOwner::WatchIndexedHead(reservation.watch_id) && base.snapshot_id
            != snapshot_id ==> (#[trigger] after.pins@.contains(pin) ==> pin.snapshot_id == snapshot_id || (
        before.pins@.contains(pin) && pin.snapshot_id != base.snapshot_id))
    &&& forall|pin: Pin|
        #[trigger] after.pins@.contains(pin) && pin.owner == PinOwner::Operation(reservation.operation_id)
            ==> pin.snapshot_id != base.snapshot_id && pin.snapshot_id != snapshot_id
    &&& forall|pin: Pin|
        pin.owner != PinOwner::WatchIndexedHead(reservation.watch_id) && pin.owner
            != PinOwner::Operation(reservation.operation_id) ==> (#[trigger] after.pins@.contains(pin)
            <==> before.pins@.contains(pin))
    &&& after.admissions@.len() == before.admissions@.len()
    &&& forall|i: int|
        0 <= i < after.admissions@.len() ==> (#[trigger] after.admissions@[i]).state == (if
        before.admissions@[i].operation_id == reservation.operation_id
            && before.admissions@[i].watch_id == reservation.watch_id
            && before.admissions@[i].state == AdmissionState::Waiting {
            AdmissionState::Fulfilled
        } else {
            before.admissions@[i].state
        })
}

/// Whether the cut of the reservation was indexed.
pub open spec fn cut_indexed(
    old_row: WatchCut,
    new_row: WatchCut,
    reservation: CutReservation,
    snapshot_id: i64,
    base_snapshot_id: i64,
    comparison_id: i64,
) -> bool {
    &&& old_row.watch_id == reservation.watch_id
    &&& old_row.sequence == reservation.sequence
    &&& old_row.target_snapshot_id == snapshot_id
    &&& old_row.state == CutState::Created
    &&& new_row.state == CutState::Ready
    &&& new_row.comparison_id == Some(comparison_id)
    &&& new_row.comparison_from_snapshot_id == Some(base_snapshot_id)
    &&& new_row == (WatchCut {
        state: new_row.state,
        comparison_id: new_row.comparison_id,
        comparison_from_snapshot_id: new_row.comparison_from_snapshot_id,
        fresh_instance: new_row.fresh_instance,
        ..old_row
    })
}

/// A cut of which everything is new becomes what its watch is indexed to. It has to
/// be made, to lie behind what the watch is indexed to, and to be published by who
/// works on it.
pub proof fn law_fresh_cut_is_indexed_to(
    before: Store,
    after: Store,
    reservation: CutReservation,
    owner: [u8; 16],
    snapshot_id: i64,
    snapshot_uuid: [u8; 16],
    checked: CheckedIndex,
    paths: Map<u64, PathLookup>,
    now_ns: i64,
    published: Result<PublishedCut, ManagerError>,
)
    requires
        publishes_fresh(
            before,
            after,
            reservation,
            owner,
            snapshot_id,
            snapshot_uuid,
            checked,
            paths,
            now_ns,
            published,
        ),
    ensures
        published is Err ==> after == before,
        published matches Ok(cut) ==> {
            &&& checked.fault is None
            &&& works_on(before, reservation, owner, OperationState::ManifestReady)
            &&& row(before.watches@, reservation.watch_id) matches Some(watch)
            &&& watch.state == WatchState::Active
            &&& watch.indexed_seq matches Some(indexed)
            &&& indexed < reservation.sequence
            &&& numbered(before.snapshots@, snapshot_id) matches Some(stored)
            &&& stored.subvol_uuid == snapshot_uuid
            &&& stored.readonly
            &&& stored.physical_state == PhysicalState::Present
            &&& indexed_to(before, after, reservation, snapshot_id, cut, now_ns)
            &&& after.pins@.contains(
                Pin {
                    snapshot_id,
                    owner: PinOwner::WatchIndexedHead(reservation.watch_id),
                    reason: PinReason::GapRecoveryHead,
                },
            ) || numbered(before.revisions@, watch.indexed_revision_id->0)->0.snapshot_id
                == snapshot_id
            &&& numbered(after.comparisons@, cut.comparison_id)->0.kind == ComparisonKind::FullFresh
        },
{
    if let Ok(cut) = published {
        let head = row(before.watches@, reservation.watch_id)->0;
        let base = numbered(before.revisions@, head.indexed_revision_id->0)->0;
        lemma_place(before.operations@, reservation.operation_id, 0);
        lemma_place(before.watches@, reservation.watch_id, 0);
        lemma_indexed(before, after, reservation, cut);
        let added = Pin {
            snapshot_id,
            owner: PinOwner::WatchIndexedHead(reservation.watch_id),
            reason: PinReason::GapRecoveryHead,
        };
        let gone = pins_on(base.snapshot_id, PinOwner::WatchIndexedHead(reservation.watch_id));
        lemma_pins_twice(
            before.pins@,
            added,
            gone,
            pins_of(PinOwner::Operation(reservation.operation_id)),
        );
        let at = first(before.cuts@, cut_at(reservation.watch_id, reservation.sequence))->0;
        assert(cut_indexed(
            before.cuts@[at],
            after.cuts@[at],
            reservation,
            snapshot_id,
            base.snapshot_id,
            cut.comparison_id,
        ));
    }
}

proof fn lemma_pins_twice(
    pins: Seq<Pin>,
    added: Pin,
    gone: spec_fn(Pin) -> bool,
    too: spec_fn(Pin) -> bool,
)
    ensures
        forall|pin: Pin|
            #[trigger] removing(removing(pins.push(added), gone), too).contains(pin) <==> (pins.contains(pin)
                || pin == added) && !gone(pin) && !too(pin),
{
    lemma_pins(pins, added, gone);
    let all = removing(pins.push(added), gone);
    assert forall|pin: Pin|
        #[trigger] removing(all, too).contains(pin) <==> (pins.contains(pin) || pin == added) && !gone(pin)
            && !too(pin) by {
        law_removing(all, too, pin);
    }
}

/// What is found in the tables of a store to which a cut was added.
proof fn lemma_indexed(
    before: Store,
    after: Store,
    reservation: CutReservation,
    cut: PublishedCut,
)
    requires
        place(before.watches@, reservation.watch_id) is Some,
        place(before.operations@, reservation.operation_id) is Some,
        first(before.cuts@, cut_at(reservation.watch_id, reservation.sequence)) is Some,
        fresh(before.comparisons@) == Some(cut.comparison_id),
        fresh(before.revisions@) == Some(cut.revision_id),
        after.comparisons@ == before.comparisons@.push(after.comparisons@.last()),
        after.comparisons@.last().id == cut.comparison_id,
        after.revisions@ == before.revisions@.push(after.revisions@.last()),
        after.revisions@.last().id == cut.revision_id,
        ({
            let at = place(before.watches@, reservation.watch_id)->0;
            &&& after.watches@ == before.watches@.update(at, after.watches@[at])
            &&& after.watches@[at].id == before.watches@[at].id
        }),
        ({
            let at = place(before.operations@, reservation.operation_id)->0;
            &&& after.operations@ == before.operations@.update(at, after.operations@[at])
            &&& after.operations@[at].id == before.operations@[at].id
        }),
    ensures
        ({
            let at = place(before.watches@, reservation.watch_id)->0;
            &&& 0 <= at < before.watches@.len()
            &&& row(after.watches@, reservation.watch_id) == Some(after.watches@[at])
        }),
        ({
            let at = place(before.operations@, reservation.operation_id)->0;
            &&& 0 <= at < before.operations@.len()
            &&& row(after.operations@, reservation.operation_id) == Some(after.operations@[at])
        }),
        ({
            let at = first(before.cuts@, cut_at(reservation.watch_id, reservation.sequence))->0;
            &&& 0 <= at < before.cuts@.len()
            &&& before.cuts@[at].watch_id == reservation.watch_id
            &&& before.cuts@[at].sequence == reservation.sequence
        }),
        numbered(before.revisions@, cut.revision_id) is None,
        numbered(after.revisions@, cut.revision_id) == Some(after.revisions@.last()),
        numbered(before.comparisons@, cut.comparison_id) is None,
        numbered(after.comparisons@, cut.comparison_id) == Some(after.comparisons@.last()),
{
    lemma_place(before.operations@, reservation.operation_id, 0);
    lemma_place(before.watches@, reservation.watch_id, 0);
    let at = place(before.operations@, reservation.operation_id)->0;
    lemma_others(before.operations@, at, after.operations@[at]);
    let watch_at = place(before.watches@, reservation.watch_id)->0;
    lemma_others(before.watches@, watch_at, after.watches@[watch_at]);
    lemma_first(before.cuts@, cut_at(reservation.watch_id, reservation.sequence), 0);
    law_next_number_is_new(before.revisions@);
    law_next_number_is_new(before.comparisons@);
    lemma_slot(before.revisions@, cut.revision_id, 0);
    lemma_slot(before.comparisons@, cut.comparison_id, 0);
    law_row_is_found(before.revisions@, after.revisions@.last(), cut.revision_id);
    law_row_is_found(before.comparisons@, after.comparisons@.last(), cut.comparison_id);
}

/// A cut that was compared with what its watch is indexed to becomes what the watch
/// is indexed to. It has to be made, to follow what the watch is indexed to, and to
/// be published by who works on it.
pub proof fn law_compared_cut_is_indexed_to(
    before: Store,
    after: Store,
    base_revision_id: i64,
    reservation: CutReservation,
    owner: [u8; 16],
    snapshot_id: i64,
    manifest: ManifestView,
    applied: AppliedDelta,
    digests: DeltaDigests,
    now_ns: i64,
    published: Result<PublishedCut, ManagerError>,
)
    requires
        publishes_delta(
            before,
            after,
            base_revision_id,
            reservation,
            owner,
            snapshot_id,
            manifest,
            applied,
            digests,
            now_ns,
            published,
        ),
    ensures
        published is Err ==> after == before,
        published matches Ok(cut) ==> {
            &&& works_on(before, reservation, owner, OperationState::ManifestReady)
            &&& row(before.watches@, reservation.watch_id) matches Some(watch)
            &&& watch.state == WatchState::Active
            &&& watch.indexed_revision_id == Some(base_revision_id)
            &&& watch.indexed_seq == Some((reservation.sequence - 1) as i64)
            &&& numbered(before.snapshots@, snapshot_id) matches Some(stored)
            &&& stored.physical_state == PhysicalState::Present
            &&& indexed_to(before, after, reservation, snapshot_id, cut, now_ns)
            &&& after.pins@.contains(
                Pin {
                    snapshot_id,
                    owner: PinOwner::WatchIndexedHead(reservation.watch_id),
                    reason: PinReason::IndexedHead,
                },
            ) || numbered(before.revisions@, base_revision_id)->0.snapshot_id == snapshot_id
            &&& numbered(after.comparisons@, cut.comparison_id)->0.kind
                == ComparisonKind::Incremental
            &&& numbered(after.revisions@, cut.revision_id)->0.storage_base_revision_id == Some(
                base_revision_id,
            )
        },
{
    if let Ok(cut) = published {
        let base = numbered(before.revisions@, base_revision_id)->0;
        lemma_place(before.operations@, reservation.operation_id, 0);
        lemma_place(before.watches@, reservation.watch_id, 0);
        lemma_indexed(before, after, reservation, cut);
        let added = Pin {
            snapshot_id,
            owner: PinOwner::WatchIndexedHead(reservation.watch_id),
            reason: PinReason::IndexedHead,
        };
        let gone = pins_on(base.snapshot_id, PinOwner::WatchIndexedHead(reservation.watch_id));
        lemma_pins_twice(
            before.pins@,
            added,
            gone,
            operation_pins_on(reservation.operation_id, base.snapshot_id, snapshot_id),
        );
        let at = first(before.cuts@, cut_at(reservation.watch_id, reservation.sequence))->0;
        assert(cut_indexed(
            before.cuts@[at],
            after.cuts@[at],
            reservation,
            snapshot_id,
            base.snapshot_id,
            cut.comparison_id,
        ));
    }
}

/// Publishing a cut on its base moves the head of the watch by one cut, from the
/// snapshot that the cut was reserved on to its own.
pub proof fn law_adjacent_cut_is_indexed_to(
    before: Store,
    after: Store,
    reservation: CutReservation,
    owner: [u8; 16],
    snapshot: RecordedSnapshot,
    manifest: ManifestView,
    applied: AppliedDelta,
    base_report: RevisionReport,
    digests: DeltaDigests,
    now_ns: i64,
    published: Result<PublishedCut, ManagerError>,
)
    requires
        publishes_adjacent(
            before,
            after,
            reservation,
            owner,
            snapshot,
            manifest,
            applied,
            base_report,
            digests,
            now_ns,
            published,
        ),
    ensures
        published is Err ==> after == (Store { revisions: after.revisions, ..before }),
        published matches Ok(cut) ==> {
            &&& works_on(before, reservation, owner, OperationState::ManifestReady)
            &&& row(before.watches@, reservation.watch_id) matches Some(watch)
            &&& watch.state == WatchState::Active
            &&& watch.indexed_seq == Some((reservation.sequence - 1) as i64)
            &&& watch.indexed_revision_id matches Some(base_id)
            &&& numbered(before.revisions@, base_id) matches Some(base)
            &&& base.snapshot_id == reservation.base_snapshot_id
            &&& base.state == RevisionState::Ready
            &&& cut.watch_id == reservation.watch_id
            &&& cut.sequence == reservation.sequence
            &&& cut.snapshot_id == snapshot.snapshot_id
            &&& row(after.watches@, reservation.watch_id) == Some(
                Watch {
                    indexed_revision_id: Some(cut.revision_id),
                    indexed_seq: Some(reservation.sequence),
                    ..watch
                },
            )
            &&& numbered(after.revisions@, cut.revision_id) matches Some(revision)
            &&& revision.snapshot_id == snapshot.snapshot_id
            &&& revision.storage_base_revision_id == Some(base_id)
            &&& row(after.operations@, reservation.operation_id)->0.state == OperationState::Done
            &&& numbered(after.comparisons@, cut.comparison_id)->0.from_snapshot_id
                == reservation.base_snapshot_id
            &&& numbered(after.comparisons@, cut.comparison_id)->0.to_snapshot_id
                == snapshot.snapshot_id
        },
{
    let (middle, readied) = choose|middle: Store, readied: Result<i64, Seq<char>>| #[trigger]
        readies_base(before, middle, reservation, owner, base_report, readied) && match readied {
            Err(fault) => after == middle && (published matches Err(error) && error@ == fault),
            Ok(base_revision_id) => publishes_delta(
                middle,
                after,
                base_revision_id,
                reservation,
                owner,
                snapshot.snapshot_id,
                manifest,
                applied,
                digests,
                now_ns,
                published,
            ),
        };
    if let Ok(base_id) = readied {
        law_compared_cut_is_indexed_to(
            middle,
            after,
            base_id,
            reservation,
            owner,
            snapshot.snapshot_id,
            manifest,
            applied,
            digests,
            now_ns,
            published,
        );
        if middle != before {
            lemma_slot(before.revisions@, base_id, 0);
            let at = slot(before.revisions@, base_id)->0;
            lemma_slot_kept(before.revisions@, middle.revisions@, at, base_id, 0);
        }
    }
}

/// A made cut is given up by who works on it, and only with a reason. Nothing is
/// kept for it any more, and nobody waits for it any more.
pub proof fn law_failed_cut(
    before: Store,
    after: Store,
    reservation: CutReservation,
    owner: [u8; 16],
    text: Seq<char>,
    now_ns: i64,
    failed: Result<(), ManagerError>,
)
    requires
        fails_cut(before, after, reservation, owner, text, now_ns, failed),
    ensures
        failed is Err ==> after == before,
        failed is Ok ==> {
            &&& text.len() > 0
            &&& works_on(before, reservation, owner, OperationState::ManifestReady)
            &&& row(after.operations@, reservation.operation_id) matches Some(operation)
            &&& operation.state == OperationState::Failed
            &&& operation.lease_owner is None
            &&& operation.error matches Some(kept)
            &&& kept@ == text
            &&& after.watches == before.watches
            &&& after.cuts@.len() == before.cuts@.len()
            &&& exists|i: int|
                0 <= i < after.cuts@.len() && before.cuts@[i].watch_id == reservation.watch_id
                    && before.cuts@[i].sequence == reservation.sequence
                    && before.cuts@[i].operation_id == reservation.operation_id
                    && before.cuts@[i].state == CutState::Created && #[trigger] after.cuts@[i] == (
                WatchCut { state: CutState::Failed, ..before.cuts@[i] }) && forall|j: int|
                    0 <= j < after.cuts@.len() && j != i ==> #[trigger] after.cuts@[j]
                        == before.cuts@[j]
            &&& forall|pin: Pin|
                #[trigger] after.pins@.contains(pin) <==> before.pins@.contains(pin) && pin.owner
                    != PinOwner::Operation(reservation.operation_id)
            &&& after.admissions@.len() == before.admissions@.len()
            &&& forall|i: int|
                0 <= i < after.admissions@.len() ==> (#[trigger] after.admissions@[i]).state == (if
                before.admissions@[i].operation_id == reservation.operation_id
                    && before.admissions@[i].watch_id == reservation.watch_id
                    && before.admissions@[i].state == AdmissionState::Waiting {
                    AdmissionState::Abandoned
                } else {
                    before.admissions@[i].state
                })
        },
{
    if failed is Ok {
        lemma_place(before.operations@, reservation.operation_id, 0);
        let at = place(before.operations@, reservation.operation_id)->0;
        lemma_others(before.operations@, at, after.operations@[at]);
        lemma_first(before.cuts@, cut_at(reservation.watch_id, reservation.sequence), 0);
        let cut = first(before.cuts@, cut_at(reservation.watch_id, reservation.sequence))->0;
        assert(after.cuts@[cut] == (WatchCut { state: CutState::Failed, ..before.cuts@[cut] }));
        let gone = pins_of(PinOwner::Operation(reservation.operation_id));
        assert forall|pin: Pin|
            #[trigger] after.pins@.contains(pin) <==> before.pins@.contains(pin) && pin.owner
                != PinOwner::Operation(reservation.operation_id) by {
            law_removing(before.pins@, gone, pin);
        }
    }
}

/// Who may cut a watch may wait for the earliest cut of it that did not start, and
/// waits for none where there is none.
pub proof fn law_joined_cut(
    before: Store,
    after: Store,
    watch_id: [u8; 16],
    grant_id: [u8; 16],
    session_id: [u8; 16],
    request_kind: Seq<char>,
    now_ns: i64,
    expires_ns: i64,
    id: [u8; 16],
    joined: Result<Option<CutAdmission>, ManagerError>,
)
    requires
        admits_cut(
            before,
            after,
            watch_id,
            grant_id,
            session_id,
            request_kind,
            now_ns,
            expires_ns,
            id,
            joined,
        ),
    ensures
        joined is Err ==> after == before,
        joined is Ok ==> {
            &&& may_cut(before, watch_id, grant_id)
            &&& now_ns < expires_ns
            &&& request_kind == "clock"@ || request_kind == "query"@ || request_kind == "trigger"@
        },
        joined matches Ok(None) ==> after == before && (row(before.watches@, watch_id) is Some
            ==> forall|i: int|
            0 <= i < before.operations@.len() ==> !planned_for(
                #[trigger] before.operations@[i],
                watch_id,
            )),
        joined matches Ok(Some(given)) ==> {
            let added = after.admissions@.last();
            &&& exists|i: int|
                0 <= i < before.operations@.len() && #[trigger] planned_for(
                    before.operations@[i],
                    watch_id,
                ) && reserved_by(before.operations@[i], given.reservation) && forall|j: int|
                    0 <= j < before.operations@.len() && #[trigger] planned_for(
                        before.operations@[j],
                        watch_id,
                    ) ==> given.reservation.sequence <= before.operations@[j].sequence->0
            &&& given.reservation.watch_id == watch_id
            &&& given.reservation.cut_fence == row(before.watches@, watch_id)->0.cut_fence
            &&& given.id == id
            &&& given.requester_session_id == session_id
            &&& row(before.admissions@, id) is None
            &&& after == (Store { admissions: after.admissions, ..before })
            &&& after.admissions@ == before.admissions@.push(added)
            &&& added.id == id
            &&& added.operation_id == given.reservation.operation_id
            &&& added.watch_id == watch_id
            &&& added.authorization_id == grant_id
            &&& added.requester_session_id == session_id
            &&& added.state == AdmissionState::Waiting
            &&& added.admitted_ns == now_ns
            &&& added.expires_ns == expires_ns
            &&& request_kind == "clock"@ ==> added.request_kind == RequestKind::Clock
            &&& request_kind == "query"@ ==> added.request_kind == RequestKind::Query
            &&& request_kind == "trigger"@ ==> added.request_kind == RequestKind::Trigger
        },
{
    reveal_strlit("clock");
    reveal_strlit("query");
    reveal_strlit("trigger");
    assert("clock"@[0] == 'c');
    assert("query"@[0] == 'q');
    assert("trigger"@[0] == 't');
    lemma_earliest(before.operations@, watch_id, before.operations@.len() as int);
    if let Ok(Some(given)) = joined {
        let at = earliest_planned(before.operations@, watch_id)->0;
        assert(planned_for(before.operations@[at], watch_id));
        assert(after.admissions@[before.admissions@.len() as int] == after.admissions@.last());
    }
}

/// Whether the operation is a cut of the watch that did not start.
pub open spec fn planned_for(operation: Operation, watch_id: [u8; 16]) -> bool {
    &&& operation.watch_id == watch_id
    &&& operation.kind == OperationKind::Cut
    &&& operation.state == OperationState::Planned
    &&& operation.sequence is Some
    &&& operation.base_snapshot_id is Some
}

/// Whether the operation is what the reservation stands for.
pub open spec fn reserved_by(operation: Operation, reservation: CutReservation) -> bool {
    &&& operation.id == reservation.operation_id
    &&& operation.sequence == Some(reservation.sequence)
    &&& operation.filesystem_id == reservation.filesystem_id
    &&& operation.authorization_id == reservation.authorization_id
    &&& operation.base_snapshot_id == Some(reservation.base_snapshot_id)
    &&& operation.source_subvol_uuid == reservation.source_subvol_uuid
    &&& operation.lease_fence == reservation.operation_fence
}

proof fn lemma_earliest(operations: Seq<Operation>, watch_id: [u8; 16], n: int)
    requires
        0 <= n <= operations.len(),
    ensures
        match earliest_planned_before(operations, watch_id, n) {
            Some(at) => 0 <= at < n && planned_for(operations[at], watch_id) && forall|j: int|
                0 <= j < n && #[trigger] planned_for(operations[j], watch_id)
                    ==> operations[at].sequence->0 <= operations[j].sequence->0,
            None => forall|j: int|
                0 <= j < n ==> !planned_for(#[trigger] operations[j], watch_id),
        },
    decreases n,
{
    if n > 0 {
        lemma_earliest(operations, watch_id, n - 1);
        assert forall|j: int| 0 <= j < n && #[trigger] planned_for(
            operations[j],
            watch_id,
        ) implies earliest_planned_before(operations, watch_id, n) is Some && operations[
            earliest_planned_before(operations, watch_id, n)->0
        ].sequence->0 <= operations[j].sequence->0 by {
            if j < n - 1 {
                assert(planned_for(operations[j], watch_id));
            }
        }
    }
}

/// Whether the caller waits for the cut: the row is theirs, for the operation and the
/// watch, and is not settled.
pub open spec fn still_waits(store: Store, admission: CutAdmission) -> bool {
    &&& row(store.admissions@, admission.id) matches Some(waiting)
    &&& waiting.state == AdmissionState::Waiting
    &&& waiting.operation_id == admission.reservation.operation_id
    &&& waiting.watch_id == admission.reservation.watch_id
    &&& waiting.requester_session_id == admission.requester_session_id
}

/// Only a caller who waits can give up, and nobody else is touched. Who joined a cut
/// waits for it, and who gave up does not.
pub proof fn law_given_up_cut(
    before: Store,
    after: Store,
    admission: CutAdmission,
    given_up: Result<(), ManagerError>,
)
    requires
        abandons_admission(before, after, admission, given_up),
    ensures
        given_up is Ok <==> still_waits(before, admission),
        given_up is Err ==> after == before,
        given_up is Ok ==> {
            &&& !still_waits(after, admission)
            &&& row(after.admissions@, admission.id)->0.state == AdmissionState::Abandoned
            &&& forall|id: [u8; 16]|
                id != admission.id ==> #[trigger] row(after.admissions@, id) == row(
                    before.admissions@,
                    id,
                )
            &&& after == (Store { admissions: after.admissions, ..before })
        },
{
    lemma_place(before.admissions@, admission.id, 0);
    if given_up is Ok {
        let at = place(before.admissions@, admission.id)->0;
        lemma_others(before.admissions@, at, after.admissions@[at]);
    }
}

/// A caller who asks about a cut is told to wait while they wait and have time, is
/// refused once they gave up or their time has run out, and is given a cut only where the
/// one that they waited for is ready.
pub proof fn law_asked_about_cut(
    store: Store,
    admission: CutAdmission,
    now_ns: i64,
    polled: Result<Option<PublishedCut>, ManagerError>,
)
    requires
        polls_admission(store, admission, now_ns, polled),
    ensures
        still_waits(store, admission) && now_ns < row(
            store.admissions@,
            admission.id,
        )->0.expires_ns <==> polled matches Ok(None),
        row(store.admissions@, admission.id) matches Some(waiting) ==> (waiting.state
            == AdmissionState::Abandoned || waiting.expires_ns <= now_ns
            || waiting.requester_session_id != admission.requester_session_id
            || waiting.operation_id != admission.reservation.operation_id || waiting.watch_id
            != admission.reservation.watch_id ==> polled is Err),
        row(store.admissions@, admission.id) is None ==> polled is Err,
        polled matches Ok(Some(cut)) ==> exists|i: int, j: int|
            #![trigger store.cuts@[i], store.revisions@[j]]
            0 <= i < store.cuts@.len() && 0 <= j < store.revisions@.len()
                && store.cuts@[i].operation_id == admission.reservation.operation_id
                && store.cuts@[i].state == CutState::Ready && store.cuts@[i].watch_id
                == cut.watch_id && store.cuts@[i].sequence == cut.sequence
                && store.cuts@[i].target_snapshot_id == cut.snapshot_id
                && store.cuts@[i].comparison_id == Some(cut.comparison_id)
                && store.revisions@[j].id == cut.revision_id && store.revisions@[j].snapshot_id
                == cut.snapshot_id && store.revisions@[j].state == RevisionState::Ready
                && store.revisions@[j].provenance_comparison_id == Some(cut.comparison_id),
{
    if let Ok(Some(cut)) = polled {
        let ready = ready_cut(admission.reservation.operation_id, store.revisions@);
        lemma_first(store.cuts@, ready, 0);
        let i = first(store.cuts@, ready)->0;
        let made = revision_from(cut.snapshot_id, cut.comparison_id);
        lemma_first(store.revisions@, made, 0);
        let k = choose|k: int|
            0 <= k < store.revisions@.len() && made(#[trigger] store.revisions@[k]);
        assert(made(store.revisions@[k]));
        let j = first(store.revisions@, made)->0;
        assert(store.revisions@[j].id == cut.revision_id);
        assert(store.cuts@[i].sequence == cut.sequence);
    }
}

} // verus!
