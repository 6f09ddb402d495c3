//! The life of a watch: from its reservation to its first index, and what becomes of
//! what a grant held once the grant is taken back.

use crate::manager::cutting::{lemma_others, stands_as};
use crate::manager::initialize::{
    filesystem_with, records_initialize, reserves_initialize, starts_initialize, topology_fence,
    topology_passed, InitializeIds,
};
use crate::manager::keeping::lemma_place_pushed;
use crate::manager::pins::pins_for;
use crate::manager::publish::{publishes_initial, CheckedIndex};
use crate::manager::reading::{law_next_number_is_new, law_row_is_found};
use crate::manager::rows::{
    Filesystem, FsmonitorState, GrantState, Operation, OperationKind, OperationState, PhysicalState,
    Pin, PinOwner, PinReason, RevisionState, Store, TopologyLease, Watch, WatchState,
    WorktreeState,
};
use crate::manager::table::{
    first, fresh, law_removing, lemma_first, lemma_place, lemma_slot, numbered, place, row, slot,
};
use crate::manager::topology::worktree_inside;
use crate::manager::types::{
    InitializeRequest, InitializeReservation, InitializedWatch, ManagerError, Principal,
    RecordedSnapshot, SnapshotIdentity,
};
use crate::paths::law_begins_with_orders_paths;
use vstd::prelude::*;

verus! {

/// Whether the operation of the reserved watch is in the state, and the owner is who
/// works on it.
pub open spec fn opens(
    store: Store,
    reservation: InitializeReservation,
    owner: [u8; 16],
    state: OperationState,
) -> bool {
    &&& row(store.operations@, reservation.operation_id) matches Some(operation)
    &&& operation.state == state
    &&& operation.watch_id == reservation.watch_id
    &&& operation.lease_owner == Some(owner)
    &&& operation.lease_fence == reservation.operation_fence
}

/// A watch is reserved under absolute paths, for a time to come, without the right to
/// make worktrees, and only while nobody else changes which trees of the filesystem
/// are watched. It is new, and its first grant is the one that was asked for.
pub proof fn law_reserved_watch(
    before: Store,
    after: Store,
    request: InitializeRequest,
    ids: InitializeIds,
    reserved: Result<InitializeReservation, ManagerError>,
)
    requires
        reserves_initialize(before, after, request, ids, reserved),
    ensures
        reserved is Err ==> after == before,
        reserved matches Ok(reservation) ==> {
            &&& request.source_path@.len() > 0 && request.source_path@[0] == 0x2f
            &&& request.reserved_snapshot_path@.len() > 0 && request.reserved_snapshot_path@[0]
                == 0x2f
            &&& request.now_ns < request.lease_expires_ns
            &&& request.permissions.mask() & 4 != 4
            &&& numbered(
                before.topology_leases@,
                reservation.filesystem_id,
            ) matches Some(lease) ==> (lease.lease_owner matches Some(other) ==> other
                == request.lease_owner || (lease.lease_expires_ns matches Some(expires) && !(
            request.now_ns < expires)))
            &&& row(before.watches@, ids.watch_id) is None
            &&& row(before.grants@, ids.grant_id) is None
            &&& row(before.operations@, ids.operation_id) is None
            &&& reservation.watch_id == ids.watch_id
            &&& reservation.grant_id == ids.grant_id
            &&& reservation.operation_id == ids.operation_id
            &&& reservation.clock_epoch == ids.clock_epoch
            &&& exists|i: int|
                0 <= i < after.filesystems@.len() && #[trigger] after.filesystems@[i]
                    == (Filesystem { id: reservation.filesystem_id, fs_uuid: request.fs_uuid })
            &&& opens(after, reservation, request.lease_owner, OperationState::Planned)
            &&& row(after.operations@, ids.operation_id) matches Some(operation)
            &&& operation.kind == OperationKind::Initialize
            &&& operation.sequence == Some(0i64)
            &&& operation.filesystem_id == reservation.filesystem_id
            &&& operation.source_subvol_uuid == request.source_subvol_uuid
            &&& operation.expected_parent_uuid == request.source_subvol_uuid
            &&& operation.reserved_path@ == request.reserved_snapshot_path@
            &&& operation.requested_readonly
            &&& operation.requester_uid == request.requester_uid
            &&& operation.requester_gid == request.requester_gid
            &&& operation.authorization_id == ids.grant_id
            &&& operation.base_snapshot_id is None
            &&& operation.lease_expires_ns == Some(request.lease_expires_ns)
            &&& row(after.watches@, ids.watch_id) matches Some(watch)
            &&& watch.state == WatchState::Initializing
            &&& watch.live_path@ == request.source_path@
            &&& watch.live_subvol_uuid == request.source_subvol_uuid
            &&& watch.filesystem_id == reservation.filesystem_id
            &&& watch.clock_epoch == ids.clock_epoch
            &&& watch.indexed_revision_id is None && watch.indexed_seq is None
            &&& watch.last_cut_seq is None && watch.last_cut_snapshot_id is None
            &&& watch.cut_owner is None && watch.view is None && watch.guard is None
            &&& watch.fsmonitor_state == FsmonitorState::Disabled
            &&& row(after.grants@, ids.grant_id) matches Some(grant)
            &&& grant.watch_id == ids.watch_id
            &&& grant.permissions == request.permissions.mask()
            &&& grant.state == GrantState::Active
            &&& grant.created_ns == request.now_ns
            &&& match request.principal {
                Principal::Uid(uid) => grant.principal == Principal::Uid(uid),
                Principal::Service(name) => grant.principal matches Principal::Service(kept)
                    && kept@ == name@,
            }
            &&& forall|i: int|
                0 <= i < before.worktrees@.len() && (#[trigger] before.worktrees@[i]).filesystem_id
                    == reservation.filesystem_id && before.worktrees@[i].path@
                    == request.source_path@ ==> before.worktrees@[i].state == WorktreeState::Deleted
            &&& (exists|i: int|
                0 <= i < before.filesystems@.len() && (#[trigger] before.filesystems@[i]).fs_uuid
                    == request.fs_uuid) ==> after.filesystems@ == before.filesystems@
            &&& topology_passes(
                before,
                after,
                reservation.filesystem_id,
                reservation.topology_fence,
            )
        },
{
    lemma_place(before.watches@, ids.watch_id, 0);
    lemma_place(before.grants@, ids.grant_id, 0);
    lemma_place(before.operations@, ids.operation_id, 0);
    if let Ok(reservation) = reserved {
        lemma_place_pushed(before.watches@, after.watches@.last(), ids.watch_id, 0);
        lemma_place_pushed(before.grants@, after.grants@.last(), ids.grant_id, 0);
        lemma_place_pushed(before.operations@, after.operations@.last(), ids.operation_id, 0);
        let id = reservation.filesystem_id;
        let same = filesystem_with(request.fs_uuid);
        lemma_first(before.filesystems@, same, 0);
        if first(before.filesystems@, same) is None {
            assert(after.filesystems@[before.filesystems@.len() as int].id == id);
        } else {
            assert(after.filesystems@[first(before.filesystems@, same)->0].id == id);
        }
        lemma_topology(before, after, id, reservation.topology_fence);
        if exists|i: int|
            0 <= i < before.filesystems@.len() && (#[trigger] before.filesystems@[i]).fs_uuid
                == request.fs_uuid {
            let i = choose|i: int|
                0 <= i < before.filesystems@.len() && (#[trigger] before.filesystems@[i]).fs_uuid
                    == request.fs_uuid;
            assert(same(before.filesystems@[i]));
        }
        let inside = worktree_inside(id, request.source_path@);
        assert forall|i: int|
            0 <= i < before.worktrees@.len() && (#[trigger] before.worktrees@[i]).filesystem_id
                == id && before.worktrees@[i].path@ == request.source_path@ implies
            before.worktrees@[i].state == WorktreeState::Deleted by {
            assert(!inside(before.worktrees@[i]));
            law_begins_with_orders_paths(
                request.source_path@,
                request.source_path@,
                request.source_path@,
            );
        }
    }
}

/// Whether the topology of the filesystem was held and is free again, under the fence behind
/// the last, while every other topology is as it was.
pub open spec fn topology_passes(
    before: Store,
    after: Store,
    filesystem_id: i64,
    fence: i64,
) -> bool {
    &&& numbered(before.topology_leases@, filesystem_id) matches Some(lease) ==> (
    lease.lease_fence < i64::MAX ==> fence == lease.lease_fence + 1)
    &&& numbered(before.topology_leases@, filesystem_id) is None ==> fence == 1
    &&& exists|i: int|
        0 <= i < after.topology_leases@.len() && #[trigger] after.topology_leases@[i] == (
        TopologyLease {
            filesystem_id,
            lease_owner: None,
            lease_fence: fence,
            lease_expires_ns: None,
        })
    &&& forall|i: int|
        0 <= i < before.topology_leases@.len() && (
        #[trigger] before.topology_leases@[i]).filesystem_id != filesystem_id
            ==> after.topology_leases@[i] == before.topology_leases@[i]
}

pub(crate) proof fn lemma_topology(before: Store, after: Store, filesystem_id: i64, fence: i64)
    requires
        after.topology_leases@ == topology_passed(before.topology_leases@, filesystem_id),
        fence == topology_fence(before.topology_leases@, filesystem_id),
    ensures
        topology_passes(before, after, filesystem_id, fence),
{
    lemma_slot(before.topology_leases@, filesystem_id, 0);
    match slot(before.topology_leases@, filesystem_id) {
        Some(at) => {
            assert(after.topology_leases@[at].lease_fence == fence);
        },
        None => {
            let last = before.topology_leases@.len() as int;
            assert(after.topology_leases@[last].lease_fence == fence);
        },
    }
}

/// Only who works on a reserved watch starts it, and only while it is planned.
pub proof fn law_started_watch(
    before: Store,
    after: Store,
    reservation: InitializeReservation,
    owner: [u8; 16],
    now_ns: i64,
    started: Result<(), ManagerError>,
)
    requires
        starts_initialize(before, after, reservation, owner, now_ns, started),
    ensures
        started is Ok <==> opens(before, reservation, owner, OperationState::Planned),
        started is Err ==> after == before,
        started is Ok ==> {
            &&& opens(after, reservation, owner, OperationState::FsStarted)
            &&& row(after.operations@, reservation.operation_id) == Some(
                Operation {
                    state: OperationState::FsStarted,
                    updated_ns: now_ns,
                    ..row(before.operations@, reservation.operation_id)->0
                },
            )
            &&& after == (Store { operations: after.operations, ..before })
        },
{
    lemma_place(before.operations@, reservation.operation_id, 0);
    if started is Ok {
        let at = place(before.operations@, reservation.operation_id)->0;
        lemma_others(before.operations@, at, after.operations@[at]);
    }
}

/// A snapshot is recorded for a started watch only where it is the one that was asked
/// for: read-only, at the reserved path, of the filesystem and taken of the source.
pub proof fn law_recorded_watch(
    before: Store,
    after: Store,
    reservation: InitializeReservation,
    owner: [u8; 16],
    snapshot: SnapshotIdentity,
    now_ns: i64,
    recorded: Result<RecordedSnapshot, ManagerError>,
)
    requires
        records_initialize(before, after, reservation, owner, snapshot, now_ns, recorded),
    ensures
        recorded is Err ==> after == before,
        recorded is Ok <==> {
            &&& opens(before, reservation, owner, OperationState::FsStarted)
            &&& row(before.operations@, reservation.operation_id) matches Some(operation)
            &&& operation.filesystem_id == reservation.filesystem_id
            &&& snapshot.readonly
            &&& snapshot.path@ == operation.reserved_path@
            &&& snapshot.parent_uuid == Some(operation.source_subvol_uuid)
            &&& numbered(before.filesystems@, reservation.filesystem_id) matches Some(filesystem)
            &&& snapshot.fs_uuid == filesystem.fs_uuid
            &&& fresh(before.snapshots@) is Some
        },
        recorded matches Ok(recorded) ==> {
            &&& opens(after, reservation, owner, OperationState::UuidRecorded)
            &&& row(after.operations@, reservation.operation_id) == Some(
                Operation {
                    state: OperationState::UuidRecorded,
                    discovered_uuid: Some(snapshot.subvol_uuid),
                    updated_ns: now_ns,
                    ..row(before.operations@, reservation.operation_id)->0
                },
            )
            &&& numbered(before.snapshots@, recorded.snapshot_id) is None
            &&& numbered(after.snapshots@, recorded.snapshot_id) matches Some(stored)
            &&& stands_as(stored, snapshot, reservation.filesystem_id)
            &&& recorded.identity.subvol_uuid == snapshot.subvol_uuid
            &&& recorded.identity.path@ == snapshot.path@
            &&& recorded.identity.fs_uuid == snapshot.fs_uuid
            &&& after.pins@ == before.pins@.push(
                Pin {
                    snapshot_id: recorded.snapshot_id,
                    owner: PinOwner::Operation(reservation.operation_id),
                    reason: PinReason::InitializeBuild,
                },
            )
            &&& after.watches == before.watches
            &&& after.grants == before.grants
            &&& after.revisions == before.revisions
        },
{
    lemma_place(before.operations@, reservation.operation_id, 0);
    law_next_number_is_new(before.snapshots@);
    lemma_slot(before.filesystems@, reservation.filesystem_id, 0);
    if let Ok(recorded) = recorded {
        let at = place(before.operations@, reservation.operation_id)->0;
        lemma_others(before.operations@, at, after.operations@[at]);
        law_row_is_found(before.snapshots@, after.snapshots@.last(), recorded.snapshot_id);
    }
}

/// A watch becomes active with its first index, which is that of the recorded
/// snapshot. It counts from zero, and nothing of it can be replayed from before.
pub proof fn law_opened_watch(
    before: Store,
    after: Store,
    reservation: InitializeReservation,
    owner: [u8; 16],
    snapshot_id: i64,
    snapshot_uuid: [u8; 16],
    checked: CheckedIndex,
    now_ns: i64,
    published: Result<InitializedWatch, ManagerError>,
)
    requires
        publishes_initial(
            before,
            after,
            reservation,
            owner,
            snapshot_id,
            snapshot_uuid,
            checked,
            now_ns,
            published,
        ),
    ensures
        published is Err ==> after == before,
        published matches Ok(opened) ==> {
            &&& checked.fault is None
            &&& opens(before, reservation, owner, OperationState::UuidRecorded)
            &&& row(before.operations@, reservation.operation_id)->0.discovered_uuid == Some(
                snapshot_uuid,
            )
            &&& numbered(before.snapshots@, snapshot_id) matches Some(stored)
            &&& stored.subvol_uuid == snapshot_uuid
            &&& stored.readonly
            &&& stored.physical_state == PhysicalState::Present
            &&& row(before.watches@, reservation.watch_id) matches Some(watch)
            &&& watch.state == WatchState::Initializing
            &&& opened.watch_id == reservation.watch_id
            &&& opened.grant_id == reservation.grant_id
            &&& opened.snapshot_id == snapshot_id
            &&& opened.sequence == 0
            &&& opened.fresh_instance
            &&& row(after.watches@, reservation.watch_id) == Some(
                Watch {
                    indexed_revision_id: Some(opened.revision_id),
                    indexed_seq: Some(0),
                    last_cut_snapshot_id: Some(snapshot_id),
                    last_cut_seq: Some(0),
                    replay_floor_seq: Some(0),
                    state: WatchState::Active,
                    ..watch
                },
            )
            &&& numbered(before.revisions@, opened.revision_id) is None
            &&& numbered(after.revisions@, opened.revision_id) matches Some(revision)
            &&& revision.snapshot_id == snapshot_id
            &&& revision.state == RevisionState::Ready
            &&& revision.storage_base_revision_id is None
            &&& revision.provenance_comparison_id is None
            &&& revision.delta_depth == 0
            &&& revision.created_ns == now_ns
            &&& revision.checkpoint matches Some(checkpoint)
            &&& checkpoint.index@ == checked.index@
            &&& row(after.operations@, reservation.operation_id) == Some(
                Operation {
                    state: OperationState::Done,
                    lease_owner: None,
                    lease_expires_ns: None,
                    updated_ns: now_ns,
                    ..row(before.operations@, reservation.operation_id)->0
                },
            )
            &&& after.pins@.contains(
                Pin {
                    snapshot_id,
                    owner: PinOwner::WatchIndexedHead(reservation.watch_id),
                    reason: PinReason::InitializedIndexHead,
                },
            )
            &&& after.pins@.contains(
                Pin {
                    snapshot_id,
                    owner: PinOwner::WatchLastCut(reservation.watch_id),
                    reason: PinReason::InitializedPhysicalHead,
                },
            )
            &&& !after.pins@.contains(
                Pin {
                    snapshot_id,
                    owner: PinOwner::Operation(reservation.operation_id),
                    reason: PinReason::InitializeBuild,
                },
            )
            &&& forall|pin: Pin|
                #[trigger] before.pins@.contains(pin) && pin.owner != PinOwner::Operation(
                    reservation.operation_id,
                ) ==> after.pins@.contains(pin)
        },
{
    if let Ok(opened) = published {
        lemma_place(before.operations@, reservation.operation_id, 0);
        lemma_place(before.watches@, reservation.watch_id, 0);
        let at = place(before.operations@, reservation.operation_id)->0;
        lemma_others(before.operations@, at, after.operations@[at]);
        let watch_at = place(before.watches@, reservation.watch_id)->0;
        lemma_others(before.watches@, watch_at, after.watches@[watch_at]);
        law_next_number_is_new(before.revisions@);
        lemma_slot(before.revisions@, opened.revision_id, 0);
        law_row_is_found(before.revisions@, after.revisions@.last(), opened.revision_id);
        let index_head = Pin {
            snapshot_id,
            owner: PinOwner::WatchIndexedHead(reservation.watch_id),
            reason: PinReason::InitializedIndexHead,
        };
        let cut_head = Pin {
            snapshot_id,
            owner: PinOwner::WatchLastCut(reservation.watch_id),
            reason: PinReason::InitializedPhysicalHead,
        };
        let building = Pin {
            snapshot_id,
            owner: PinOwner::Operation(reservation.operation_id),
            reason: PinReason::InitializeBuild,
        };
        let all = before.pins@.push(index_head).push(cut_head);
        let n = before.pins@.len() as int;
        assert(all[n] == index_head && all[n + 1] == cut_head);
        let gone = pins_for(
            snapshot_id,
            PinOwner::Operation(reservation.operation_id),
            PinReason::InitializeBuild,
        );
        law_removing(all, gone, index_head);
        law_removing(all, gone, cut_head);
        law_removing(all, gone, building);
        assert forall|pin: Pin|
            #[trigger] before.pins@.contains(pin) && pin.owner != PinOwner::Operation(
                reservation.operation_id,
            ) implies after.pins@.contains(pin) by {
            let i = choose|i: int| 0 <= i < before.pins@.len() && before.pins@[i] == pin;
            assert(all[i] == pin);
            law_removing(all, gone, pin);
        }
    }
}

/// A watch goes all the way from its reservation to its first index, where its
/// snapshot is the one that was asked for.
pub proof fn law_watch_goes_all_the_way(
    stores: Seq<Store>,
    request: InitializeRequest,
    ids: InitializeIds,
    reserved: Result<InitializeReservation, ManagerError>,
    started: Result<(), ManagerError>,
    snapshot: SnapshotIdentity,
    recorded: Result<RecordedSnapshot, ManagerError>,
    now_ns: i64,
)
    requires
        stores.len() == 4,
        reserves_initialize(stores[0], stores[1], request, ids, reserved),
        reserved is Ok,
        starts_initialize(
            stores[1],
            stores[2],
            reserved->Ok_0,
            request.lease_owner,
            now_ns,
            started,
        ),
        records_initialize(
            stores[2],
            stores[3],
            reserved->Ok_0,
            request.lease_owner,
            snapshot,
            now_ns,
            recorded,
        ),
        snapshot.readonly,
        numbered(
            stores[1].filesystems@,
            reserved->Ok_0.filesystem_id,
        ) matches Some(filesystem) && filesystem.fs_uuid == snapshot.fs_uuid,
        snapshot.path@ == request.reserved_snapshot_path@,
        snapshot.parent_uuid == Some(request.source_subvol_uuid),
        fresh(stores[0].snapshots@) is Some,
    ensures
        started is Ok,
        recorded is Ok,
        opens(stores[3], reserved->Ok_0, request.lease_owner, OperationState::UuidRecorded),
        row(stores[3].watches@, ids.watch_id) matches Some(watch) && watch.state
            == WatchState::Initializing,
{
    let reservation = reserved->Ok_0;
    law_reserved_watch(stores[0], stores[1], request, ids, reserved);
    law_started_watch(stores[1], stores[2], reservation, request.lease_owner, now_ns, started);
    law_recorded_watch(
        stores[2],
        stores[3],
        reservation,
        request.lease_owner,
        snapshot,
        now_ns,
        recorded,
    );
}

} // verus!
