//! Starting to watch a subvolume.

use crate::digest::{drawn, random_id};
use crate::manager::cuts::{filesystem_uuid, load_filesystem_uuid, present_snapshot, snapshot_row};
use crate::manager::cuts::is_claimable;
use crate::manager::rows::{
    full_text, held, is_held, none_changed, number_row, Filesystem, FsmonitorState, Grant,
    GrantState, Operation, OperationKind, OperationState, Pin, PinOwner, PinReason, Store,
    TopologyLease, Watch, WatchState,
};
use crate::manager::table::{
    find, find_first, find_number, first, fresh, numbered, place, row, slot, some,
};
use crate::manager::topology::{contains_worktree, topology_free, worktree_inside};
use crate::manager::types::{
    fence_after, holds, next_fence, path_is_absolute, row_count_text, same_identity,
    same_principal, InitializeRequest, InitializeReservation, ManagerError, RecordedSnapshot,
    SnapshotIdentity, PERMISSION_WORKTREE,
};
use crate::paths::rooted;
use crate::text::{copy_bytes, same_array, same_bytes};
use vstd::prelude::*;

verus! {

/// The identifiers of what an initialization makes.
#[derive(Clone, Copy, Debug, Eq, PartialEq)]
pub struct InitializeIds {
    pub watch_id: [u8; 16],
    pub grant_id: [u8; 16],
    pub operation_id: [u8; 16],
    pub clock_epoch: [u8; 16],
}

impl InitializeIds {
    /// Whether each of them has the version and the variant of a random
    /// identifier.
    pub open spec fn drawn(self) -> bool {
        &&& drawn(self.watch_id)
        &&& drawn(self.grant_id)
        &&& drawn(self.operation_id)
        &&& drawn(self.clock_epoch)
    }
}

/// The filesystem with the identifier.
pub open spec fn filesystem_with(fs_uuid: [u8; 16]) -> spec_fn(Filesystem) -> bool {
    |filesystem: Filesystem| filesystem.fs_uuid == fs_uuid
}

/// The number of a filesystem: its own, or that which it is to get.
pub open spec fn filesystem_number(filesystems: Seq<Filesystem>, fs_uuid: [u8; 16]) -> Option<i64> {
    match first(filesystems, filesystem_with(fs_uuid)) {
        Some(at) => Some(filesystems[at].id),
        None => fresh(filesystems),
    }
}

/// Whether the topology of a filesystem can be claimed, or was never claimed.
pub open spec fn topology_open(
    leases: Seq<TopologyLease>,
    filesystem_id: i64,
    lease_owner: [u8; 16],
    now_ns: i64,
) -> bool {
    numbered(leases, filesystem_id) is None || topology_free(
        leases,
        filesystem_id,
        lease_owner,
        now_ns,
    )
}

/// The fence behind the topology lease of a filesystem.
pub open spec fn topology_fence(leases: Seq<TopologyLease>, filesystem_id: i64) -> i64 {
    match numbered(leases, filesystem_id) {
        Some(lease) => fence_after(lease.lease_fence),
        None => 1,
    }
}

/// The leases once that of the filesystem was claimed and released again.
pub open spec fn topology_passed(leases: Seq<TopologyLease>, filesystem_id: i64) -> Seq<
    TopologyLease,
> {
    let passed = TopologyLease {
        filesystem_id,
        lease_owner: None,
        lease_fence: topology_fence(leases, filesystem_id),
        lease_expires_ns: None,
    };
    match slot(leases, filesystem_id) {
        Some(at) => leases.update(at, passed),
        None => leases.push(passed),
    }
}

/// Claims the topology lease of a filesystem and releases it again.
pub fn pass_topology(leases: &mut Vec<TopologyLease>, filesystem_id: i64) -> (fence: i64)
    ensures
        fence == topology_fence(old(leases)@, filesystem_id),
        final(leases)@ == topology_passed(old(leases)@, filesystem_id),
{
    match find_number(leases, filesystem_id) {
        Some(at) => {
            let fence: i64 = next_fence(leases[at].lease_fence);
            leases[at].lease_owner = None;
            leases[at].lease_fence = fence;
            leases[at].lease_expires_ns = None;
            fence
        },
        None => {
            leases.push(
                TopologyLease {
                    filesystem_id,
                    lease_owner: None,
                    lease_fence: 1,
                    lease_expires_ns: None,
                },
            );
            1
        },
    }
}

/// Whether the topology of a filesystem can be claimed, or was never claimed.
pub fn is_topology_open(
    leases: &Vec<TopologyLease>,
    filesystem_id: i64,
    lease_owner: &[u8; 16],
    now_ns: i64,
) -> (open: bool)
    ensures
        open == topology_open(leases@, filesystem_id, *lease_owner, now_ns),
{
    match find_number(leases, filesystem_id) {
        Some(at) => is_claimable(
            &leases[at].lease_owner,
            leases[at].lease_expires_ns,
            lease_owner,
            now_ns,
        ),
        None => true,
    }
}

/// Why an initialization cannot be reserved.
pub open spec fn reserve_initialize_fault(
    store: Store,
    request: InitializeRequest,
    ids: InitializeIds,
) -> Option<Seq<char>> {
    let number = filesystem_number(store.filesystems@, request.fs_uuid);
    if !rooted(request.source_path@) || !rooted(request.reserved_snapshot_path@) {
        Some("initialize paths must be absolute"@)
    } else if request.lease_expires_ns <= request.now_ns {
        Some("initialize lease must expire after admission"@)
    } else if request.permissions.mask() & PERMISSION_WORKTREE == PERMISSION_WORKTREE {
        Some("a WORKTREE grant requires an immutable destination policy"@)
    } else if number is None {
        Some(full_text())
    } else if !topology_open(
        store.topology_leases@,
        number->0,
        request.lease_owner,
        request.now_ns,
    ) {
        Some("filesystem topology lease is busy"@)
    } else if some(store.worktrees@, worktree_inside(number->0, request.source_path@)) {
        Some("initialize source contains a non-deleted Worktree reservation"@)
    } else if row(store.watches@, ids.watch_id) is Some {
        Some("UNIQUE constraint failed: watches.id"@)
    } else if row(store.grants@, ids.grant_id) is Some {
        Some("UNIQUE constraint failed: watch_grants.id"@)
    } else if row(store.operations@, ids.operation_id) is Some {
        Some("UNIQUE constraint failed: operations.id"@)
    } else {
        None
    }
}

/// Whether the row is the new watch of a requested initialization.
pub open spec fn new_watch(
    watch: Watch,
    request: InitializeRequest,
    ids: InitializeIds,
    filesystem_id: i64,
) -> bool {
    &&& watch.live_path@ == request.source_path@
    &&& watch == Watch {
        id: ids.watch_id,
        filesystem_id,
        live_subvol_uuid: request.source_subvol_uuid,
        live_path: watch.live_path,
        indexed_revision_id: None,
        indexed_seq: None,
        last_cut_snapshot_id: None,
        last_cut_seq: None,
        cut_owner: None,
        cut_fence: 0,
        cut_expires_ns: None,
        clock_epoch: ids.clock_epoch,
        replay_floor_seq: None,
        view: None,
        guard: None,
        fsmonitor_state: FsmonitorState::Disabled,
        state: WatchState::Initializing,
    }
}

/// Whether the row is the active grant of a requested initialization.
pub open spec fn new_grant(grant: Grant, request: InitializeRequest, ids: InitializeIds) -> bool {
    &&& same_principal(grant.principal, request.principal)
    &&& grant == Grant {
        id: ids.grant_id,
        watch_id: ids.watch_id,
        principal: grant.principal,
        permissions: request.permissions.mask(),
        state: GrantState::Active,
        created_ns: request.now_ns,
        revoked_ns: None,
    }
}

/// Whether the row is the planned operation of a requested initialization.
pub open spec fn planned_initialize(
    operation: Operation,
    request: InitializeRequest,
    ids: InitializeIds,
    filesystem_id: i64,
) -> bool {
    &&& operation.reserved_path@ == request.reserved_snapshot_path@
    &&& operation == Operation {
        id: ids.operation_id,
        kind: OperationKind::Initialize,
        state: OperationState::Planned,
        filesystem_id,
        watch_id: ids.watch_id,
        sequence: Some(0),
        source_subvol_uuid: request.source_subvol_uuid,
        base_snapshot_id: None,
        expected_parent_uuid: request.source_subvol_uuid,
        requested_readonly: true,
        requester_uid: request.requester_uid,
        requester_gid: request.requester_gid,
        authorization_id: ids.grant_id,
        reserved_path: operation.reserved_path,
        destination: None,
        discovered_uuid: None,
        guard: None,
        error: None,
        lease_owner: Some(request.lease_owner),
        lease_fence: 1,
        lease_expires_ns: Some(request.lease_expires_ns),
        updated_ns: request.now_ns,
    }
}

/// What reserving an initialization under the identifiers does.
pub open spec fn reserves_initialize(
    before: Store,
    after: Store,
    request: InitializeRequest,
    ids: InitializeIds,
    reserved: Result<InitializeReservation, ManagerError>,
) -> bool {
    match reserve_initialize_fault(before, request, ids) {
        Some(fault) => {
            &&& after == before
            &&& reserved matches Err(error)
            &&& error@ == fault
        },
        None => {
            let filesystem_id = filesystem_number(before.filesystems@, request.fs_uuid)->0;
            &&& after == (Store {
                filesystems: after.filesystems,
                topology_leases: after.topology_leases,
                watches: after.watches,
                grants: after.grants,
                operations: after.operations,
                ..before
            })
            &&& after.filesystems@ == if first(
                before.filesystems@,
                filesystem_with(request.fs_uuid),
            ) is Some {
                before.filesystems@
            } else {
                before.filesystems@.push(
                    Filesystem { id: filesystem_id, fs_uuid: request.fs_uuid },
                )
            }
            &&& after.topology_leases@ == topology_passed(before.topology_leases@, filesystem_id)
            &&& after.watches@ == before.watches@.push(after.watches@.last())
            &&& new_watch(after.watches@.last(), request, ids, filesystem_id)
            &&& after.grants@ == before.grants@.push(after.grants@.last())
            &&& new_grant(after.grants@.last(), request, ids)
            &&& after.operations@ == before.operations@.push(after.operations@.last())
            &&& planned_initialize(after.operations@.last(), request, ids, filesystem_id)
            &&& reserved == Ok::<InitializeReservation, ManagerError>(
                InitializeReservation {
                    filesystem_id,
                    watch_id: ids.watch_id,
                    grant_id: ids.grant_id,
                    operation_id: ids.operation_id,
                    clock_epoch: ids.clock_epoch,
                    operation_fence: 1,
                    topology_fence: topology_fence(before.topology_leases@, filesystem_id),
                },
            )
        },
    }
}

/// The operation of a reserved initialization, in the state, while it is held.
pub open spec fn initialize_operation(
    operations: Seq<Operation>,
    reservation: InitializeReservation,
    lease_owner: [u8; 16],
    state: OperationState,
) -> bool {
    match row(operations, reservation.operation_id) {
        Some(operation) => operation.watch_id == reservation.watch_id && operation.state == state
            && held(operation, lease_owner, reservation.operation_fence),
        None => false,
    }
}

fn find_initialize_operation(
    operations: &Vec<Operation>,
    reservation: &InitializeReservation,
    lease_owner: &[u8; 16],
    state: OperationState,
) -> (at: Option<usize>)
    ensures
        match at {
            Some(at) => initialize_operation(operations@, *reservation, *lease_owner, state) && at
                < operations@.len() && place(operations@, reservation.operation_id) == Some(
                at as int,
            ) && row(operations@, reservation.operation_id) == Some(operations@[at as int]),
            None => !initialize_operation(operations@, *reservation, *lease_owner, state),
        },
{
    match find(operations, &reservation.operation_id) {
        Some(at) => if same_array(&operations[at].watch_id, &reservation.watch_id)
            && operations[at].state == state && is_held(
            &operations[at],
            lease_owner,
            reservation.operation_fence,
        ) {
            Some(at)
        } else {
            None
        },
        None => None,
    }
}

/// Why the snapshot of an initialization cannot be recorded.
pub open spec fn record_initialize_fault(
    store: Store,
    reservation: InitializeReservation,
    lease_owner: [u8; 16],
    snapshot: SnapshotIdentity,
) -> Option<Seq<char>> {
    let mismatch = Some("created snapshot identity does not match initialize intent"@);
    if !snapshot.readonly {
        Some("initialize snapshot is not read-only"@)
    } else if !initialize_operation(
        store.operations@,
        reservation,
        lease_owner,
        OperationState::FsStarted,
    ) {
        Some("initialize operation fence is stale"@)
    } else {
        let operation = row(store.operations@, reservation.operation_id)->0;
        if operation.filesystem_id != reservation.filesystem_id {
            mismatch
        } else {
            match filesystem_uuid(store.filesystems@, operation.filesystem_id) {
                Err(fault) => Some(fault),
                Ok(fs_uuid) => if snapshot.fs_uuid != fs_uuid || snapshot.parent_uuid != Some(
                    operation.source_subvol_uuid,
                ) || snapshot.path@ != operation.reserved_path@ {
                    mismatch
                } else if fresh(store.snapshots@) is None {
                    Some(full_text())
                } else {
                    None
                },
            }
        }
    }
}

/// What [`Store::start_initialize_filesystem_effect`] does.
pub open spec fn starts_initialize(
    before: Store,
    after: Store,
    reservation: InitializeReservation,
    lease_owner: [u8; 16],
    now_ns: i64,
    started: Result<(), ManagerError>,
) -> bool {
    if initialize_operation(
        before.operations@,
        reservation,
        lease_owner,
        OperationState::Planned,
    ) {
        let at = place(before.operations@, reservation.operation_id)->0;
        &&& started is Ok
        &&& after == (Store { operations: after.operations, ..before })
        &&& after.operations@ =~= before.operations@.update(
            at,
            Operation {
                state: OperationState::FsStarted,
                updated_ns: now_ns,
                ..before.operations@[at]
            },
        )
    } else {
        &&& after == before
        &&& started matches Err(error)
        &&& error@ == row_count_text("start initialize filesystem effect"@, 0)
    }
}

/// What [`Store::record_initialize_snapshot`] does.
pub open spec fn records_initialize(
    before: Store,
    after: Store,
    reservation: InitializeReservation,
    lease_owner: [u8; 16],
    snapshot: SnapshotIdentity,
    now_ns: i64,
    recorded: Result<RecordedSnapshot, ManagerError>,
) -> bool {
    match record_initialize_fault(before, reservation, lease_owner, snapshot) {
        Some(fault) => {
            &&& after == before
            &&& recorded matches Err(error)
            &&& error@ == fault
        },
        None => {
            let at = place(before.operations@, reservation.operation_id)->0;
            let id = fresh(before.snapshots@)->0;
            &&& after == (Store {
                snapshots: after.snapshots,
                pins: after.pins,
                operations: after.operations,
                ..before
            })
            &&& after.snapshots@ =~= before.snapshots@.push(
                after.snapshots@.last(),
            )
            &&& present_snapshot(
                after.snapshots@.last(),
                id,
                reservation.filesystem_id,
                snapshot,
            )
            &&& after.pins@ =~= before.pins@.push(
                Pin {
                    snapshot_id: id,
                    owner: PinOwner::Operation(reservation.operation_id),
                    reason: PinReason::InitializeBuild,
                },
            )
            &&& after.operations@ =~= before.operations@.update(
                at,
                Operation {
                    state: OperationState::UuidRecorded,
                    discovered_uuid: Some(snapshot.subvol_uuid),
                    updated_ns: now_ns,
                    ..before.operations@[at]
                },
            )
            &&& recorded matches Ok(recorded)
            &&& recorded.snapshot_id == id
            &&& same_identity(recorded.identity, snapshot)
        },
    }
}

impl Store {
    /// Reserves an initialization under the identifiers.
    pub fn reserve_initialize_as(
        &mut self,
        request: &InitializeRequest,
        ids: &InitializeIds,
    ) -> (reserved: Result<InitializeReservation, ManagerError>)
        ensures
            reserves_initialize(*old(self), *final(self), *request, *ids, reserved),
            old(self).well_formed() ==> final(self).well_formed(),
    {
        if !path_is_absolute(&request.source_path) || !path_is_absolute(
            &request.reserved_snapshot_path,
        ) {
            return Err(ManagerError::new("initialize paths must be absolute"));
        }
        if request.lease_expires_ns <= request.now_ns {
            return Err(ManagerError::new("initialize lease must expire after admission"));
        }
        if request.permissions.contains(PERMISSION_WORKTREE) {
            return Err(
                ManagerError::new("a WORKTREE grant requires an immutable destination policy"),
            );
        }
        let fs_uuid: [u8; 16] = request.fs_uuid;
        let test = |filesystem: &Filesystem| -> (picked: bool)
            ensures
                picked == filesystem_with(fs_uuid)(*filesystem),
            { same_array(&filesystem.fs_uuid, &fs_uuid) };
        let known: Option<usize> = find_first(
            &self.filesystems,
            test,
            Ghost(filesystem_with(fs_uuid)),
        );
        let filesystem_id: i64 = match known {
            Some(at) => self.filesystems[at].id,
            None => match number_row(&self.filesystems) {
                Ok(id) => id,
                Err(error) => {
                    return Err(error);
                },
            },
        };
        if !is_topology_open(
            &self.topology_leases,
            filesystem_id,
            &request.lease_owner,
            request.now_ns,
        ) {
            return Err(ManagerError::new("filesystem topology lease is busy"));
        }
        if contains_worktree(&self.worktrees, filesystem_id, &request.source_path) {
            return Err(
                ManagerError::new("initialize source contains a non-deleted Worktree reservation"),
            );
        }
        if find(&self.watches, &ids.watch_id).is_some() {
            return Err(ManagerError::new("UNIQUE constraint failed: watches.id"));
        }
        if find(&self.grants, &ids.grant_id).is_some() {
            return Err(ManagerError::new("UNIQUE constraint failed: watch_grants.id"));
        }
        if find(&self.operations, &ids.operation_id).is_some() {
            return Err(ManagerError::new("UNIQUE constraint failed: operations.id"));
        }
        if known.is_none() {
            self.filesystems.push(Filesystem { id: filesystem_id, fs_uuid });
        }
        let fence: i64 = pass_topology(&mut self.topology_leases, filesystem_id);
        self.watches.push(
            Watch {
                id: ids.watch_id,
                filesystem_id,
                live_subvol_uuid: request.source_subvol_uuid,
                live_path: copy_bytes(&request.source_path),
                indexed_revision_id: None,
                indexed_seq: None,
                last_cut_snapshot_id: None,
                last_cut_seq: None,
                cut_owner: None,
                cut_fence: 0,
                cut_expires_ns: None,
                clock_epoch: ids.clock_epoch,
                replay_floor_seq: None,
                view: None,
                guard: None,
                fsmonitor_state: FsmonitorState::Disabled,
                state: WatchState::Initializing,
            },
        );
        self.grants.push(
            Grant {
                id: ids.grant_id,
                watch_id: ids.watch_id,
                principal: request.principal.copy(),
                permissions: request.permissions.bits(),
                state: GrantState::Active,
                created_ns: request.now_ns,
                revoked_ns: None,
            },
        );
        self.operations.push(
            Operation {
                id: ids.operation_id,
                kind: OperationKind::Initialize,
                state: OperationState::Planned,
                filesystem_id,
                watch_id: ids.watch_id,
                sequence: Some(0),
                source_subvol_uuid: request.source_subvol_uuid,
                base_snapshot_id: None,
                expected_parent_uuid: request.source_subvol_uuid,
                requested_readonly: true,
                requester_uid: request.requester_uid,
                requester_gid: request.requester_gid,
                authorization_id: ids.grant_id,
                reserved_path: copy_bytes(&request.reserved_snapshot_path),
                destination: None,
                discovered_uuid: None,
                guard: None,
                error: None,
                lease_owner: Some(request.lease_owner),
                lease_fence: 1,
                lease_expires_ns: Some(request.lease_expires_ns),
                updated_ns: request.now_ns,
            },
        );
        proof {
            assert(self.watches@ =~= old(self).watches@.push(self.watches@.last()));
            assert(self.grants@ =~= old(self).grants@.push(self.grants@.last()));
            assert(self.operations@ =~= old(self).operations@.push(self.operations@.last()));
        }
        Ok(
            InitializeReservation {
                filesystem_id,
                watch_id: ids.watch_id,
                grant_id: ids.grant_id,
                operation_id: ids.operation_id,
                clock_epoch: ids.clock_epoch,
                operation_fence: 1,
                topology_fence: fence,
            },
        )
    }

    /// Reserves an initialization.
    pub fn reserve_initialize(&mut self, request: &InitializeRequest) -> (reserved: Result<
        InitializeReservation,
        ManagerError,
    >)
        ensures
            exists|ids: InitializeIds|
                ids.drawn() && #[trigger] reserves_initialize(
                    *old(self),
                    *final(self),
                    *request,
                    ids,
                    reserved,
                ),
            old(self).well_formed() ==> final(self).well_formed(),
    {
        let ids = InitializeIds {
            watch_id: random_id(),
            grant_id: random_id(),
            operation_id: random_id(),
            clock_epoch: random_id(),
        };
        self.reserve_initialize_as(request, &ids)
    }

    /// Crosses the boundary behind which the filesystem may have been changed.
    pub fn start_initialize_filesystem_effect(
        &mut self,
        reservation: &InitializeReservation,
        lease_owner: [u8; 16],
        now_ns: i64,
    ) -> (started: Result<(), ManagerError>)
        ensures
            starts_initialize(*old(self), *final(self), *reservation, lease_owner, now_ns, started),
            old(self).well_formed() ==> final(self).well_formed(),
    {
        match find_initialize_operation(
            &self.operations,
            reservation,
            &lease_owner,
            OperationState::Planned,
        ) {
            Some(at) => {
                self.operations[at].state = OperationState::FsStarted;
                self.operations[at].updated_ns = now_ns;
                Ok(())
            },
            None => Err(none_changed("start initialize filesystem effect")),
        }
    }

    /// Records the snapshot that an initialization took.
    pub fn record_initialize_snapshot(
        &mut self,
        reservation: &InitializeReservation,
        lease_owner: [u8; 16],
        snapshot: &SnapshotIdentity,
        now_ns: i64,
    ) -> (recorded: Result<RecordedSnapshot, ManagerError>)
        ensures
            records_initialize(
                *old(self),
                *final(self),
                *reservation,
                lease_owner,
                *snapshot,
                now_ns,
                recorded,
            ),
            old(self).well_formed() ==> final(self).well_formed(),
    {
        if !snapshot.readonly {
            return Err(ManagerError::new("initialize snapshot is not read-only"));
        }
        let at: usize = match find_initialize_operation(
            &self.operations,
            reservation,
            &lease_owner,
            OperationState::FsStarted,
        ) {
            Some(at) => at,
            None => {
                return Err(ManagerError::new("initialize operation fence is stale"));
            },
        };
        if self.operations[at].filesystem_id != reservation.filesystem_id {
            return Err(
                ManagerError::new("created snapshot identity does not match initialize intent"),
            );
        }
        let fs_uuid = match load_filesystem_uuid(
            &self.filesystems,
            self.operations[at].filesystem_id,
        ) {
            Ok(fs_uuid) => fs_uuid,
            Err(error) => {
                return Err(error);
            },
        };
        if !same_array(&snapshot.fs_uuid, &fs_uuid) || !holds(
            &snapshot.parent_uuid,
            &self.operations[at].source_subvol_uuid,
        ) || !same_bytes(&snapshot.path, &self.operations[at].reserved_path) {
            return Err(
                ManagerError::new("created snapshot identity does not match initialize intent"),
            );
        }
        let snapshot_id: i64 = match number_row(&self.snapshots) {
            Ok(id) => id,
            Err(error) => {
                return Err(error);
            },
        };
        self.snapshots.push(snapshot_row(snapshot_id, reservation.filesystem_id, snapshot));
        self.pins.push(
            Pin {
                snapshot_id,
                owner: PinOwner::Operation(reservation.operation_id),
                reason: PinReason::InitializeBuild,
            },
        );
        self.operations[at].state = OperationState::UuidRecorded;
        self.operations[at].discovered_uuid = Some(snapshot.subvol_uuid);
        self.operations[at].updated_ns = now_ns;
        Ok(RecordedSnapshot { snapshot_id, identity: snapshot.copy() })
    }
}

} // verus!
