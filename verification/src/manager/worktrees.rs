//! Worktrees: writable clones of a watched tree that become watches of their
//! own.

use crate::digest::{drawn, random_id};
use crate::index::ROOT_INO;
use crate::manager::cuts::{filesystem_uuid, load_filesystem_uuid};
use crate::manager::initialize::{
    is_topology_open, pass_topology, topology_fence, topology_open, topology_passed,
};
use crate::manager::pins::{pins_for, unpin_reason};
use crate::manager::publish::done;
use crate::manager::rows::{
    find_active_grant, grant_active, grant_allows, held, is_allowed, is_held, no_rows,
    none_changed, Destination, FsmonitorState, Grant, GrantPolicy, GrantState, Operation,
    OperationKind, OperationState, PhysicalState, Pin, PinOwner, PinReason, Revision,
    RevisionState, Snapshot, Store, TopologyLease, Watch, WatchState, Worktree, WorktreeState,
};
use crate::manager::table::{find, find_number, numbered, place, removing, row, slot, some};
use crate::manager::topology::{
    find_topology_free, find_topology_held, lies_in_watch, topology_free, topology_held,
    watch_around,
};
use crate::manager::types::{
    fence_after, holds, is_policy_anchored, next_fence, path_is_absolute, policy_anchored,
    row_count_text, same_principal, ManagerError, TrackedWorktree, WorktreePolicy,
    WorktreeRequest, WorktreeReservation, PERMISSION_WORKTREE,
};
use crate::paths::rooted;
use crate::text::{copy_bytes, is_text, same_array, same_bytes};
use vstd::prelude::*;

verus! {

/// What a worktree asks of a grant: to read, to cut and to make worktrees.
pub const WORKTREE_PERMISSIONS: u8 = 0x07;

/// Whether the policy may be given to a grant.
pub open spec fn policy_valid(policy: WorktreePolicy) -> bool {
    &&& policy.metadata_policy@ == "sanitized-private-user-tree"@ || policy.metadata_policy@
        == "admin-trusted-preserve"@
    &&& !policy.allow_idmapped
    &&& policy_anchored(policy)
}

/// Why a policy cannot be given to a grant.
pub open spec fn provision_fault(
    store: Store,
    watch_id: [u8; 16],
    grant_id: [u8; 16],
    policy: WorktreePolicy,
) -> Option<Seq<char>> {
    if !policy_valid(policy) {
        Some("invalid Worktree policy"@)
    } else {
        match row(store.watches@, watch_id) {
            None => Some("Worktree grant is absent or revoked"@),
            Some(watch) => if watch.state != WatchState::Active || !grant_active(
                store.grants@,
                watch_id,
                grant_id,
            ) {
                Some("Worktree grant is absent or revoked"@)
            } else {
                match filesystem_uuid(store.filesystems@, watch.filesystem_id) {
                    Err(fault) => Some(fault),
                    Ok(fs_uuid) => if fs_uuid != policy.destination_fs_uuid {
                        Some("Worktree destination must be on the watched Btrfs filesystem"@)
                    } else if row(store.policies@, policy.policy_id) is Some {
                        Some("UNIQUE constraint failed: worktree_grant_policies.id"@)
                    } else {
                        None
                    },
                }
            },
        }
    }
}

/// Whether the row is the policy, given to the grant.
pub open spec fn granted_policy(
    given: GrantPolicy,
    policy: WorktreePolicy,
    grant_id: [u8; 16],
    filesystem_id: i64,
    now_ns: i64,
) -> bool {
    &&& given.destination_root_path@ == policy.destination_root_path@
    &&& given.metadata_policy@ == policy.metadata_policy@
    &&& given == GrantPolicy {
        id: policy.policy_id,
        grant_id,
        destination_filesystem_id: filesystem_id,
        destination_root_subvol_uuid: policy.destination_root_subvol_uuid,
        destination_root_path: given.destination_root_path,
        destination_root_ino: ROOT_INO,
        destination_root_generation: policy.destination_root_generation,
        metadata_policy: given.metadata_policy,
        allow_idmapped: policy.allow_idmapped,
        policy_hash: policy.policy_hash,
        created_ns: now_ns,
    }
}

/// Whether the policy is still the one that the grant was given.
pub open spec fn policy_stands(
    store: Store,
    watch_id: [u8; 16],
    authorization_id: [u8; 16],
    policy: WorktreePolicy,
) -> bool {
    &&& row(store.policies@, policy.policy_id) matches Some(given)
    &&& given.grant_id == authorization_id
    &&& grant_allows(store.grants@, watch_id, authorization_id, WORKTREE_PERMISSIONS)
    &&& filesystem_uuid(store.filesystems@, given.destination_filesystem_id) == Ok::<
        [u8; 16],
        Seq<char>,
    >(policy.destination_fs_uuid)
    &&& given.destination_root_subvol_uuid == policy.destination_root_subvol_uuid
    &&& given.destination_root_path@ == policy.destination_root_path@
    &&& given.destination_root_generation == policy.destination_root_generation
    &&& given.metadata_policy@ == policy.metadata_policy@
    &&& given.allow_idmapped == policy.allow_idmapped
    &&& given.policy_hash == policy.policy_hash
}

/// The heads of an active watch: its watch, its ready revision and its present
/// snapshot.
pub open spec fn worktree_head(store: Store, watch_id: [u8; 16]) -> Option<
    (Watch, Revision, Snapshot),
> {
    match row(store.watches@, watch_id) {
        Some(watch) => match (watch.indexed_revision_id, watch.last_cut_snapshot_id) {
            (Some(revision_id), Some(snapshot_id)) => match (
                numbered(store.revisions@, revision_id),
                numbered(store.snapshots@, snapshot_id),
            ) {
                (Some(revision), Some(snapshot)) => if watch.state == WatchState::Active
                    && revision.state == RevisionState::Ready && snapshot.physical_state
                    == PhysicalState::Present {
                    Some((watch, revision, snapshot))
                } else {
                    None
                },
                _ => None,
            },
            _ => None,
        },
        None => None,
    }
}

/// Why a user may not clone a tree under the sanitizing policy.
pub open spec fn seed_owner_fault(revision: Revision, requester_uid: u32) -> Option<Seq<char>> {
    match revision.summary.single_owner_uid {
        None => Some("Worktree seed has mixed ownership"@),
        Some(owner) => if owner != requester_uid || revision.summary.privileged_metadata_count
            != 0 {
            Some("Worktree seed is not a sanitized caller-owned tree"@)
        } else {
            None
        },
    }
}

/// Whether a request for a worktree makes sense by itself.
pub open spec fn request_valid(request: WorktreeRequest) -> bool {
    &&& request.lease_expires_ns > request.now_ns
    &&& rooted(request.staged_path@)
    &&& rooted(request.final_path@)
    &&& request.destination_name@.len() > 0
    &&& request.reservation_name@.len() > 0
    &&& policy_anchored(request.policy)
}

/// The identifiers of what reserving a worktree makes.
#[derive(Clone, Copy, Debug, Eq, PartialEq)]
pub struct WorktreeIds {
    pub operation_id: [u8; 16],
    pub worktree_id: [u8; 16],
}

impl WorktreeIds {
    /// Whether each of them has the version and the variant of a random
    /// identifier.
    pub open spec fn drawn(self) -> bool {
        &&& drawn(self.operation_id)
        &&& drawn(self.worktree_id)
    }
}

/// Why a worktree cannot be reserved.
pub open spec fn reserve_worktree_fault(
    store: Store,
    request: WorktreeRequest,
    ids: WorktreeIds,
) -> Option<Seq<char>> {
    if !request_valid(request) {
        Some("invalid Worktree reservation request"@)
    } else if !policy_stands(store, request.watch_id, request.authorization_id, request.policy) {
        Some("Worktree policy or authorization is stale"@)
    } else {
        match worktree_head(store, request.watch_id) {
            None => Some(no_rows()),
            Some((watch, revision, snapshot)) => if watch.indexed_seq is None {
                Some("Invalid column type Null at index: 3, name: indexed_seq"@)
            } else if watch.last_cut_seq is None {
                Some("Invalid column type Null at index: 4, name: last_cut_seq"@)
            } else if watch.indexed_seq != watch.last_cut_seq {
                Some("Worktree requires the indexed and physical heads to match"@)
            } else if request.policy.metadata_policy@ == "sanitized-private-user-tree"@
                && seed_owner_fault(revision, request.requester_uid) is Some {
                seed_owner_fault(revision, request.requester_uid)
            } else if !topology_open(
                store.topology_leases@,
                watch.filesystem_id,
                request.lease_owner,
                request.now_ns,
            ) {
                Some("filesystem topology lease is busy"@)
            } else if some(
                store.watches@,
                watch_around(watch.filesystem_id, request.final_path@),
            ) {
                Some("Worktree destination is below a non-deleted watched root"@)
            } else if row(store.operations@, ids.operation_id) is Some {
                Some("UNIQUE constraint failed: operations.id"@)
            } else if row(store.worktrees@, ids.worktree_id) is Some {
                Some("UNIQUE constraint failed: worktrees.id"@)
            } else {
                None
            },
        }
    }
}

/// Whether the destination is the one that was asked for.
pub open spec fn asked_destination(destination: Destination, request: WorktreeRequest) -> bool {
    &&& destination.final_path@ == request.final_path@
    &&& destination.name@ == request.destination_name@
    &&& destination.reservation_name@ == request.reservation_name@
    &&& destination == Destination {
        policy_id: request.policy.policy_id,
        final_path: destination.final_path,
        parent_subvol_uuid: request.destination_parent_subvol_uuid,
        parent_ino: request.destination_parent_ino,
        parent_generation: request.destination_parent_generation,
        name: destination.name,
        reservation_name: destination.reservation_name,
        reservation_ino: request.reservation_ino,
        reservation_generation: request.reservation_generation,
        reservation_nonce: request.reservation_nonce,
    }
}

/// Whether the row is the planned operation of a requested worktree.
pub open spec fn planned_worktree(
    operation: Operation,
    request: WorktreeRequest,
    ids: WorktreeIds,
    filesystem_id: i64,
    snapshot: Snapshot,
) -> bool {
    &&& operation.reserved_path@ == request.staged_path@
    &&& operation.destination matches Some(destination)
    &&& asked_destination(destination, request)
    &&& operation == Operation {
        id: ids.operation_id,
        kind: OperationKind::Worktree,
        state: OperationState::Planned,
        filesystem_id,
        watch_id: request.watch_id,
        sequence: None,
        source_subvol_uuid: snapshot.subvol_uuid,
        base_snapshot_id: Some(snapshot.id),
        expected_parent_uuid: snapshot.subvol_uuid,
        requested_readonly: false,
        requester_uid: request.requester_uid,
        requester_gid: request.requester_gid,
        authorization_id: request.authorization_id,
        reserved_path: operation.reserved_path,
        destination: operation.destination,
        discovered_uuid: None,
        guard: None,
        error: None,
        lease_owner: Some(request.lease_owner),
        lease_fence: 1,
        lease_expires_ns: Some(request.lease_expires_ns),
        updated_ns: request.now_ns,
    }
}

/// Whether the row is the worktree that a request is to create.
pub open spec fn creating_worktree(
    worktree: Worktree,
    request: WorktreeRequest,
    ids: WorktreeIds,
    filesystem_id: i64,
    seed_revision_id: i64,
) -> bool {
    &&& worktree.path@ == request.final_path@
    &&& worktree == Worktree {
        id: ids.worktree_id,
        filesystem_id,
        subvol_uuid: None,
        path: worktree.path,
        seed_revision_id,
        watch_id: None,
        operation_id: ids.operation_id,
        state: WorktreeState::Creating,
    }
}

/// What reserving a worktree under the identifiers does.
pub open spec fn reserves_worktree(
    before: Store,
    after: Store,
    request: WorktreeRequest,
    ids: WorktreeIds,
    reserved: Result<WorktreeReservation, ManagerError>,
) -> bool {
    match reserve_worktree_fault(before, request, ids) {
        Some(fault) => {
            &&& after == before
            &&& reserved matches Err(error)
            &&& error@ == fault
        },
        None => {
            let (watch, revision, snapshot) = worktree_head(before, request.watch_id)->0;
            &&& after == (Store {
                topology_leases: after.topology_leases,
                operations: after.operations,
                worktrees: after.worktrees,
                pins: after.pins,
                ..before
            })
            &&& after.topology_leases@ == topology_passed(
                before.topology_leases@,
                watch.filesystem_id,
            )
            &&& after.operations@ == before.operations@.push(after.operations@.last())
            &&& planned_worktree(
                after.operations@.last(),
                request,
                ids,
                watch.filesystem_id,
                snapshot,
            )
            &&& after.worktrees@ == before.worktrees@.push(after.worktrees@.last())
            &&& creating_worktree(
                after.worktrees@.last(),
                request,
                ids,
                watch.filesystem_id,
                revision.id,
            )
            &&& after.pins@ == before.pins@.push(
                Pin {
                    snapshot_id: snapshot.id,
                    owner: PinOwner::Operation(ids.operation_id),
                    reason: PinReason::WorktreeSeed,
                },
            )
            &&& reserved == Ok::<WorktreeReservation, ManagerError>(
                WorktreeReservation {
                    operation_id: ids.operation_id,
                    worktree_id: ids.worktree_id,
                    filesystem_id: watch.filesystem_id,
                    seed_snapshot_id: snapshot.id,
                    seed_revision_id: revision.id,
                    seed_subvol_uuid: snapshot.subvol_uuid,
                    operation_fence: 1,
                    policy_hash: request.policy.policy_hash,
                },
            )
        },
    }
}

/// The operation of a reserved worktree, in the state, while it is held.
pub open spec fn worktree_operation(
    operations: Seq<Operation>,
    reservation: WorktreeReservation,
    lease_owner: [u8; 16],
    state: OperationState,
) -> bool {
    match row(operations, reservation.operation_id) {
        Some(operation) => operation.state == state && held(
            operation,
            lease_owner,
            reservation.operation_fence,
        ),
        None => false,
    }
}

fn find_worktree_operation(
    operations: &Vec<Operation>,
    reservation: &WorktreeReservation,
    lease_owner: &[u8; 16],
    state: OperationState,
) -> (at: Option<usize>)
    ensures
        match at {
            Some(at) => worktree_operation(operations@, *reservation, *lease_owner, state) && at
                < operations@.len() && place(operations@, reservation.operation_id) == Some(
                at as int,
            ) && row(operations@, reservation.operation_id) == Some(operations@[at as int]),
            None => !worktree_operation(operations@, *reservation, *lease_owner, state),
        },
{
    match find(operations, &reservation.operation_id) {
        Some(at) => if operations[at].state == state && is_held(
            &operations[at],
            lease_owner,
            reservation.operation_fence,
        ) {
            Some(at)
        } else {
            None
        },
        None => None,
    }
}

/// Why a created worktree cannot be recorded.
pub open spec fn record_worktree_fault(
    store: Store,
    reservation: WorktreeReservation,
    lease_owner: [u8; 16],
    parent_uuid: Option<[u8; 16]>,
) -> Option<Seq<char>> {
    if parent_uuid != Some(reservation.seed_subvol_uuid) {
        Some("writable clone has the wrong parent UUID"@)
    } else if !(row(store.worktrees@, reservation.worktree_id) matches Some(worktree)
        && worktree.state == WorktreeState::Creating && worktree.subvol_uuid is None) {
        Some(row_count_text("record Worktree UUID"@, 0))
    } else if !worktree_operation(
        store.operations@,
        reservation,
        lease_owner,
        OperationState::FsStarted,
    ) {
        Some(row_count_text("record created Worktree"@, 0))
    } else {
        None
    }
}

/// Whether a created worktree may still be published.
pub open spec fn publication_authorized(
    store: Store,
    reservation: WorktreeReservation,
    lease_owner: [u8; 16],
) -> bool {
    &&& worktree_operation(
        store.operations@,
        reservation,
        lease_owner,
        OperationState::AwaitingDestination,
    )
    &&& row(store.operations@, reservation.operation_id) matches Some(operation)
    &&& operation.kind == OperationKind::Worktree
    &&& operation.filesystem_id == reservation.filesystem_id
    &&& grant_allows(
        store.grants@,
        operation.watch_id,
        operation.authorization_id,
        WORKTREE_PERMISSIONS,
    )
    &&& operation.destination matches Some(destination)
    &&& row(store.policies@, destination.policy_id) matches Some(policy)
    &&& policy.policy_hash == reservation.policy_hash
}

/// Why the publication of a worktree cannot be prepared.
pub open spec fn prepare_fault(
    store: Store,
    reservation: WorktreeReservation,
    lease_owner: [u8; 16],
    final_path: Seq<u8>,
    now_ns: i64,
    lease_expires_ns: i64,
) -> Option<Seq<char>> {
    if lease_expires_ns <= now_ns || !rooted(final_path) {
        Some("invalid Worktree topology publication request"@)
    } else if !publication_authorized(store, reservation, lease_owner) {
        Some("Worktree publication authority is stale"@)
    } else if !topology_free(
        store.topology_leases@,
        reservation.filesystem_id,
        lease_owner,
        now_ns,
    ) {
        Some("filesystem topology lease is busy"@)
    } else if some(store.watches@, watch_around(reservation.filesystem_id, final_path)) {
        Some("Worktree destination is below a non-deleted watched root"@)
    } else {
        None
    }
}

/// The identifiers of what publishing a worktree makes.
#[derive(Clone, Copy, Debug, Eq, PartialEq)]
pub struct ChildIds {
    pub watch_id: [u8; 16],
    pub grant_id: [u8; 16],
    pub clock_epoch: [u8; 16],
}

impl ChildIds {
    /// Whether each of them has the version and the variant of a random
    /// identifier.
    pub open spec fn drawn(self) -> bool {
        &&& drawn(self.watch_id)
        &&& drawn(self.grant_id)
        &&& drawn(self.clock_epoch)
    }
}

/// Whether a created worktree with the subvolume awaits its publication under
/// an active grant.
pub open spec fn awaits_publication(
    store: Store,
    reservation: WorktreeReservation,
    lease_owner: [u8; 16],
    subvol_uuid: [u8; 16],
) -> bool {
    &&& worktree_operation(
        store.operations@,
        reservation,
        lease_owner,
        OperationState::AwaitingDestination,
    )
    &&& row(store.operations@, reservation.operation_id) matches Some(operation)
    &&& operation.discovered_uuid == Some(subvol_uuid)
    &&& grant_active(store.grants@, operation.watch_id, operation.authorization_id)
}

/// Why a worktree cannot be published.
pub open spec fn publish_worktree_fault(
    store: Store,
    reservation: WorktreeReservation,
    lease_owner: [u8; 16],
    topology_fence: i64,
    subvol_uuid: [u8; 16],
    ids: ChildIds,
) -> Option<Seq<char>> {
    if !topology_held(
        store.topology_leases@,
        reservation.filesystem_id,
        lease_owner,
        topology_fence,
    ) {
        Some("lost filesystem topology lease before Worktree publication"@)
    } else if !awaits_publication(store, reservation, lease_owner, subvol_uuid) {
        Some(no_rows())
    } else if row(store.operations@, reservation.operation_id)->0.destination is None {
        Some("Invalid column type Null at index: 0, name: final_path"@)
    } else if row(store.watches@, ids.watch_id) is Some {
        Some("UNIQUE constraint failed: watches.id"@)
    } else if row(store.grants@, ids.grant_id) is Some {
        Some("UNIQUE constraint failed: watch_grants.id"@)
    } else if !(row(store.worktrees@, reservation.worktree_id) matches Some(worktree)
        && worktree.state == WorktreeState::Creating && worktree.subvol_uuid == Some(
        subvol_uuid,
    )) {
        Some(row_count_text("publish Worktree row"@, 0))
    } else {
        None
    }
}

/// Whether the row is the watch of a published worktree.
pub open spec fn child_watch(
    watch: Watch,
    ids: ChildIds,
    reservation: WorktreeReservation,
    subvol_uuid: [u8; 16],
    final_path: Seq<u8>,
) -> bool {
    &&& watch.live_path@ == final_path
    &&& watch == Watch {
        id: ids.watch_id,
        filesystem_id: reservation.filesystem_id,
        live_subvol_uuid: subvol_uuid,
        live_path: watch.live_path,
        indexed_revision_id: Some(reservation.seed_revision_id),
        indexed_seq: Some(0),
        last_cut_snapshot_id: Some(reservation.seed_snapshot_id),
        last_cut_seq: Some(0),
        cut_owner: None,
        cut_fence: 0,
        cut_expires_ns: None,
        clock_epoch: ids.clock_epoch,
        replay_floor_seq: Some(0),
        view: None,
        guard: None,
        fsmonitor_state: FsmonitorState::Disabled,
        state: WatchState::Active,
    }
}

/// Whether the row is the grant on a published worktree, like that on the
/// watch it was cloned from.
pub open spec fn child_grant(grant: Grant, ids: ChildIds, parent: Grant, now_ns: i64) -> bool {
    &&& same_principal(grant.principal, parent.principal)
    &&& grant == Grant {
        id: ids.grant_id,
        watch_id: ids.watch_id,
        principal: grant.principal,
        permissions: parent.permissions,
        state: GrantState::Active,
        created_ns: now_ns,
        revoked_ns: None,
    }
}

/// What publishing a worktree under the identifiers does.
pub open spec fn publishes_worktree(
    before: Store,
    after: Store,
    reservation: WorktreeReservation,
    lease_owner: [u8; 16],
    topology_fence: i64,
    subvol_uuid: [u8; 16],
    now_ns: i64,
    ids: ChildIds,
    published: Result<TrackedWorktree, ManagerError>,
) -> bool {
    match publish_worktree_fault(
        before,
        reservation,
        lease_owner,
        topology_fence,
        subvol_uuid,
        ids,
    ) {
        Some(fault) => {
            &&& after == before
            &&& published matches Err(error)
            &&& error@ == fault
        },
        None => {
            let at = place(before.operations@, reservation.operation_id)->0;
            let operation = before.operations@[at];
            let worktree_at = place(before.worktrees@, reservation.worktree_id)->0;
            let lease_at = slot(before.topology_leases@, reservation.filesystem_id)->0;
            &&& after == (Store {
                watches: after.watches,
                grants: after.grants,
                worktrees: after.worktrees,
                operations: after.operations,
                pins: after.pins,
                topology_leases: after.topology_leases,
                ..before
            })
            &&& after.watches@ == before.watches@.push(after.watches@.last())
            &&& child_watch(
                after.watches@.last(),
                ids,
                reservation,
                subvol_uuid,
                operation.destination->0.final_path@,
            )
            &&& after.grants@ == before.grants@.push(after.grants@.last())
            &&& child_grant(
                after.grants@.last(),
                ids,
                row(before.grants@, operation.authorization_id)->0,
                now_ns,
            )
            &&& after.worktrees@ == before.worktrees@.update(
                worktree_at,
                Worktree {
                    state: WorktreeState::Present,
                    watch_id: Some(ids.watch_id),
                    ..before.worktrees@[worktree_at]
                },
            )
            &&& after.operations@ == before.operations@.update(at, done(operation, now_ns))
            &&& after.pins@ == removing(
                before.pins@,
                pins_for(
                    reservation.seed_snapshot_id,
                    PinOwner::Operation(reservation.operation_id),
                    PinReason::WorktreeSeed,
                ),
            ).push(
                Pin {
                    snapshot_id: reservation.seed_snapshot_id,
                    owner: PinOwner::WatchIndexedHead(ids.watch_id),
                    reason: PinReason::WorktreeSeedIndex,
                },
            ).push(
                Pin {
                    snapshot_id: reservation.seed_snapshot_id,
                    owner: PinOwner::WatchLastCut(ids.watch_id),
                    reason: PinReason::WorktreeSeedCut,
                },
            )
            &&& after.topology_leases@ == before.topology_leases@.update(
                lease_at,
                TopologyLease {
                    lease_owner: None,
                    lease_expires_ns: None,
                    ..before.topology_leases@[lease_at]
                },
            )
            &&& published == Ok::<TrackedWorktree, ManagerError>(
                TrackedWorktree {
                    worktree_id: reservation.worktree_id,
                    watch_id: ids.watch_id,
                    grant_id: ids.grant_id,
                    seed_revision_id: reservation.seed_revision_id,
                    seed_snapshot_id: reservation.seed_snapshot_id,
                },
            )
        },
    }
}

/// What [`Store::provision_worktree_policy`] does.
pub open spec fn provisions_policy(
    before: Store,
    after: Store,
    watch_id: [u8; 16],
    grant_id: [u8; 16],
    policy: WorktreePolicy,
    now_ns: i64,
    provisioned: Result<(), ManagerError>,
) -> bool {
    match provision_fault(before, watch_id, grant_id, policy) {
        Some(fault) => {
            &&& after == before
            &&& provisioned matches Err(error)
            &&& error@ == fault
        },
        None => {
            let at = place(before.grants@, grant_id)->0;
            let grant = before.grants@[at];
            &&& provisioned is Ok
            &&& after == (Store {
                grants: after.grants,
                policies: after.policies,
                ..before
            })
            &&& after.grants@ =~= before.grants@.update(
                at,
                Grant { permissions: grant.permissions | PERMISSION_WORKTREE, ..grant },
            )
            &&& after.policies@ =~= before.policies@.push(
                after.policies@.last(),
            )
            &&& granted_policy(
                after.policies@.last(),
                policy,
                grant_id,
                row(before.watches@, watch_id)->0.filesystem_id,
                now_ns,
            )
        },
    }
}

/// What [`Store::start_worktree_effect`] does.
pub open spec fn starts_worktree(
    before: Store,
    after: Store,
    reservation: WorktreeReservation,
    lease_owner: [u8; 16],
    now_ns: i64,
    started: Result<(), ManagerError>,
) -> bool {
    if worktree_operation(
        before.operations@,
        reservation,
        lease_owner,
        OperationState::Planned,
    ) {
        let at = place(before.operations@, reservation.operation_id)->0;
        &&& started is Ok
        &&& after == (Store { operations: after.operations, ..before })
        &&& after.operations@ =~= before.operations@.update(
            at,
            Operation {
                state: OperationState::FsStarted,
                updated_ns: now_ns,
                ..before.operations@[at]
            },
        )
    } else {
        &&& after == before
        &&& started matches Err(error)
        &&& error@ == row_count_text("start Worktree effect"@, 0)
    }
}

/// What [`Store::record_created_worktree`] does.
pub open spec fn records_worktree(
    before: Store,
    after: Store,
    reservation: WorktreeReservation,
    lease_owner: [u8; 16],
    subvol_uuid: [u8; 16],
    parent_uuid: Option<[u8; 16]>,
    now_ns: i64,
    recorded: Result<(), ManagerError>,
) -> bool {
    match record_worktree_fault(before, reservation, lease_owner, parent_uuid) {
        Some(fault) => {
            &&& after == before
            &&& recorded matches Err(error)
            &&& error@ == fault
        },
        None => {
            let at = place(before.operations@, reservation.operation_id)->0;
            let worktree_at = place(before.worktrees@, reservation.worktree_id)->0;
            &&& recorded is Ok
            &&& after == (Store {
                worktrees: after.worktrees,
                operations: after.operations,
                ..before
            })
            &&& after.worktrees@ =~= before.worktrees@.update(
                worktree_at,
                Worktree {
                    subvol_uuid: Some(subvol_uuid),
                    ..before.worktrees@[worktree_at]
                },
            )
            &&& after.operations@ =~= before.operations@.update(
                at,
                Operation {
                    state: OperationState::AwaitingDestination,
                    discovered_uuid: Some(subvol_uuid),
                    updated_ns: now_ns,
                    ..before.operations@[at]
                },
            )
        },
    }
}

/// What [`Store::prepare_worktree_publication`] does.
pub open spec fn prepares_publication(
    before: Store,
    after: Store,
    reservation: WorktreeReservation,
    lease_owner: [u8; 16],
    resolved_final_path: Seq<u8>,
    now_ns: i64,
    lease_expires_ns: i64,
    prepared: Result<i64, ManagerError>,
) -> bool {
    match prepare_fault(
        before,
        reservation,
        lease_owner,
        resolved_final_path,
        now_ns,
        lease_expires_ns,
    ) {
        Some(fault) => {
            &&& after == before
            &&& prepared matches Err(error)
            &&& error@ == fault
        },
        None => {
            let at = slot(before.topology_leases@, reservation.filesystem_id)->0;
            let lease = before.topology_leases@[at];
            &&& prepared == Ok::<i64, ManagerError>(fence_after(lease.lease_fence))
            &&& after == (Store {
                topology_leases: after.topology_leases,
                ..before
            })
            &&& after.topology_leases@ =~= before.topology_leases@.update(
                at,
                TopologyLease {
                    filesystem_id: lease.filesystem_id,
                    lease_owner: Some(lease_owner),
                    lease_fence: fence_after(lease.lease_fence),
                    lease_expires_ns: Some(lease_expires_ns),
                },
            )
        },
    }
}

impl Store {
    /// Gives a grant the policy under which it may make worktrees.
    pub fn provision_worktree_policy(
        &mut self,
        watch_id: [u8; 16],
        grant_id: [u8; 16],
        policy: &WorktreePolicy,
        now_ns: i64,
    ) -> (provisioned: Result<(), ManagerError>)
        ensures
            provisions_policy(
                *old(self),
                *final(self),
                watch_id,
                grant_id,
                *policy,
                now_ns,
                provisioned,
            ),
            old(self).well_formed() ==> final(self).well_formed(),
    {
        if !(is_text(policy.metadata_policy.as_str(), "sanitized-private-user-tree") || is_text(
            policy.metadata_policy.as_str(),
            "admin-trusted-preserve",
        )) || policy.allow_idmapped || !is_policy_anchored(policy) {
            return Err(ManagerError::new("invalid Worktree policy"));
        }
        let watch_at: usize = match find(&self.watches, &watch_id) {
            Some(watch_at) => watch_at,
            None => {
                return Err(ManagerError::new("Worktree grant is absent or revoked"));
            },
        };
        let at: usize = match find_active_grant(&self.grants, &watch_id, &grant_id) {
            Some(at) => at,
            None => {
                return Err(ManagerError::new("Worktree grant is absent or revoked"));
            },
        };
        if self.watches[watch_at].state != WatchState::Active {
            return Err(ManagerError::new("Worktree grant is absent or revoked"));
        }
        let filesystem_id: i64 = self.watches[watch_at].filesystem_id;
        let fs_uuid = match load_filesystem_uuid(&self.filesystems, filesystem_id) {
            Ok(fs_uuid) => fs_uuid,
            Err(error) => {
                return Err(error);
            },
        };
        if !same_array(&fs_uuid, &policy.destination_fs_uuid) {
            return Err(
                ManagerError::new("Worktree destination must be on the watched Btrfs filesystem"),
            );
        }
        if find(&self.policies, &policy.policy_id).is_some() {
            return Err(ManagerError::new("UNIQUE constraint failed: worktree_grant_policies.id"));
        }
        let permissions: u8 = self.grants[at].permissions;
        self.grants[at].permissions = permissions | PERMISSION_WORKTREE;
        self.policies.push(
            GrantPolicy {
                id: policy.policy_id,
                grant_id,
                destination_filesystem_id: filesystem_id,
                destination_root_subvol_uuid: policy.destination_root_subvol_uuid,
                destination_root_path: copy_bytes(&policy.destination_root_path),
                destination_root_ino: ROOT_INO,
                destination_root_generation: policy.destination_root_generation,
                metadata_policy: policy.metadata_policy.clone(),
                allow_idmapped: policy.allow_idmapped,
                policy_hash: policy.policy_hash,
                created_ns: now_ns,
            },
        );
        Ok(())
    }

    fn does_policy_stand(&self, request: &WorktreeRequest) -> (stands: bool)
        ensures
            stands == policy_stands(
                *self,
                request.watch_id,
                request.authorization_id,
                request.policy,
            ),
    {
        let policy = &request.policy;
        match find(&self.policies, &policy.policy_id) {
            Some(at) => {
                let given = &self.policies[at];
                match find_number(&self.filesystems, given.destination_filesystem_id) {
                    Some(filesystem_at) => same_array(&given.grant_id, &request.authorization_id)
                        && is_allowed(
                        &self.grants,
                        &request.watch_id,
                        &request.authorization_id,
                        WORKTREE_PERMISSIONS,
                    ) && same_array(
                        &self.filesystems[filesystem_at].fs_uuid,
                        &policy.destination_fs_uuid,
                    ) && same_array(
                        &given.destination_root_subvol_uuid,
                        &policy.destination_root_subvol_uuid,
                    ) && same_bytes(&given.destination_root_path, &policy.destination_root_path)
                        && given.destination_root_generation == policy.destination_root_generation
                        && is_text(
                        given.metadata_policy.as_str(),
                        policy.metadata_policy.as_str(),
                    ) && given.allow_idmapped == policy.allow_idmapped && same_array(
                        &given.policy_hash,
                        &policy.policy_hash,
                    ),
                    None => false,
                }
            },
            None => false,
        }
    }

    fn find_worktree_head(&self, watch_id: &[u8; 16]) -> (head: Option<(usize, usize, usize)>)
        ensures
            match head {
                Some((watch_at, revision_at, snapshot_at)) => {
                    &&& watch_at < self.watches@.len()
                    &&& revision_at < self.revisions@.len()
                    &&& snapshot_at < self.snapshots@.len()
                    &&& worktree_head(*self, *watch_id) == Some(
                        (
                            self.watches@[watch_at as int],
                            self.revisions@[revision_at as int],
                            self.snapshots@[snapshot_at as int],
                        ),
                    )
                },
                None => worktree_head(*self, *watch_id) is None,
            },
    {
        let watch_at: usize = match find(&self.watches, watch_id) {
            Some(watch_at) => watch_at,
            None => {
                return None;
            },
        };
        match (
            self.watches[watch_at].indexed_revision_id,
            self.watches[watch_at].last_cut_snapshot_id,
        ) {
            (Some(revision_id), Some(snapshot_id)) => match (
                find_number(&self.revisions, revision_id),
                find_number(&self.snapshots, snapshot_id),
            ) {
                (Some(revision_at), Some(snapshot_at)) => if self.watches[watch_at].state
                    == WatchState::Active && self.revisions[revision_at].state
                    == RevisionState::Ready && self.snapshots[snapshot_at].physical_state
                    == PhysicalState::Present {
                    Some((watch_at, revision_at, snapshot_at))
                } else {
                    None
                },
                _ => None,
            },
            _ => None,
        }
    }

    /// Reserves a worktree under the identifiers.
    pub fn reserve_worktree_as(&mut self, request: &WorktreeRequest, ids: &WorktreeIds) -> (reserved:
        Result<WorktreeReservation, ManagerError>)
        ensures
            reserves_worktree(*old(self), *final(self), *request, *ids, reserved),
            old(self).well_formed() ==> final(self).well_formed(),
    {
        if request.lease_expires_ns <= request.now_ns || !path_is_absolute(&request.staged_path)
            || !path_is_absolute(&request.final_path) || request.destination_name.len() == 0
            || request.reservation_name.len() == 0 || !is_policy_anchored(&request.policy) {
            return Err(ManagerError::new("invalid Worktree reservation request"));
        }
        if !self.does_policy_stand(request) {
            return Err(ManagerError::new("Worktree policy or authorization is stale"));
        }
        let (watch_at, revision_at, snapshot_at): (usize, usize, usize) =
            match self.find_worktree_head(&request.watch_id) {
            Some(head) => head,
            None => {
                return Err(ManagerError::new("Query returned no rows"));
            },
        };
        let indexed: i64 = match self.watches[watch_at].indexed_seq {
            Some(indexed) => indexed,
            None => {
                return Err(
                    ManagerError::new("Invalid column type Null at index: 3, name: indexed_seq"),
                );
            },
        };
        let last: i64 = match self.watches[watch_at].last_cut_seq {
            Some(last) => last,
            None => {
                return Err(
                    ManagerError::new("Invalid column type Null at index: 4, name: last_cut_seq"),
                );
            },
        };
        if indexed != last {
            return Err(
                ManagerError::new("Worktree requires the indexed and physical heads to match"),
            );
        }
        if is_text(request.policy.metadata_policy.as_str(), "sanitized-private-user-tree") {
            let summary = self.revisions[revision_at].summary;
            match summary.single_owner_uid {
                None => {
                    return Err(ManagerError::new("Worktree seed has mixed ownership"));
                },
                Some(owner) => {
                    if owner != request.requester_uid as u64 || summary.privileged_metadata_count
                        != 0 {
                        return Err(
                            ManagerError::new("Worktree seed is not a sanitized caller-owned tree"),
                        );
                    }
                },
            }
        }
        let filesystem_id: i64 = self.watches[watch_at].filesystem_id;
        if !is_topology_open(
            &self.topology_leases,
            filesystem_id,
            &request.lease_owner,
            request.now_ns,
        ) {
            return Err(ManagerError::new("filesystem topology lease is busy"));
        }
        if lies_in_watch(&self.watches, filesystem_id, &request.final_path) {
            return Err(
                ManagerError::new("Worktree destination is below a non-deleted watched root"),
            );
        }
        if find(&self.operations, &ids.operation_id).is_some() {
            return Err(ManagerError::new("UNIQUE constraint failed: operations.id"));
        }
        if find(&self.worktrees, &ids.worktree_id).is_some() {
            return Err(ManagerError::new("UNIQUE constraint failed: worktrees.id"));
        }
        let snapshot_id: i64 = self.snapshots[snapshot_at].id;
        let seed_subvol_uuid: [u8; 16] = self.snapshots[snapshot_at].subvol_uuid;
        let revision_id: i64 = self.revisions[revision_at].id;
        pass_topology(&mut self.topology_leases, filesystem_id);
        self.operations.push(
            Operation {
                id: ids.operation_id,
                kind: OperationKind::Worktree,
                state: OperationState::Planned,
                filesystem_id,
                watch_id: request.watch_id,
                sequence: None,
                source_subvol_uuid: seed_subvol_uuid,
                base_snapshot_id: Some(snapshot_id),
                expected_parent_uuid: seed_subvol_uuid,
                requested_readonly: false,
                requester_uid: request.requester_uid,
                requester_gid: request.requester_gid,
                authorization_id: request.authorization_id,
                reserved_path: copy_bytes(&request.staged_path),
                destination: Some(
                    Destination {
                        policy_id: request.policy.policy_id,
                        final_path: copy_bytes(&request.final_path),
                        parent_subvol_uuid: request.destination_parent_subvol_uuid,
                        parent_ino: request.destination_parent_ino,
                        parent_generation: request.destination_parent_generation,
                        name: copy_bytes(&request.destination_name),
                        reservation_name: copy_bytes(&request.reservation_name),
                        reservation_ino: request.reservation_ino,
                        reservation_generation: request.reservation_generation,
                        reservation_nonce: request.reservation_nonce,
                    },
                ),
                discovered_uuid: None,
                guard: None,
                error: None,
                lease_owner: Some(request.lease_owner),
                lease_fence: 1,
                lease_expires_ns: Some(request.lease_expires_ns),
                updated_ns: request.now_ns,
            },
        );
        self.worktrees.push(
            Worktree {
                id: ids.worktree_id,
                filesystem_id,
                subvol_uuid: None,
                path: copy_bytes(&request.final_path),
                seed_revision_id: revision_id,
                watch_id: None,
                operation_id: ids.operation_id,
                state: WorktreeState::Creating,
            },
        );
        self.pins.push(
            Pin {
                snapshot_id,
                owner: PinOwner::Operation(ids.operation_id),
                reason: PinReason::WorktreeSeed,
            },
        );
        proof {
            assert(self.operations@ =~= old(self).operations@.push(self.operations@.last()));
            assert(self.worktrees@ =~= old(self).worktrees@.push(self.worktrees@.last()));
        }
        Ok(
            WorktreeReservation {
                operation_id: ids.operation_id,
                worktree_id: ids.worktree_id,
                filesystem_id,
                seed_snapshot_id: snapshot_id,
                seed_revision_id: revision_id,
                seed_subvol_uuid,
                operation_fence: 1,
                policy_hash: request.policy.policy_hash,
            },
        )
    }

    /// Reserves a worktree.
    pub fn reserve_worktree(&mut self, request: &WorktreeRequest) -> (reserved: Result<
        WorktreeReservation,
        ManagerError,
    >)
        ensures
            exists|ids: WorktreeIds|
                ids.drawn() && #[trigger] reserves_worktree(
                    *old(self),
                    *final(self),
                    *request,
                    ids,
                    reserved,
                ),
            old(self).well_formed() ==> final(self).well_formed(),
    {
        let ids = WorktreeIds { operation_id: random_id(), worktree_id: random_id() };
        self.reserve_worktree_as(request, &ids)
    }

    /// Crosses the boundary behind which the filesystem may have been changed.
    pub fn start_worktree_effect(
        &mut self,
        reservation: &WorktreeReservation,
        lease_owner: [u8; 16],
        now_ns: i64,
    ) -> (started: Result<(), ManagerError>)
        ensures
            starts_worktree(*old(self), *final(self), *reservation, lease_owner, now_ns, started),
            old(self).well_formed() ==> final(self).well_formed(),
    {
        match find_worktree_operation(
            &self.operations,
            reservation,
            &lease_owner,
            OperationState::Planned,
        ) {
            Some(at) => {
                self.operations[at].state = OperationState::FsStarted;
                self.operations[at].updated_ns = now_ns;
                Ok(())
            },
            None => Err(none_changed("start Worktree effect")),
        }
    }

    /// Records the subvolume that was cloned for a worktree.
    pub fn record_created_worktree(
        &mut self,
        reservation: &WorktreeReservation,
        lease_owner: [u8; 16],
        subvol_uuid: [u8; 16],
        parent_uuid: Option<[u8; 16]>,
        now_ns: i64,
    ) -> (recorded: Result<(), ManagerError>)
        ensures
            records_worktree(
                *old(self),
                *final(self),
                *reservation,
                lease_owner,
                subvol_uuid,
                parent_uuid,
                now_ns,
                recorded,
            ),
            old(self).well_formed() ==> final(self).well_formed(),
    {
        if !holds(&parent_uuid, &reservation.seed_subvol_uuid) {
            return Err(ManagerError::new("writable clone has the wrong parent UUID"));
        }
        let worktree_at: usize = match find(&self.worktrees, &reservation.worktree_id) {
            Some(worktree_at) => worktree_at,
            None => {
                return Err(none_changed("record Worktree UUID"));
            },
        };
        if self.worktrees[worktree_at].state != WorktreeState::Creating
            || self.worktrees[worktree_at].subvol_uuid.is_some() {
            return Err(none_changed("record Worktree UUID"));
        }
        let at: usize = match find_worktree_operation(
            &self.operations,
            reservation,
            &lease_owner,
            OperationState::FsStarted,
        ) {
            Some(at) => at,
            None => {
                return Err(none_changed("record created Worktree"));
            },
        };
        self.worktrees[worktree_at].subvol_uuid = Some(subvol_uuid);
        self.operations[at].state = OperationState::AwaitingDestination;
        self.operations[at].discovered_uuid = Some(subvol_uuid);
        self.operations[at].updated_ns = now_ns;
        Ok(())
    }

    /// Claims the topology of a filesystem for the publication of a worktree,
    /// once nothing speaks against its final path. The claim stands until the
    /// worktree is published.
    pub fn prepare_worktree_publication(
        &mut self,
        reservation: &WorktreeReservation,
        lease_owner: [u8; 16],
        resolved_final_path: &[u8],
        now_ns: i64,
        lease_expires_ns: i64,
    ) -> (prepared: Result<i64, ManagerError>)
        ensures
            prepares_publication(
                *old(self),
                *final(self),
                *reservation,
                lease_owner,
                resolved_final_path@,
                now_ns,
                lease_expires_ns,
                prepared,
            ),
            old(self).well_formed() ==> final(self).well_formed(),
    {
        if lease_expires_ns <= now_ns || !path_is_absolute(resolved_final_path) {
            return Err(ManagerError::new("invalid Worktree topology publication request"));
        }
        let at: usize = match find_worktree_operation(
            &self.operations,
            reservation,
            &lease_owner,
            OperationState::AwaitingDestination,
        ) {
            Some(at) => at,
            None => {
                return Err(ManagerError::new("Worktree publication authority is stale"));
            },
        };
        let operation = &self.operations[at];
        let anchored: bool = match &operation.destination {
            Some(destination) => match find(&self.policies, &destination.policy_id) {
                Some(policy_at) => same_array(
                    &self.policies[policy_at].policy_hash,
                    &reservation.policy_hash,
                ),
                None => false,
            },
            None => false,
        };
        if operation.kind != OperationKind::Worktree || operation.filesystem_id
            != reservation.filesystem_id || !is_allowed(
            &self.grants,
            &operation.watch_id,
            &operation.authorization_id,
            WORKTREE_PERMISSIONS,
        ) || !anchored {
            return Err(ManagerError::new("Worktree publication authority is stale"));
        }
        let lease_at: usize = match find_topology_free(
            &self.topology_leases,
            reservation.filesystem_id,
            &lease_owner,
            now_ns,
        ) {
            Some(lease_at) => lease_at,
            None => {
                return Err(ManagerError::new("filesystem topology lease is busy"));
            },
        };
        if lies_in_watch(&self.watches, reservation.filesystem_id, resolved_final_path) {
            return Err(
                ManagerError::new("Worktree destination is below a non-deleted watched root"),
            );
        }
        let fence: i64 = next_fence(self.topology_leases[lease_at].lease_fence);
        self.topology_leases[lease_at].lease_owner = Some(lease_owner);
        self.topology_leases[lease_at].lease_fence = fence;
        self.topology_leases[lease_at].lease_expires_ns = Some(lease_expires_ns);
        Ok(fence)
    }

    /// Publishes a worktree as a watch of its own, under the identifiers.
    pub fn publish_worktree_as(
        &mut self,
        reservation: &WorktreeReservation,
        lease_owner: [u8; 16],
        topology_fence: i64,
        subvol_uuid: [u8; 16],
        now_ns: i64,
        ids: &ChildIds,
    ) -> (published: Result<TrackedWorktree, ManagerError>)
        ensures
            publishes_worktree(
                *old(self),
                *final(self),
                *reservation,
                lease_owner,
                topology_fence,
                subvol_uuid,
                now_ns,
                *ids,
                published,
            ),
            old(self).well_formed() ==> final(self).well_formed(),
    {
        let lease_at: usize = match find_topology_held(
            &self.topology_leases,
            reservation.filesystem_id,
            &lease_owner,
            topology_fence,
        ) {
            Some(lease_at) => lease_at,
            None => {
                return Err(
                    ManagerError::new("lost filesystem topology lease before Worktree publication"),
                );
            },
        };
        let at: usize = match find_worktree_operation(
            &self.operations,
            reservation,
            &lease_owner,
            OperationState::AwaitingDestination,
        ) {
            Some(at) => at,
            None => {
                return Err(ManagerError::new("Query returned no rows"));
            },
        };
        if !holds(&self.operations[at].discovered_uuid, &subvol_uuid) {
            return Err(ManagerError::new("Query returned no rows"));
        }
        let grant_at: usize = match find_active_grant(
            &self.grants,
            &self.operations[at].watch_id,
            &self.operations[at].authorization_id,
        ) {
            Some(grant_at) => grant_at,
            None => {
                return Err(ManagerError::new("Query returned no rows"));
            },
        };
        let final_path: Vec<u8> = match &self.operations[at].destination {
            Some(destination) => copy_bytes(&destination.final_path),
            None => {
                return Err(
                    ManagerError::new("Invalid column type Null at index: 0, name: final_path"),
                );
            },
        };
        if find(&self.watches, &ids.watch_id).is_some() {
            return Err(ManagerError::new("UNIQUE constraint failed: watches.id"));
        }
        if find(&self.grants, &ids.grant_id).is_some() {
            return Err(ManagerError::new("UNIQUE constraint failed: watch_grants.id"));
        }
        let worktree_at: usize = match find(&self.worktrees, &reservation.worktree_id) {
            Some(worktree_at) => worktree_at,
            None => {
                return Err(none_changed("publish Worktree row"));
            },
        };
        if self.worktrees[worktree_at].state != WorktreeState::Creating || !holds(
            &self.worktrees[worktree_at].subvol_uuid,
            &subvol_uuid,
        ) {
            return Err(none_changed("publish Worktree row"));
        }
        let principal = self.grants[grant_at].principal.copy();
        let permissions: u8 = self.grants[grant_at].permissions;
        self.watches.push(
            Watch {
                id: ids.watch_id,
                filesystem_id: reservation.filesystem_id,
                live_subvol_uuid: subvol_uuid,
                live_path: final_path,
                indexed_revision_id: Some(reservation.seed_revision_id),
                indexed_seq: Some(0),
                last_cut_snapshot_id: Some(reservation.seed_snapshot_id),
                last_cut_seq: Some(0),
                cut_owner: None,
                cut_fence: 0,
                cut_expires_ns: None,
                clock_epoch: ids.clock_epoch,
                replay_floor_seq: Some(0),
                view: None,
                guard: None,
                fsmonitor_state: FsmonitorState::Disabled,
                state: WatchState::Active,
            },
        );
        self.grants.push(
            Grant {
                id: ids.grant_id,
                watch_id: ids.watch_id,
                principal,
                permissions,
                state: GrantState::Active,
                created_ns: now_ns,
                revoked_ns: None,
            },
        );
        self.worktrees[worktree_at].state = WorktreeState::Present;
        self.worktrees[worktree_at].watch_id = Some(ids.watch_id);
        self.operations[at].state = OperationState::Done;
        self.operations[at].lease_owner = None;
        self.operations[at].lease_expires_ns = None;
        self.operations[at].updated_ns = now_ns;
        unpin_reason(
            &mut self.pins,
            reservation.seed_snapshot_id,
            PinOwner::Operation(reservation.operation_id),
            PinReason::WorktreeSeed,
        );
        self.pins.push(
            Pin {
                snapshot_id: reservation.seed_snapshot_id,
                owner: PinOwner::WatchIndexedHead(ids.watch_id),
                reason: PinReason::WorktreeSeedIndex,
            },
        );
        self.pins.push(
            Pin {
                snapshot_id: reservation.seed_snapshot_id,
                owner: PinOwner::WatchLastCut(ids.watch_id),
                reason: PinReason::WorktreeSeedCut,
            },
        );
        self.topology_leases[lease_at].lease_owner = None;
        self.topology_leases[lease_at].lease_expires_ns = None;
        proof {
            assert(self.watches@ =~= old(self).watches@.push(self.watches@.last()));
            assert(self.grants@ =~= old(self).grants@.push(self.grants@.last()));
            assert(self.worktrees@ =~= old(self).worktrees@.update(
                worktree_at as int,
                self.worktrees@[worktree_at as int],
            ));
            assert(self.operations@ =~= old(self).operations@.update(
                at as int,
                done(old(self).operations@[at as int], now_ns),
            ));
            assert(self.topology_leases@ =~= old(self).topology_leases@.update(
                lease_at as int,
                self.topology_leases@[lease_at as int],
            ));
        }
        Ok(
            TrackedWorktree {
                worktree_id: reservation.worktree_id,
                watch_id: ids.watch_id,
                grant_id: ids.grant_id,
                seed_revision_id: reservation.seed_revision_id,
                seed_snapshot_id: reservation.seed_snapshot_id,
            },
        )
    }

    /// Publishes a worktree as a watch of its own.
    pub fn publish_worktree(
        &mut self,
        reservation: &WorktreeReservation,
        lease_owner: [u8; 16],
        topology_fence: i64,
        subvol_uuid: [u8; 16],
        now_ns: i64,
    ) -> (published: Result<TrackedWorktree, ManagerError>)
        ensures
            exists|ids: ChildIds|
                ids.drawn() && #[trigger] publishes_worktree(
                    *old(self),
                    *final(self),
                    *reservation,
                    lease_owner,
                    topology_fence,
                    subvol_uuid,
                    now_ns,
                    ids,
                    published,
                ),
            old(self).well_formed() ==> final(self).well_formed(),
    {
        let ids = ChildIds {
            watch_id: random_id(),
            grant_id: random_id(),
            clock_epoch: random_id(),
        };
        self.publish_worktree_as(
            reservation,
            lease_owner,
            topology_fence,
            subvol_uuid,
            now_ns,
            &ids,
        )
    }
}

} // verus!
