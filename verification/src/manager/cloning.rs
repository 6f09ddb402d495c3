//! The life of a worktree: from the policy that allows it to the watch that it becomes.

use crate::manager::cutting::lemma_others;
use crate::manager::initialize::topology_fence;
use crate::manager::keeping::lemma_place_pushed;
use crate::manager::opening::{lemma_topology, topology_passes};
use crate::manager::pins::pins_for;
use crate::manager::rows::{
    Destination, FsmonitorState, Grant, GrantState, Operation, OperationKind, OperationState,
    PhysicalState, Pin, PinOwner, PinReason, RevisionState, Store, TopologyLease, WatchState,
    Worktree, WorktreeState,
};
use crate::manager::table::{
    law_removing, lemma_place, lemma_slot, numbered, place, removing, row, slot,
};
use crate::manager::topology::watch_around;
use crate::manager::types::{
    ManagerError, Principal, TrackedWorktree, WorktreePolicy, WorktreeRequest, WorktreeReservation,
};
use crate::manager::worktrees::{
    prepares_publication, provisions_policy, publishes_worktree, records_worktree,
    reserves_worktree, starts_worktree, ChildIds, WorktreeIds,
};
use crate::paths::law_begins_with_orders_paths;
use vstd::prelude::*;

verus! {

/// Whether the grant lets its holder read and cut the watch and make worktrees of it.
pub open spec fn may_clone(store: Store, watch_id: [u8; 16], grant_id: [u8; 16]) -> bool {
    &&& row(store.grants@, grant_id) matches Some(grant)
    &&& grant.watch_id == watch_id
    &&& grant.state == GrantState::Active
    &&& grant.permissions & 7 == 7
}

/// Whether nobody else changes which trees of the filesystem are watched.
pub open spec fn free_to_change(
    store: Store,
    filesystem_id: i64,
    owner: [u8; 16],
    now_ns: i64,
) -> bool {
    numbered(store.topology_leases@, filesystem_id) matches Some(lease) ==> (
    lease.lease_owner matches Some(other) ==> other == owner || (
    lease.lease_expires_ns matches Some(expires) && !(now_ns < expires)))
}

/// A policy is given to an active grant of an active watch, for a destination on the
/// watched filesystem, and gives the grant the right to make worktrees, besides those
/// that it had.
pub proof fn law_given_policy(
    before: Store,
    after: Store,
    watch_id: [u8; 16],
    grant_id: [u8; 16],
    policy: WorktreePolicy,
    now_ns: i64,
    given: Result<(), ManagerError>,
)
    requires
        provisions_policy(before, after, watch_id, grant_id, policy, now_ns, given),
    ensures
        given is Err ==> after == before,
        given is Ok ==> {
            &&& !policy.allow_idmapped
            &&& policy.metadata_policy@ == "sanitized-private-user-tree"@
                || policy.metadata_policy@ == "admin-trusted-preserve"@
            &&& row(before.watches@, watch_id) matches Some(watch)
            &&& watch.state == WatchState::Active
            &&& numbered(before.filesystems@, watch.filesystem_id) matches Some(filesystem)
            &&& filesystem.fs_uuid == policy.destination_fs_uuid
            &&& row(before.grants@, grant_id) matches Some(grant)
            &&& grant.watch_id == watch_id
            &&& grant.state == GrantState::Active
            &&& row(after.grants@, grant_id) == Some(
                Grant { permissions: grant.permissions | 4, ..grant },
            )
            &&& grant.permissions & 3 == 3 ==> may_clone(after, watch_id, grant_id)
            &&& row(before.policies@, policy.policy_id) is None
            &&& row(after.policies@, policy.policy_id) matches Some(kept)
            &&& kept.grant_id == grant_id
            &&& kept.destination_filesystem_id == watch.filesystem_id
            &&& kept.destination_root_subvol_uuid == policy.destination_root_subvol_uuid
            &&& kept.destination_root_path@ == policy.destination_root_path@
            &&& kept.destination_root_ino == 256
            &&& kept.destination_root_generation == policy.destination_root_generation
            &&& kept.metadata_policy@ == policy.metadata_policy@
            &&& !kept.allow_idmapped
            &&& kept.policy_hash == policy.policy_hash
            &&& kept.created_ns == now_ns
        },
{
    lemma_place(before.grants@, grant_id, 0);
    lemma_place(before.policies@, policy.policy_id, 0);
    if given is Ok {
        let at = place(before.grants@, grant_id)->0;
        lemma_others(before.grants@, at, after.grants@[at]);
        lemma_place_pushed(before.policies@, after.policies@.last(), policy.policy_id, 0);
        let held = before.grants@[at].permissions;
        assert(held & 3 == 3 ==> (held | 4) & 7 == 7) by (bit_vector);
    }
}

/// Whether the operation of the reserved worktree is in the state, and the owner is who
/// works on it.
pub open spec fn clones(
    store: Store,
    reservation: WorktreeReservation,
    owner: [u8; 16],
    state: OperationState,
) -> bool {
    &&& row(store.operations@, reservation.operation_id) matches Some(operation)
    &&& operation.state == state
    &&& operation.lease_owner == Some(owner)
    &&& operation.lease_fence == reservation.operation_fence
}

/// Whether the destination is the one that was asked for.
pub open spec fn asked_for(destination: Destination, request: WorktreeRequest) -> bool {
    &&& destination.policy_id == request.policy.policy_id
    &&& destination.final_path@ == request.final_path@
    &&& destination.parent_subvol_uuid == request.destination_parent_subvol_uuid
    &&& destination.parent_ino == request.destination_parent_ino
    &&& destination.parent_generation == request.destination_parent_generation
    &&& destination.name@ == request.destination_name@
    &&& destination.reservation_name@ == request.reservation_name@
    &&& destination.reservation_ino == request.reservation_ino
    &&& destination.reservation_generation == request.reservation_generation
    &&& destination.reservation_nonce == request.reservation_nonce
}

/// A worktree is reserved of a watch that is indexed to its last cut, under the very
/// policy that the grant was given, outside every watched tree. A sanitized one is
/// only made of a tree that is wholly the caller's and holds nothing privileged. The
/// snapshot that it is made of is kept for it.
pub proof fn law_reserved_worktree(
    before: Store,
    after: Store,
    request: WorktreeRequest,
    ids: WorktreeIds,
    reserved: Result<WorktreeReservation, ManagerError>,
)
    requires
        reserves_worktree(before, after, request, ids, reserved),
    ensures
        reserved is Err ==> after == before,
        reserved matches Ok(reservation) ==> {
            &&& request.now_ns < request.lease_expires_ns
            &&& request.staged_path@.len() > 0 && request.staged_path@[0] == 0x2f
            &&& request.final_path@.len() > 0 && request.final_path@[0] == 0x2f
            &&& request.destination_name@.len() > 0
            &&& request.reservation_name@.len() > 0
            &&& may_clone(before, request.watch_id, request.authorization_id)
            &&& row(before.policies@, request.policy.policy_id) matches Some(given)
            &&& given.grant_id == request.authorization_id
            &&& given.destination_root_subvol_uuid == request.policy.destination_root_subvol_uuid
            &&& given.destination_root_path@ == request.policy.destination_root_path@
            &&& given.destination_root_generation == request.policy.destination_root_generation
            &&& given.metadata_policy@ == request.policy.metadata_policy@
            &&& given.allow_idmapped == request.policy.allow_idmapped
            &&& given.policy_hash == request.policy.policy_hash
            &&& row(before.watches@, request.watch_id) matches Some(watch)
            &&& watch.state == WatchState::Active
            &&& watch.indexed_seq is Some
            &&& watch.indexed_seq == watch.last_cut_seq
            &&& watch.indexed_revision_id matches Some(revision_id)
            &&& numbered(before.revisions@, revision_id) matches Some(revision)
            &&& revision.state == RevisionState::Ready
            &&& watch.last_cut_snapshot_id matches Some(snapshot_id)
            &&& numbered(before.snapshots@, snapshot_id) matches Some(snapshot)
            &&& snapshot.physical_state == PhysicalState::Present
            &&& request.policy.metadata_policy@ == "sanitized-private-user-tree"@ ==> {
                &&& revision.summary.single_owner_uid matches Some(owner)
                &&& owner == request.requester_uid
                &&& revision.summary.privileged_metadata_count == 0
            }
            &&& free_to_change(before, watch.filesystem_id, request.lease_owner, request.now_ns)
            &&& forall|i: int|
                0 <= i < before.watches@.len() && (#[trigger] before.watches@[i]).filesystem_id
                    == watch.filesystem_id && before.watches@[i].live_path@ == request.final_path@
                    ==> before.watches@[i].state == WatchState::Deleted
            &&& reservation.operation_id == ids.operation_id
            &&& reservation.worktree_id == ids.worktree_id
            &&& reservation.filesystem_id == watch.filesystem_id
            &&& reservation.seed_snapshot_id == snapshot.id
            &&& reservation.seed_revision_id == revision.id
            &&& reservation.seed_subvol_uuid == snapshot.subvol_uuid
            &&& reservation.policy_hash == request.policy.policy_hash
            &&& clones(after, reservation, request.lease_owner, OperationState::Planned)
            &&& row(after.operations@, ids.operation_id) matches Some(operation)
            &&& operation.kind == OperationKind::Worktree
            &&& operation.filesystem_id == watch.filesystem_id
            &&& operation.watch_id == request.watch_id
            &&& operation.source_subvol_uuid == snapshot.subvol_uuid
            &&& operation.expected_parent_uuid == snapshot.subvol_uuid
            &&& operation.base_snapshot_id == Some(snapshot.id)
            &&& !operation.requested_readonly
            &&& operation.requester_uid == request.requester_uid
            &&& operation.requester_gid == request.requester_gid
            &&& operation.authorization_id == request.authorization_id
            &&& operation.reserved_path@ == request.staged_path@
            &&& operation.lease_expires_ns == Some(request.lease_expires_ns)
            &&& operation.destination matches Some(destination)
            &&& asked_for(destination, request)
            &&& row(before.worktrees@, ids.worktree_id) is None
            &&& row(after.worktrees@, ids.worktree_id) matches Some(worktree)
            &&& worktree.state == WorktreeState::Creating
            &&& worktree.path@ == request.final_path@
            &&& worktree.filesystem_id == watch.filesystem_id
            &&& worktree.seed_revision_id == revision.id
            &&& worktree.operation_id == ids.operation_id
            &&& worktree.subvol_uuid is None && worktree.watch_id is None
            &&& after.pins@ == before.pins@.push(
                Pin {
                    snapshot_id: snapshot.id,
                    owner: PinOwner::Operation(ids.operation_id),
                    reason: PinReason::WorktreeSeed,
                },
            )
            &&& after.watches == before.watches
            &&& exists|fence: i64| #[trigger]
                topology_passes(before, after, watch.filesystem_id, fence)
        },
{
    lemma_place(before.operations@, ids.operation_id, 0);
    lemma_place(before.worktrees@, ids.worktree_id, 0);
    if let Ok(reservation) = reserved {
        let fence = topology_fence(before.topology_leases@, reservation.filesystem_id);
        lemma_topology(before, after, reservation.filesystem_id, fence);
        lemma_place_pushed(before.operations@, after.operations@.last(), ids.operation_id, 0);
        lemma_place_pushed(before.worktrees@, after.worktrees@.last(), ids.worktree_id, 0);
        let around = watch_around(reservation.filesystem_id, request.final_path@);
        assert forall|i: int|
            0 <= i < before.watches@.len() && (#[trigger] before.watches@[i]).filesystem_id
                == reservation.filesystem_id && before.watches@[i].live_path@
                == request.final_path@ implies before.watches@[i].state == WatchState::Deleted by {
            assert(!around(before.watches@[i]));
            law_begins_with_orders_paths(
                request.final_path@,
                request.final_path@,
                request.final_path@,
            );
        }
    }
}

/// Only who works on a reserved worktree starts it, and only while it is planned. What
/// was made is recorded once, where it was made of the snapshot that it was reserved
/// of.
pub proof fn law_made_worktree(
    before: Store,
    middle: Store,
    after: Store,
    reservation: WorktreeReservation,
    owner: [u8; 16],
    now_ns: i64,
    started: Result<(), ManagerError>,
    subvol_uuid: [u8; 16],
    parent_uuid: Option<[u8; 16]>,
    recorded: Result<(), ManagerError>,
)
    requires
        starts_worktree(before, middle, reservation, owner, now_ns, started),
        records_worktree(
            middle,
            after,
            reservation,
            owner,
            subvol_uuid,
            parent_uuid,
            now_ns,
            recorded,
        ),
    ensures
        started is Ok <==> clones(before, reservation, owner, OperationState::Planned),
        started is Err ==> middle == before,
        started is Ok ==> clones(middle, reservation, owner, OperationState::FsStarted),
        started is Ok ==> middle == (Store { operations: middle.operations, ..before }),
        recorded is Err ==> after == middle,
        recorded is Ok <==> {
            &&& clones(middle, reservation, owner, OperationState::FsStarted)
            &&& parent_uuid == Some(reservation.seed_subvol_uuid)
            &&& row(middle.worktrees@, reservation.worktree_id) matches Some(worktree)
            &&& worktree.state == WorktreeState::Creating
            &&& worktree.subvol_uuid is None
        },
        recorded is Ok ==> {
            &&& clones(after, reservation, owner, OperationState::AwaitingDestination)
            &&& row(after.operations@, reservation.operation_id) == Some(
                Operation {
                    state: OperationState::AwaitingDestination,
                    discovered_uuid: Some(subvol_uuid),
                    updated_ns: now_ns,
                    ..row(middle.operations@, reservation.operation_id)->0
                },
            )
            &&& row(after.worktrees@, reservation.worktree_id) == Some(
                Worktree {
                    subvol_uuid: Some(subvol_uuid),
                    ..row(middle.worktrees@, reservation.worktree_id)->0
                },
            )
        },
{
    lemma_place(before.operations@, reservation.operation_id, 0);
    lemma_place(middle.operations@, reservation.operation_id, 0);
    lemma_place(middle.worktrees@, reservation.worktree_id, 0);
    if started is Ok {
        let at = place(before.operations@, reservation.operation_id)->0;
        lemma_others(before.operations@, at, middle.operations@[at]);
    }
    if recorded is Ok {
        let at = place(middle.operations@, reservation.operation_id)->0;
        lemma_others(middle.operations@, at, after.operations@[at]);
        let worktree_at = place(middle.worktrees@, reservation.worktree_id)->0;
        lemma_others(middle.worktrees@, worktree_at, after.worktrees@[worktree_at]);
    }
}

/// The topology is claimed for a publication to come by who works on a worktree that
/// was made, while its grant and its policy stand and nobody else has the topology.
pub proof fn law_prepared_publication(
    before: Store,
    after: Store,
    reservation: WorktreeReservation,
    owner: [u8; 16],
    final_path: Seq<u8>,
    now_ns: i64,
    expires_ns: i64,
    prepared: Result<i64, ManagerError>,
)
    requires
        prepares_publication(
            before,
            after,
            reservation,
            owner,
            final_path,
            now_ns,
            expires_ns,
            prepared,
        ),
    ensures
        prepared is Err ==> after == before,
        prepared matches Ok(fence) ==> {
            &&& now_ns < expires_ns
            &&& clones(before, reservation, owner, OperationState::AwaitingDestination)
            &&& row(before.operations@, reservation.operation_id) matches Some(operation)
            &&& operation.kind == OperationKind::Worktree
            &&& operation.filesystem_id == reservation.filesystem_id
            &&& may_clone(before, operation.watch_id, operation.authorization_id)
            &&& operation.destination matches Some(destination)
            &&& row(before.policies@, destination.policy_id) matches Some(policy)
            &&& policy.policy_hash == reservation.policy_hash
            &&& free_to_change(before, reservation.filesystem_id, owner, now_ns)
            &&& numbered(before.topology_leases@, reservation.filesystem_id) matches Some(earlier)
            &&& earlier.lease_fence < i64::MAX ==> fence == earlier.lease_fence + 1
            &&& exists|i: int|
                0 <= i < after.topology_leases@.len() && #[trigger] after.topology_leases@[i] == (
                TopologyLease {
                    filesystem_id: reservation.filesystem_id,
                    lease_owner: Some(owner),
                    lease_fence: fence,
                    lease_expires_ns: Some(expires_ns),
                })
            &&& after == (Store { topology_leases: after.topology_leases, ..before })
            &&& forall|i: int|
                0 <= i < before.watches@.len() && (#[trigger] before.watches@[i]).filesystem_id
                    == reservation.filesystem_id && before.watches@[i].live_path@ == final_path
                    ==> before.watches@[i].state == WatchState::Deleted
        },
{
    if let Ok(fence) = prepared {
        lemma_slot(before.topology_leases@, reservation.filesystem_id, 0);
        let at = slot(before.topology_leases@, reservation.filesystem_id)->0;
        assert(after.topology_leases@[at].lease_owner == Some(owner));
        let around = watch_around(reservation.filesystem_id, final_path);
        assert forall|i: int|
            0 <= i < before.watches@.len() && (#[trigger] before.watches@[i]).filesystem_id
                == reservation.filesystem_id && before.watches@[i].live_path@
                == final_path implies before.watches@[i].state == WatchState::Deleted by {
            assert(!around(before.watches@[i]));
            law_begins_with_orders_paths(final_path, final_path, final_path);
        }
    }
}

/// A published worktree is a watch of its own, indexed to the revision that it was made
/// of, with a grant like the one that it was made under. The topology is free again, and
/// the seed is kept for the new watch.
pub proof fn law_published_worktree(
    before: Store,
    after: Store,
    reservation: WorktreeReservation,
    owner: [u8; 16],
    topology_fence: i64,
    subvol_uuid: [u8; 16],
    now_ns: i64,
    ids: ChildIds,
    published: Result<TrackedWorktree, ManagerError>,
)
    requires
        publishes_worktree(
            before,
            after,
            reservation,
            owner,
            topology_fence,
            subvol_uuid,
            now_ns,
            ids,
            published,
        ),
    ensures
        published is Err ==> after == before,
        published matches Ok(made) ==> {
            &&& numbered(before.topology_leases@, reservation.filesystem_id) matches Some(lease)
            &&& lease.lease_owner == Some(owner)
            &&& lease.lease_fence == topology_fence
            &&& clones(before, reservation, owner, OperationState::AwaitingDestination)
            &&& row(before.operations@, reservation.operation_id) matches Some(operation)
            &&& operation.discovered_uuid == Some(subvol_uuid)
            &&& operation.destination matches Some(destination)
            &&& row(before.grants@, operation.authorization_id) matches Some(parent)
            &&& parent.state == GrantState::Active
            &&& parent.watch_id == operation.watch_id
            &&& row(before.watches@, ids.watch_id) is None
            &&& row(before.grants@, ids.grant_id) is None
            &&& made.worktree_id == reservation.worktree_id
            &&& made.watch_id == ids.watch_id
            &&& made.grant_id == ids.grant_id
            &&& made.seed_revision_id == reservation.seed_revision_id
            &&& made.seed_snapshot_id == reservation.seed_snapshot_id
            &&& row(after.watches@, ids.watch_id) matches Some(watch)
            &&& watch.state == WatchState::Active
            &&& watch.live_subvol_uuid == subvol_uuid
            &&& watch.live_path@ == destination.final_path@
            &&& watch.filesystem_id == reservation.filesystem_id
            &&& watch.indexed_revision_id == Some(reservation.seed_revision_id)
            &&& watch.indexed_seq == Some(0i64)
            &&& watch.last_cut_snapshot_id == Some(reservation.seed_snapshot_id)
            &&& watch.last_cut_seq == Some(0i64)
            &&& watch.replay_floor_seq == Some(0i64)
            &&& watch.clock_epoch == ids.clock_epoch
            &&& watch.cut_owner is None && watch.view is None && watch.guard is None
            &&& watch.fsmonitor_state == FsmonitorState::Disabled
            &&& row(after.grants@, ids.grant_id) matches Some(grant)
            &&& grant.watch_id == ids.watch_id
            &&& grant.permissions == parent.permissions
            &&& grant.state == GrantState::Active
            &&& grant.created_ns == now_ns
            &&& match parent.principal {
                Principal::Uid(uid) => grant.principal == Principal::Uid(uid),
                Principal::Service(name) => grant.principal matches Principal::Service(kept)
                    && kept@ == name@,
            }
            &&& row(after.worktrees@, reservation.worktree_id) matches Some(worktree)
            &&& worktree.state == WorktreeState::Present
            &&& worktree.watch_id == Some(ids.watch_id)
            &&& worktree.subvol_uuid == Some(subvol_uuid)
            &&& row(after.operations@, reservation.operation_id) matches Some(over)
            &&& over.state == OperationState::Done
            &&& over.lease_owner is None
            &&& forall|pin: Pin|
                #[trigger] after.pins@.contains(pin) <==> (before.pins@.contains(pin) && !(
                pin.snapshot_id == reservation.seed_snapshot_id && pin.owner == PinOwner::Operation(
                    reservation.operation_id,
                ) && pin.reason == PinReason::WorktreeSeed)) || pin == (Pin {
                    snapshot_id: reservation.seed_snapshot_id,
                    owner: PinOwner::WatchIndexedHead(ids.watch_id),
                    reason: PinReason::WorktreeSeedIndex,
                }) || pin == (Pin {
                    snapshot_id: reservation.seed_snapshot_id,
                    owner: PinOwner::WatchLastCut(ids.watch_id),
                    reason: PinReason::WorktreeSeedCut,
                })
            &&& exists|i: int|
                0 <= i < after.topology_leases@.len() && #[trigger] after.topology_leases@[i] == (
                TopologyLease { lease_owner: None, lease_expires_ns: None, ..lease })
        },
{
    if let Ok(made) = published {
        lemma_place(before.operations@, reservation.operation_id, 0);
        lemma_place(before.worktrees@, reservation.worktree_id, 0);
        lemma_place(before.watches@, ids.watch_id, 0);
        lemma_place(before.grants@, ids.grant_id, 0);
        lemma_slot(before.topology_leases@, reservation.filesystem_id, 0);
        let at = place(before.operations@, reservation.operation_id)->0;
        lemma_others(before.operations@, at, after.operations@[at]);
        let worktree_at = place(before.worktrees@, reservation.worktree_id)->0;
        lemma_others(before.worktrees@, worktree_at, after.worktrees@[worktree_at]);
        lemma_place_pushed(before.watches@, after.watches@.last(), ids.watch_id, 0);
        lemma_place_pushed(before.grants@, after.grants@.last(), ids.grant_id, 0);
        let lease_at = slot(before.topology_leases@, reservation.filesystem_id)->0;
        assert(after.topology_leases@[lease_at].lease_owner is None);
        let gone = pins_for(
            reservation.seed_snapshot_id,
            PinOwner::Operation(reservation.operation_id),
            PinReason::WorktreeSeed,
        );
        let index_head = Pin {
            snapshot_id: reservation.seed_snapshot_id,
            owner: PinOwner::WatchIndexedHead(ids.watch_id),
            reason: PinReason::WorktreeSeedIndex,
        };
        let cut_head = Pin {
            snapshot_id: reservation.seed_snapshot_id,
            owner: PinOwner::WatchLastCut(ids.watch_id),
            reason: PinReason::WorktreeSeedCut,
        };
        let left = removing(before.pins@, gone);
        let n = left.len() as int;
        assert forall|pin: Pin|
            #[trigger] after.pins@.contains(pin) <==> (before.pins@.contains(pin) && !(
            pin.snapshot_id == reservation.seed_snapshot_id && pin.owner == PinOwner::Operation(
                reservation.operation_id,
            ) && pin.reason == PinReason::WorktreeSeed)) || pin == index_head || pin
                == cut_head by {
            law_removing(before.pins@, gone, pin);
            assert(after.pins@[n] == index_head);
            assert(after.pins@[n + 1] == cut_head);
            if left.contains(pin) {
                let i = choose|i: int| 0 <= i < left.len() && left[i] == pin;
                assert(after.pins@[i] == pin);
            }
            if after.pins@.contains(pin) {
                let i = choose|i: int| 0 <= i < after.pins@.len() && after.pins@[i] == pin;
                if i < n {
                    assert(left[i] == pin);
                }
            }
        }
    }
}

} // verus!
