//! Making a worktree, from its policy to its own watch.

use crate::digest::{drawn, random_id};
use crate::manager::facade::{activates_facade, finalizes_seed, invalidates_facade};
use crate::manager::rows::{no_rows, Store};
use crate::manager::types::{
    holds, policy_anchored, same_policy, worktree_policy_hash, FacadeActivation, ManagerError,
    ProvedWorktreeSeed, PublishedCut, TrackedWorktree, WorktreePolicy, WorktreeRequest,
    WorktreeReservation,
};
use crate::manager::worktrees::{
    prepares_publication, provisions_policy, publishes_worktree, records_worktree,
    reserves_worktree, starts_worktree, ChildIds, WorktreeIds,
};
use crate::names::{hex, operation_name_as, WORKTREE_PREFIX};
use crate::namespace::NamespaceMonitor;
use crate::paths::{begins_with, file_name, join, joined, last_name, starts_with};
use crate::service::checks::{
    derived_effect_id, effect_id, relative_directory, relative_directory_bytes, ExpectedSubvolume,
};
use crate::service::config::{
    expiry_of, lease_expiry, PublishedWorktree, ServiceError, WorktreeOptions, WorktreeViewHandoff,
};
use crate::service::decode::RecoveringWorktree;
use crate::service::flow::{carries, carry, path_of, KeptHandoff, Service};
use crate::text::{copy_bytes, in_context, is_text, same_array};
use vstd::prelude::*;

verus! {

/// What the clone of a worktree is called in the identifier of its effect.
pub const CREATE_LABEL: [u8; 6] = [99, 114, 101, 97, 116, 101];

/// The subvolume that a directory is the root of.
#[derive(Clone, Copy, Debug, Eq, PartialEq)]
pub struct RootSubvolume {
    pub fs_uuid: [u8; 16],
    pub subvol_uuid: [u8; 16],
}

/// What was found out of the root below which worktrees may be made.
#[derive(Debug)]
pub struct PolicyRootReport {
    pub opened: Result<RootSubvolume, String>,
    /// Its true path.
    pub canonical: Result<Vec<u8>, String>,
    pub generation: Result<u64, String>,
}

/// Why worktrees cannot be made below the root.
pub open spec fn policy_root_fault(root: PolicyRootReport) -> Option<Seq<char>> {
    match (root.opened, root.canonical, root.generation) {
        (Err(cause), _, _) => Some(in_context("open Worktree destination root"@, cause@)),
        (_, Err(cause), _) => Some(in_context("canonicalize Worktree policy root"@, cause@)),
        (_, _, Err(cause)) => Some(
            in_context("read Worktree policy-root inode generation"@, cause@),
        ),
        _ => None,
    }
}

/// Whether the policy is that for private trees below the root.
pub open spec fn sanitized_policy(
    policy: WorktreePolicy,
    root: PolicyRootReport,
    policy_id: [u8; 16],
) -> bool {
    &&& policy_anchored(policy)
    &&& policy.destination_root_path@ == root.canonical->Ok_0@
    &&& policy.metadata_policy@ == "sanitized-private-user-tree"@
    &&& policy == (WorktreePolicy {
        policy_id,
        destination_fs_uuid: root.opened->Ok_0.fs_uuid,
        destination_root_subvol_uuid: root.opened->Ok_0.subvol_uuid,
        destination_root_path: policy.destination_root_path,
        destination_root_generation: root.generation->Ok_0,
        metadata_policy: policy.metadata_policy,
        allow_idmapped: false,
        policy_hash: policy.policy_hash,
    })
}

/// What giving a grant the policy below the root does, under the identifier.
pub open spec fn provisions_sanitized(
    before: Store,
    after: Store,
    watch_id: [u8; 16],
    authorization_id: [u8; 16],
    root: PolicyRootReport,
    now_ns: i64,
    policy_id: [u8; 16],
    provisioned: Result<WorktreePolicy, ServiceError>,
) -> bool {
    match policy_root_fault(root) {
        Some(fault) => {
            &&& after == before
            &&& provisioned matches Err(error)
            &&& error@ == fault
        },
        None => exists|policy: WorktreePolicy, inner: Result<(), ManagerError>| #[trigger]
            provisions_policy(
                before,
                after,
                watch_id,
                authorization_id,
                policy,
                now_ns,
                inner,
            ) && sanitized_policy(policy, root, policy_id) && match inner {
                Ok(_) => provisioned == Ok::<WorktreePolicy, ServiceError>(policy),
                Err(fault) => {
                    &&& provisioned matches Err(error)
                    &&& error@ == in_context("provision Worktree policy"@, fault@)
                },
            },
    }
}

/// What was found out of where a worktree is to be.
#[derive(Debug)]
pub struct SiteReport {
    pub root: Result<RootSubvolume, String>,
    pub root_generation: Result<u64, String>,
    /// The true paths of the root and of the directory.
    pub canonical_root: Result<Vec<u8>, String>,
    pub canonical_parent: Result<Vec<u8>, String>,
}

/// What was found out of the directory that a worktree is to be in, and of the
/// reservation there.
#[derive(Debug)]
pub struct DestinationReport {
    pub opened: Result<(), String>,
    pub ino: Result<u64, String>,
    pub reservation_ino: Result<u64, String>,
    pub reservation_opened: Result<(), String>,
    pub generation: Result<u64, String>,
    pub reservation_generation: Result<u64, String>,
}

/// Why the root is not that of the policy.
pub open spec fn root_fault(policy: WorktreePolicy, site: SiteReport) -> Option<Seq<char>> {
    match site.root {
        Err(cause) => Some(in_context("reopen Worktree policy root"@, cause@)),
        Ok(root) => if root.fs_uuid != policy.destination_fs_uuid || root.subvol_uuid
            != policy.destination_root_subvol_uuid {
            Some("Worktree destination policy root changed"@)
        } else {
            match site.root_generation {
                Err(cause) => Some(
                    in_context("recheck Worktree policy-root inode generation"@, cause@),
                ),
                Ok(generation) => if generation != policy.destination_root_generation {
                    Some("Worktree destination policy root changed"@)
                } else {
                    None
                },
            }
        },
    }
}

/// The way from the root to the directory of a worktree, or why there is none.
pub open spec fn site_parent(policy: WorktreePolicy, site: SiteReport) -> Result<
    Seq<u8>,
    Seq<char>,
> {
    if root_fault(policy, site) is Some {
        Err(root_fault(policy, site)->0)
    } else {
        match (site.canonical_root, site.canonical_parent) {
            (Err(cause), _) => Err(in_context("canonicalize Worktree root"@, cause@)),
            (_, Err(cause)) => Err(in_context("canonicalize Worktree parent"@, cause@)),
            (Ok(root), Ok(parent)) => if !begins_with(parent@, root@) {
                Err("Worktree destination parent is outside its policy root"@)
            } else {
                relative_directory(root@, parent@)
            },
        }
    }
}

/// Why the directory of a worktree cannot be used.
pub open spec fn destination_fault(destination: DestinationReport) -> Option<Seq<char>> {
    match (
        destination.opened,
        destination.ino,
        destination.reservation_ino,
        destination.reservation_opened,
        destination.generation,
        destination.reservation_generation,
    ) {
        (Err(cause), _, _, _, _, _) => Some(
            in_context("open Worktree destination parent"@, cause@),
        ),
        (_, Err(cause), _, _, _, _) => Some(in_context("inspect Worktree destination"@, cause@)),
        (_, _, Err(cause), _, _, _) => Some(in_context("inspect Worktree reservation"@, cause@)),
        (_, _, _, Err(cause), _, _) => Some(
            in_context("open Worktree reservation generation"@, cause@),
        ),
        (_, _, _, _, Err(cause), _) => Some(
            in_context("read destination inode generation"@, cause@),
        ),
        (_, _, _, _, _, Err(cause)) => Some(
            in_context("read reservation inode generation"@, cause@),
        ),
        _ => None,
    }
}

/// The identifiers that planning a worktree makes.
#[derive(Clone, Copy, Debug, Eq, PartialEq)]
pub struct PlanIds {
    pub name_id: [u8; 16],
    pub reserved: WorktreeIds,
}

impl PlanIds {
    /// Whether each of them has the version and the variant of a random
    /// identifier.
    pub open spec fn drawn(self) -> bool {
        &&& drawn(self.name_id)
        &&& self.reserved.drawn()
    }
}

/// A clone that is to be made for a worktree.
#[derive(Clone, Debug, Eq, PartialEq)]
pub struct WorktreePlan {
    pub reservation: WorktreeReservation,
    pub staging_name: Vec<u8>,
    pub staging_path: Vec<u8>,
    pub seed_path: Vec<u8>,
    pub final_path: Vec<u8>,
    pub relative_parent: Vec<u8>,
    /// Under which the clone is requested.
    pub create_id: [u8; 16],
}

/// Whether the request asks for the worktree.
pub open spec fn asks_for(
    service: Service,
    policy: WorktreePolicy,
    options: WorktreeOptions,
    site: SiteReport,
    destination: DestinationReport,
    expires_ns: i64,
    name_id: [u8; 16],
    request: WorktreeRequest,
) -> bool {
    &&& same_policy(request.policy, policy)
    &&& request.staged_path@ == joined(
        service.config.managed_snapshot_directory@,
        WORKTREE_PREFIX@ + hex(name_id@),
    )
    &&& request.final_path@ == joined(
        site.canonical_parent->Ok_0@,
        options.destination_name@,
    )
    &&& request.destination_name@ == options.destination_name@
    &&& request.reservation_name@ == options.reservation_name@
    &&& request == (WorktreeRequest {
        watch_id: options.watch_id,
        authorization_id: options.authorization_id,
        policy: request.policy,
        staged_path: request.staged_path,
        final_path: request.final_path,
        destination_parent_subvol_uuid: site.root->Ok_0.subvol_uuid,
        destination_parent_ino: destination.ino->Ok_0,
        destination_parent_generation: destination.generation->Ok_0,
        destination_name: request.destination_name,
        reservation_name: request.reservation_name,
        reservation_ino: destination.reservation_ino->Ok_0,
        reservation_generation: destination.reservation_generation->Ok_0,
        reservation_nonce: options.reservation_nonce,
        requester_uid: options.requester_uid,
        requester_gid: options.requester_gid,
        lease_owner: service.lease_owner,
        now_ns: options.now_ns,
        lease_expires_ns: expires_ns,
    })
}

/// What starting the effect of a reserved worktree does.
pub open spec fn begins_worktree(
    service: Service,
    middle: Store,
    after: Store,
    request: WorktreeRequest,
    relative: Seq<u8>,
    name_id: [u8; 16],
    reservation: WorktreeReservation,
    planned: Result<WorktreePlan, ServiceError>,
) -> bool {
    exists|started: Result<(), ManagerError>| #[trigger]
        starts_worktree(
            middle,
            after,
            reservation,
            service.lease_owner,
            request.now_ns,
            started,
        ) && match started {
            Err(fault) => {
                &&& planned matches Err(error)
                &&& error@ == in_context("start Worktree effect"@, fault@)
            },
            Ok(_) => match (path_of(after, reservation.seed_snapshot_id), planned) {
                (Some(seed), Ok(plan)) => {
                    &&& plan.reservation == reservation
                    &&& plan.staging_name@ == WORKTREE_PREFIX@ + hex(name_id@)
                    &&& plan.staging_path@ == request.staged_path@
                    &&& plan.seed_path@ == seed
                    &&& plan.final_path@ == request.final_path@
                    &&& plan.relative_parent@ == relative
                    &&& plan.create_id@ == effect_id(reservation.operation_id@, CREATE_LABEL@)
                },
                (None, Err(error)) => error@ == in_context("load snapshot path"@, no_rows()),
                _ => false,
            },
        }
}

/// What reserving a worktree does, where its lease lasts that long.
pub open spec fn plans_until(
    before: Service,
    after: Store,
    policy: WorktreePolicy,
    options: WorktreeOptions,
    anchor: PublishedCut,
    site: SiteReport,
    destination: DestinationReport,
    expires_ns: i64,
    ids: PlanIds,
    planned: Result<WorktreePlan, ServiceError>,
) -> bool {
    exists|
        request: WorktreeRequest,
        middle: Store,
        reserved: Result<WorktreeReservation, ManagerError>,
    | #[trigger]
        reserves_worktree(before.store, middle, request, ids.reserved, reserved) && asks_for(
            before,
            policy,
            options,
            site,
            destination,
            expires_ns,
            ids.name_id,
            request,
        ) && match reserved {
            Err(fault) => {
                &&& after == middle
                &&& planned matches Err(error)
                &&& error@ == in_context("reserve Worktree"@, fault@)
            },
            Ok(reservation) => if reservation.seed_snapshot_id != anchor.snapshot_id
                || reservation.seed_revision_id != anchor.revision_id {
                &&& after == middle
                &&& planned matches Err(error)
                &&& error@ == "Worktree seed differs from its anchor cut"@
            } else {
                begins_worktree(
                    before,
                    middle,
                    after,
                    request,
                    site_parent(policy, site)->Ok_0,
                    ids.name_id,
                    reservation,
                    planned,
                )
            },
        }
}

/// Why a worktree cannot be asked for.
pub open spec fn ask_fault(
    policy: WorktreePolicy,
    site: SiteReport,
    destination: DestinationReport,
) -> Option<Seq<char>> {
    match site_parent(policy, site) {
        Err(fault) => Some(fault),
        Ok(_) => destination_fault(destination),
    }
}

/// What planning a worktree does, seeded from the anchor cut.
pub open spec fn plans_worktree(
    before: Service,
    after: Service,
    policy: WorktreePolicy,
    options: WorktreeOptions,
    anchor: PublishedCut,
    site: SiteReport,
    destination: DestinationReport,
    ids: PlanIds,
    planned: Result<WorktreePlan, ServiceError>,
) -> bool {
    &&& after == (Service { store: after.store, ..before })
    &&& match ask_fault(policy, site, destination) {
        Some(fault) => {
            &&& after == before
            &&& planned matches Err(error)
            &&& error@ == fault
        },
        None => match expiry_of(options.now_ns, before.config.lease_ns) {
            Err(fault) => {
                &&& after == before
                &&& planned matches Err(error)
                &&& error@ == fault
            },
            Ok(expires_ns) => plans_until(
                before,
                after.store,
                policy,
                options,
                anchor,
                site,
                destination,
                expires_ns,
                ids,
                planned,
            ),
        },
    }
}

/// What claiming the topology for a worktree does, where the claim lasts that
/// long.
pub open spec fn claims_until(
    before: Store,
    after: Store,
    reservation: WorktreeReservation,
    owner: [u8; 16],
    final_path: Seq<u8>,
    now_ns: i64,
    expires_ns: i64,
    step: Seq<char>,
    fence: Result<i64, ServiceError>,
) -> bool {
    exists|inner: Result<i64, ManagerError>| #[trigger]
        prepares_publication(
            before,
            after,
            reservation,
            owner,
            final_path,
            now_ns,
            expires_ns,
            inner,
        ) && carries(inner, fence, step)
}

/// What claiming the topology for a worktree does.
pub open spec fn claims_topology(
    before: Store,
    after: Store,
    reservation: WorktreeReservation,
    owner: [u8; 16],
    final_path: Seq<u8>,
    now_ns: i64,
    lease_ns: i64,
    step: Seq<char>,
    fence: Result<i64, ServiceError>,
) -> bool {
    match expiry_of(now_ns, lease_ns) {
        Err(fault) => {
            &&& after == before
            &&& fence matches Err(error)
            &&& error@ == fault
        },
        Ok(expires_ns) => claims_until(
            before,
            after,
            reservation,
            owner,
            final_path,
            now_ns,
            expires_ns,
            step,
            fence,
        ),
    }
}

/// What recording the clone of a worktree does.
pub open spec fn prepares_worktree(
    before: Service,
    after: Service,
    plan: WorktreePlan,
    staged: ExpectedSubvolume,
    now_ns: i64,
    fence: Result<i64, ServiceError>,
) -> bool {
    &&& after == (Service { store: after.store, ..before })
    &&& if before.config.fault_after_worktree_create {
        &&& after == before
        &&& fence matches Err(error)
        &&& error@ == "injected failure after Worktree clone effect"@
    } else {
        exists|middle: Store, inner: Result<(), ManagerError>| #[trigger]
            records_worktree(
                before.store,
                middle,
                plan.reservation,
                before.lease_owner,
                staged.subvolume_uuid,
                staged.parent_uuid,
                now_ns,
                inner,
            ) && match inner {
                Err(fault) => {
                    &&& after.store == middle
                    &&& fence matches Err(error)
                    &&& error@ == in_context("record writable clone"@, fault@)
                },
                Ok(_) => claims_topology(
                    middle,
                    after.store,
                    plan.reservation,
                    before.lease_owner,
                    plan.final_path@,
                    now_ns,
                    before.config.lease_ns,
                    "prepare Worktree publication"@,
                    fence,
                ),
            }
    }
}

/// Where a view is kept for the watch.
pub open spec fn kept_at(handoffs: Seq<KeptHandoff>, watch_id: [u8; 16], from: int) -> Option<int>
    decreases handoffs.len() - from,
{
    if from < 0 || from >= handoffs.len() {
        None
    } else if handoffs[from].watch_id == watch_id {
        Some(from)
    } else {
        kept_at(handoffs, watch_id, from + 1)
    }
}

/// The views that are kept once that of the watch is.
pub open spec fn keeping(
    handoffs: Seq<KeptHandoff>,
    watch_id: [u8; 16],
    handoff: WorktreeViewHandoff,
) -> Seq<KeptHandoff> {
    let kept = KeptHandoff { watch_id, handoff };
    match kept_at(handoffs, watch_id, 0) {
        Some(at) => handoffs.update(at, kept),
        None => handoffs.push(kept),
    }
}

/// What taking a facade down again does, whether or not it can be.
pub open spec fn takes_down(
    before: Store,
    after: Store,
    activation: FacadeActivation,
    epoch: [u8; 16],
) -> bool {
    exists|inner: Result<(), ManagerError>| #[trigger]
        invalidates_facade(before, after, activation, epoch, inner)
}

/// The epochs that offering the view of a new worktree makes.
#[derive(Clone, Copy, Debug, Eq, PartialEq)]
pub struct ViewEpochs {
    pub activated: [u8; 16],
    pub invalidated: [u8; 16],
}

impl ViewEpochs {
    /// Whether each of them has the version and the variant of a random
    /// identifier.
    pub open spec fn drawn(self) -> bool {
        &&& drawn(self.activated)
        &&& drawn(self.invalidated)
    }
}

/// What goes on with an activated view: it is kept where its seed is proved,
/// and else taken down.
pub open spec fn seeds_view(
    before: Service,
    after: Service,
    middle: Store,
    child: TrackedWorktree,
    monitor: NamespaceMonitor,
    activation: FacadeActivation,
    epoch: [u8; 16],
) -> bool {
    exists|second: Store, inner: Result<ProvedWorktreeSeed, ManagerError>| #[trigger]
        finalizes_seed(middle, second, activation, monitor.bound(), inner) && match inner {
            Ok(seed) => {
                &&& after.store == second
                &&& after.worktree_view_handoffs@ == keeping(
                    before.worktree_view_handoffs@,
                    child.watch_id,
                    WorktreeViewHandoff {
                        authorization_id: child.grant_id,
                        activation,
                        monitor,
                        snapshot_uuid: seed.snapshot_uuid,
                    },
                )
            },
            Err(_) => {
                &&& takes_down(second, after.store, activation, epoch)
                &&& after.worktree_view_handoffs == before.worktree_view_handoffs
            },
        }
}

/// What offering the view of a new worktree does, where it was monitored.
pub open spec fn offers_view(
    before: Service,
    after: Service,
    middle: Store,
    child: TrackedWorktree,
    view: Option<NamespaceMonitor>,
    epochs: ViewEpochs,
) -> bool {
    match view {
        None => after.store == middle && after.worktree_view_handoffs
            == before.worktree_view_handoffs,
        Some(monitor) => exists|
            first: Store,
            inner: Result<FacadeActivation, ManagerError>,
        | #[trigger]
            activates_facade(
                middle,
                first,
                child.watch_id,
                child.grant_id,
                monitor.bound(),
                epochs.activated,
                inner,
            ) && match inner {
                Ok(activation) => seeds_view(
                    before,
                    after,
                    first,
                    child,
                    monitor,
                    activation,
                    epochs.invalidated,
                ),
                Err(_) => after.store == first && after.worktree_view_handoffs
                    == before.worktree_view_handoffs,
            },
    }
}

/// What publishing a worktree that was moved to its place does.
pub open spec fn publishes_plan(
    before: Service,
    after: Service,
    plan: WorktreePlan,
    topology_fence: i64,
    subvol_uuid: [u8; 16],
    now_ns: i64,
    view: Option<NamespaceMonitor>,
    ids: ChildIds,
    epochs: ViewEpochs,
    published: Result<PublishedWorktree, ServiceError>,
) -> bool {
    &&& after == (Service {
        store: after.store,
        worktree_view_handoffs: after.worktree_view_handoffs,
        ..before
    })
    &&& if before.config.fault_after_worktree_publish {
        &&& after == before
        &&& published matches Err(error)
        &&& error@ == "injected failure after Worktree publication effect"@
    } else {
        exists|middle: Store, inner: Result<TrackedWorktree, ManagerError>| #[trigger]
            publishes_worktree(
                before.store,
                middle,
                plan.reservation,
                before.lease_owner,
                topology_fence,
                subvol_uuid,
                now_ns,
                ids,
                inner,
            ) && match inner {
                Err(fault) => {
                    &&& after == (Service { store: middle, ..before })
                    &&& published matches Err(error)
                    &&& error@ == in_context("publish Worktree metadata"@, fault@)
                },
                Ok(child) => {
                    &&& offers_view(before, after, middle, child, view, epochs)
                    &&& published == Ok::<PublishedWorktree, ServiceError>(
                        PublishedWorktree {
                            worktree_id: plan.reservation.worktree_id,
                            watch_id: child.watch_id,
                            grant_id: child.grant_id,
                            subvol_uuid,
                            path: plan.final_path,
                            seed_revision_id: plan.reservation.seed_revision_id,
                            seed_snapshot_id: plan.reservation.seed_snapshot_id,
                        },
                    )
                },
            }
    }
}

/// How a worktree is taken up that an earlier process began.
#[derive(Clone, Copy, Debug, Eq, PartialEq, Structural)]
pub enum WorktreeResume {
    /// The clone may be missing.
    Clone,
    /// Only its place is missing.
    Publish,
}

/// How a worktree is taken up.
pub fn resume_worktree(operation: &RecoveringWorktree) -> (resume: Result<
    WorktreeResume,
    ServiceError,
>)
    ensures
        if operation.state@ == "fs_started"@ {
            resume == Ok::<WorktreeResume, ServiceError>(WorktreeResume::Clone)
        } else if operation.state@ == "awaiting_destination"@ {
            resume == Ok::<WorktreeResume, ServiceError>(WorktreeResume::Publish)
        } else {
            &&& resume matches Err(error)
            &&& error@ == "invalid Worktree recovery state"@
        },
{
    if is_text(operation.state.as_str(), "fs_started") {
        Ok(WorktreeResume::Clone)
    } else if is_text(operation.state.as_str(), "awaiting_destination") {
        Ok(WorktreeResume::Publish)
    } else {
        Err(ServiceError::new("invalid Worktree recovery state"))
    }
}

/// The clone that is to be made or found for a worktree.
#[derive(Clone, Debug, Eq, PartialEq)]
pub struct RecoveredClone {
    pub staging_name: Vec<u8>,
    pub create_id: [u8; 16],
}

/// The clone that is to be made or found for a worktree that is taken up.
/// `seed` is whether its seed could be opened.
pub fn plan_recovered_clone(operation: &RecoveringWorktree, seed: &Result<(), String>) -> (clone:
    Result<RecoveredClone, ServiceError>)
    ensures
        match (*seed, last_name(operation.staged_path@)) {
            (Err(cause), _) => {
                &&& clone matches Err(error)
                &&& error@ == in_context("open recovered Worktree seed"@, cause@)
            },
            (_, None) => {
                &&& clone matches Err(error)
                &&& error@ == "recovery Worktree staging path has no basename"@
            },
            (Ok(_), Some(last)) => {
                &&& clone matches Ok(clone)
                &&& clone.staging_name@ == last
                &&& clone.create_id@ == effect_id(
                    operation.reservation.operation_id@,
                    CREATE_LABEL@,
                )
            },
        },
{
    if let Err(cause) = seed {
        return Err(ServiceError::context("open recovered Worktree seed", cause.as_str()));
    }
    match file_name(&operation.staged_path) {
        None => Err(ServiceError::new("recovery Worktree staging path has no basename")),
        Some(staging_name) => {
            let label: [u8; 6] = CREATE_LABEL;
            Ok(
                RecoveredClone {
                    staging_name,
                    create_id: derived_effect_id(&operation.reservation.operation_id, &label),
                },
            )
        },
    }
}

/// Why the root is not that of the worktree that is taken up.
pub open spec fn recovered_root_fault(
    operation: RecoveringWorktree,
    root: Result<[u8; 16], String>,
    generation: Result<u64, String>,
) -> Option<Seq<char>> {
    match root {
        Err(cause) => Some(in_context("open Worktree recovery policy root"@, cause@)),
        Ok(uuid) => if uuid != operation.destination_root_uuid {
            Some("Worktree recovery policy root changed"@)
        } else {
            match generation {
                Err(cause) => Some(
                    in_context("verify Worktree recovery root generation"@, cause@),
                ),
                Ok(generation) => if generation != operation.destination_root_generation {
                    Some("Worktree recovery policy root changed"@)
                } else {
                    None
                },
            }
        },
    }
}

/// Checks that the root is that of the worktree that is taken up.
pub fn check_recovered_root(
    operation: &RecoveringWorktree,
    root: &Result<[u8; 16], String>,
    generation: &Result<u64, String>,
) -> (checked: Result<(), ServiceError>)
    ensures
        match checked {
            Ok(_) => recovered_root_fault(*operation, *root, *generation) is None,
            Err(error) => recovered_root_fault(*operation, *root, *generation) == Some(error@),
        },
{
    match root {
        Err(cause) => Err(
            ServiceError::context("open Worktree recovery policy root", cause.as_str()),
        ),
        Ok(uuid) => {
            if !same_array(uuid, &operation.destination_root_uuid) {
                return Err(ServiceError::new("Worktree recovery policy root changed"));
            }
            match generation {
                Err(cause) => Err(
                    ServiceError::context(
                        "verify Worktree recovery root generation",
                        cause.as_str(),
                    ),
                ),
                Ok(generation) => if *generation != operation.destination_root_generation {
                    Err(ServiceError::new("Worktree recovery policy root changed"))
                } else {
                    Ok(())
                },
            }
        },
    }
}

/// What was found out of the directory of a worktree that is taken up.
#[derive(Debug)]
pub struct RecoveredParent {
    pub path: Vec<u8>,
    pub opened: Result<(), String>,
    pub ino: Result<u64, String>,
    /// Whether the managed directory could be opened.
    pub staging: Result<(), String>,
}

/// The way from the root to the directory of a worktree that is taken up, or
/// why it cannot be used.
pub open spec fn recovered_parent(operation: RecoveringWorktree, parent: RecoveredParent) -> Result<
    Seq<u8>,
    Seq<char>,
> {
    match relative_directory(operation.destination_root_path@, parent.path@) {
        Err(fault) => Err(fault),
        Ok(relative) => match (parent.opened, parent.ino) {
            (Err(cause), _) => Err(in_context("open Worktree recovery destination"@, cause@)),
            (_, Err(cause)) => Err(in_context("inspect Worktree recovery destination"@, cause@)),
            (Ok(_), Ok(ino)) => if ino != operation.destination_parent_ino {
                Err("Worktree recovery destination identity changed"@)
            } else {
                match parent.staging {
                    Err(cause) => Err(
                        in_context("open Worktree recovery staging parent"@, cause@),
                    ),
                    Ok(_) => Ok(relative),
                }
            },
        },
    }
}

fn find_recovered_parent(operation: &RecoveringWorktree, parent: &RecoveredParent) -> (relative:
    Result<Vec<u8>, ServiceError>)
    ensures
        match relative {
            Ok(relative) => recovered_parent(*operation, *parent) == Ok::<Seq<u8>, Seq<char>>(
                relative@,
            ),
            Err(error) => recovered_parent(*operation, *parent) == Err::<Seq<u8>, Seq<char>>(
                error@,
            ),
        },
{
    let relative = match relative_directory_bytes(&operation.destination_root_path, &parent.path) {
        Ok(relative) => relative,
        Err(error) => {
            return Err(error);
        },
    };
    if let Err(cause) = &parent.opened {
        return Err(ServiceError::context("open Worktree recovery destination", cause.as_str()));
    }
    match &parent.ino {
        Err(cause) => {
            return Err(
                ServiceError::context("inspect Worktree recovery destination", cause.as_str()),
            );
        },
        Ok(ino) => if *ino != operation.destination_parent_ino {
            return Err(ServiceError::new("Worktree recovery destination identity changed"));
        },
    }
    if let Err(cause) = &parent.staging {
        return Err(ServiceError::context("open Worktree recovery staging parent", cause.as_str()));
    }
    Ok(relative)
}

/// The place of a worktree that is taken up, claimed.
#[derive(Clone, Debug, Eq, PartialEq)]
pub struct RecoveredPlace {
    pub relative_parent: Vec<u8>,
    pub topology_fence: i64,
}

/// What claiming the place of a worktree that is taken up does.
pub open spec fn claims_place(
    before: Service,
    after: Service,
    operation: RecoveringWorktree,
    parent: RecoveredParent,
    now_ns: i64,
    claimed: Result<RecoveredPlace, ServiceError>,
) -> bool {
    &&& after == (Service { store: after.store, ..before })
    &&& match recovered_parent(operation, parent) {
        Err(fault) => {
            &&& after == before
            &&& claimed matches Err(error)
            &&& error@ == fault
        },
        Ok(relative) => {
            let fence = match claimed {
                Ok(place) => Ok(place.topology_fence),
                Err(error) => Err(error),
            };
            &&& claims_topology(
                before.store,
                after.store,
                operation.reservation,
                operation.lease_owner,
                joined(parent.path@, operation.destination_name@),
                now_ns,
                before.config.lease_ns,
                "prepare recovered Worktree publication"@,
                fence,
            )
            &&& claimed matches Ok(place) ==> place.relative_parent@ == relative
        },
    }
}

/// What was found out of the reservation of a worktree that is taken up.
#[derive(Debug)]
pub struct RecoveredReservation {
    pub ino: Result<u64, String>,
    pub opened: Result<(), String>,
    pub generation: Result<u64, String>,
}

/// The name of the staged clone, or why the reservation is not the one that
/// the worktree was asked for with.
pub open spec fn recovered_name(
    operation: RecoveringWorktree,
    reservation: RecoveredReservation,
) -> Result<Seq<u8>, Seq<char>> {
    match (reservation.ino, reservation.opened) {
        (Err(cause), _) => Err(in_context("inspect Worktree recovery reservation"@, cause@)),
        (_, Err(cause)) => Err(in_context("open Worktree recovery reservation"@, cause@)),
        (Ok(ino), Ok(_)) => if ino != operation.reservation_ino {
            Err("Worktree recovery reservation identity changed"@)
        } else {
            match reservation.generation {
                Err(cause) => Err(in_context("verify Worktree reservation generation"@, cause@)),
                Ok(generation) => if generation != operation.reservation_generation {
                    Err("Worktree recovery reservation identity changed"@)
                } else {
                    match last_name(operation.staged_path@) {
                        Some(last) => Ok(last),
                        None => Err("staged Worktree path has no basename"@),
                    }
                },
            }
        },
    }
}

/// The name of the staged clone of a worktree that is taken up, where the
/// reservation is the one that it was asked for with.
pub fn check_recovered_reservation(
    operation: &RecoveringWorktree,
    reservation: &RecoveredReservation,
) -> (name: Result<Vec<u8>, ServiceError>)
    ensures
        match name {
            Ok(name) => recovered_name(*operation, *reservation) == Ok::<Seq<u8>, Seq<char>>(name@),
            Err(error) => recovered_name(*operation, *reservation) == Err::<Seq<u8>, Seq<char>>(
                error@,
            ),
        },
{
    let ino: u64 = match &reservation.ino {
        Ok(ino) => *ino,
        Err(cause) => {
            return Err(
                ServiceError::context("inspect Worktree recovery reservation", cause.as_str()),
            );
        },
    };
    if let Err(cause) = &reservation.opened {
        return Err(ServiceError::context("open Worktree recovery reservation", cause.as_str()));
    }
    if ino != operation.reservation_ino {
        return Err(ServiceError::new("Worktree recovery reservation identity changed"));
    }
    match &reservation.generation {
        Err(cause) => {
            return Err(
                ServiceError::context("verify Worktree reservation generation", cause.as_str()),
            );
        },
        Ok(generation) => if *generation != operation.reservation_generation {
            return Err(ServiceError::new("Worktree recovery reservation identity changed"));
        },
    }
    match file_name(&operation.staged_path) {
        Some(name) => Ok(name),
        None => Err(ServiceError::new("staged Worktree path has no basename")),
    }
}

/// What recording the clone of a worktree that is taken up does.
pub open spec fn records_recovered(
    before: Store,
    after: Store,
    operation: RecoveringWorktree,
    created: ExpectedSubvolume,
    now_ns: i64,
    recorded: Result<(), ServiceError>,
) -> bool {
    exists|inner: Result<(), ManagerError>| #[trigger]
        records_worktree(
            before,
            after,
            operation.reservation,
            operation.lease_owner,
            created.subvolume_uuid,
            created.parent_uuid,
            now_ns,
            inner,
        ) && carries(inner, recorded, "record recovered Worktree clone"@)
}

/// What finishing a worktree that is taken up does.
pub open spec fn finishes_recovered(
    before: Service,
    after: Service,
    operation: RecoveringWorktree,
    topology_fence: i64,
    published_uuid: [u8; 16],
    now_ns: i64,
    ids: ChildIds,
    finished: Result<TrackedWorktree, ServiceError>,
) -> bool {
    &&& after == (Service { store: after.store, ..before })
    &&& if operation.discovered_uuid != Some(published_uuid) {
        &&& after == before
        &&& finished matches Err(error)
        &&& error@ == "recovered Worktree UUID differs from manager intent"@
    } else if before.config.fault_after_worktree_publish {
        &&& after == before
        &&& finished matches Err(error)
        &&& error@ == "injected failure after Worktree publication effect"@
    } else {
        exists|inner: Result<TrackedWorktree, ManagerError>| #[trigger]
            publishes_worktree(
                before.store,
                after.store,
                operation.reservation,
                operation.lease_owner,
                topology_fence,
                published_uuid,
                now_ns,
                ids,
                inner,
            ) && carries(inner, finished, "publish recovered Worktree metadata"@)
    }
}

fn check_root(policy: &WorktreePolicy, site: &SiteReport) -> (checked: Result<(), ServiceError>)
    ensures
        match checked {
            Ok(_) => root_fault(*policy, *site) is None,
            Err(error) => root_fault(*policy, *site) == Some(error@),
        },
{
    match &site.root {
        Err(cause) => Err(ServiceError::context("reopen Worktree policy root", cause.as_str())),
        Ok(root) => {
            if !same_array(&root.fs_uuid, &policy.destination_fs_uuid) || !same_array(
                &root.subvol_uuid,
                &policy.destination_root_subvol_uuid,
            ) {
                return Err(ServiceError::new("Worktree destination policy root changed"));
            }
            match &site.root_generation {
                Err(cause) => Err(
                    ServiceError::context(
                        "recheck Worktree policy-root inode generation",
                        cause.as_str(),
                    ),
                ),
                Ok(generation) => if *generation != policy.destination_root_generation {
                    Err(ServiceError::new("Worktree destination policy root changed"))
                } else {
                    Ok(())
                },
            }
        },
    }
}

/// The way from the root to the directory of a worktree, below which its
/// policy allows it.
pub fn find_site_parent(policy: &WorktreePolicy, site: &SiteReport) -> (relative: Result<
    Vec<u8>,
    ServiceError,
>)
    ensures
        match relative {
            Ok(relative) => site_parent(*policy, *site) == Ok::<Seq<u8>, Seq<char>>(relative@),
            Err(error) => site_parent(*policy, *site) == Err::<Seq<u8>, Seq<char>>(error@),
        },
{
    match check_root(policy, site) {
        Ok(_) => {},
        Err(error) => {
            return Err(error);
        },
    }
    match (&site.canonical_root, &site.canonical_parent) {
        (Err(cause), _) => Err(
            ServiceError::context("canonicalize Worktree root", cause.as_str()),
        ),
        (_, Err(cause)) => Err(
            ServiceError::context("canonicalize Worktree parent", cause.as_str()),
        ),
        (Ok(root), Ok(parent)) => if !starts_with(parent, root) {
            Err(ServiceError::new("Worktree destination parent is outside its policy root"))
        } else {
            relative_directory_bytes(root, parent)
        },
    }
}

/// What the directory of a worktree and the reservation there are.
#[derive(Clone, Copy, Debug, Eq, PartialEq)]
pub struct Destination {
    pub ino: u64,
    pub generation: u64,
    pub reservation_ino: u64,
    pub reservation_generation: u64,
}

/// Checks the directory of a worktree and the reservation there.
pub fn check_destination(destination: &DestinationReport) -> (checked: Result<
    Destination,
    ServiceError,
>)
    ensures
        match checked {
            Ok(checked) => {
                &&& destination_fault(*destination) is None
                &&& Ok::<u64, String>(checked.ino) == destination.ino
                &&& Ok::<u64, String>(checked.generation) == destination.generation
                &&& Ok::<u64, String>(checked.reservation_ino) == destination.reservation_ino
                &&& Ok::<u64, String>(checked.reservation_generation)
                    == destination.reservation_generation
            },
            Err(error) => destination_fault(*destination) == Some(error@),
        },
{
    if let Err(cause) = &destination.opened {
        return Err(ServiceError::context("open Worktree destination parent", cause.as_str()));
    }
    let ino: u64 = match &destination.ino {
        Ok(ino) => *ino,
        Err(cause) => {
            return Err(ServiceError::context("inspect Worktree destination", cause.as_str()));
        },
    };
    let reservation_ino: u64 = match &destination.reservation_ino {
        Ok(ino) => *ino,
        Err(cause) => {
            return Err(ServiceError::context("inspect Worktree reservation", cause.as_str()));
        },
    };
    if let Err(cause) = &destination.reservation_opened {
        return Err(ServiceError::context("open Worktree reservation generation", cause.as_str()));
    }
    let generation: u64 = match &destination.generation {
        Ok(generation) => *generation,
        Err(cause) => {
            return Err(ServiceError::context("read destination inode generation", cause.as_str()));
        },
    };
    let reservation_generation: u64 = match &destination.reservation_generation {
        Ok(generation) => *generation,
        Err(cause) => {
            return Err(ServiceError::context("read reservation inode generation", cause.as_str()));
        },
    };
    Ok(Destination { ino, generation, reservation_ino, reservation_generation })
}

impl Service {
    /// Gives a grant the policy for private trees below a root, under the
    /// identifier.
    pub fn provision_sanitized_worktree_policy_as(
        &mut self,
        watch_id: [u8; 16],
        authorization_id: [u8; 16],
        root: &PolicyRootReport,
        now_ns: i64,
        policy_id: [u8; 16],
    ) -> (provisioned: Result<WorktreePolicy, ServiceError>)
        ensures
            *final(self) == (Service { store: final(self).store, ..*old(self) }),
            provisions_sanitized(
                old(self).store,
                final(self).store,
                watch_id,
                authorization_id,
                *root,
                now_ns,
                policy_id,
                provisioned,
            ),
            old(self).store.well_formed() ==> final(self).store.well_formed(),
    {
        let opened: RootSubvolume = match &root.opened {
            Ok(opened) => *opened,
            Err(cause) => {
                return Err(ServiceError::context("open Worktree destination root", cause.as_str()));
            },
        };
        let path = match &root.canonical {
            Ok(path) => copy_bytes(path),
            Err(cause) => {
                return Err(
                    ServiceError::context("canonicalize Worktree policy root", cause.as_str()),
                );
            },
        };
        let generation: u64 = match &root.generation {
            Ok(generation) => *generation,
            Err(cause) => {
                return Err(
                    ServiceError::context(
                        "read Worktree policy-root inode generation",
                        cause.as_str(),
                    ),
                );
            },
        };
        let mut policy = WorktreePolicy {
            policy_id,
            destination_fs_uuid: opened.fs_uuid,
            destination_root_subvol_uuid: opened.subvol_uuid,
            destination_root_path: path,
            destination_root_generation: generation,
            metadata_policy: "sanitized-private-user-tree".to_owned(),
            allow_idmapped: false,
            policy_hash: [0u8; 32],
        };
        let hash: [u8; 32] = worktree_policy_hash(&policy);
        policy.policy_hash = hash;
        let inner = self.store.provision_worktree_policy(
            watch_id,
            authorization_id,
            &policy,
            now_ns,
        );
        assert(provisions_policy(
            old(self).store,
            self.store,
            watch_id,
            authorization_id,
            policy,
            now_ns,
            inner,
        ));
        assert(sanitized_policy(policy, *root, policy_id));
        match inner {
            Ok(_) => Ok(policy),
            Err(error) => Err(ServiceError::context("provision Worktree policy", error.message())),
        }
    }

    /// Gives a grant the policy for private trees below a root.
    pub fn provision_sanitized_worktree_policy(
        &mut self,
        watch_id: [u8; 16],
        authorization_id: [u8; 16],
        root: &PolicyRootReport,
        now_ns: i64,
    ) -> (provisioned: Result<WorktreePolicy, ServiceError>)
        ensures
            *final(self) == (Service { store: final(self).store, ..*old(self) }),
            exists|policy_id: [u8; 16]|
                drawn(policy_id) && #[trigger] provisions_sanitized(
                    old(self).store,
                    final(self).store,
                    watch_id,
                    authorization_id,
                    *root,
                    now_ns,
                    policy_id,
                    provisioned,
                ),
            old(self).store.well_formed() ==> final(self).store.well_formed(),
    {
        let policy_id: [u8; 16] = random_id();
        self.provision_sanitized_worktree_policy_as(
            watch_id,
            authorization_id,
            root,
            now_ns,
            policy_id,
        )
    }

    /// Reserves a worktree and starts its effect, with the identifiers.
    pub fn plan_worktree_as(
        &mut self,
        policy: &WorktreePolicy,
        options: &WorktreeOptions,
        anchor: &PublishedCut,
        site: &SiteReport,
        destination: &DestinationReport,
        ids: &PlanIds,
    ) -> (planned: Result<WorktreePlan, ServiceError>)
        ensures
            plans_worktree(
                *old(self),
                *final(self),
                *policy,
                *options,
                *anchor,
                *site,
                *destination,
                *ids,
                planned,
            ),
            old(self).store.well_formed() ==> final(self).store.well_formed(),
    {
        let relative_parent = match find_site_parent(policy, site) {
            Ok(relative) => relative,
            Err(error) => {
                return Err(error);
            },
        };
        let checked: Destination = match check_destination(destination) {
            Ok(checked) => checked,
            Err(error) => {
                return Err(error);
            },
        };
        let expires_ns: i64 = match lease_expiry(options.now_ns, self.config.lease_ns) {
            Ok(expires_ns) => expires_ns,
            Err(error) => {
                return Err(error);
            },
        };
        let staging_name = operation_name_as(&WORKTREE_PREFIX, &ids.name_id);
        let staging_path = join(&self.config.managed_snapshot_directory, &staging_name);
        let final_path = match &site.canonical_parent {
            Ok(parent) => join(parent, &options.destination_name),
            Err(_) => Vec::new(),
        };
        let root_uuid: [u8; 16] = match &site.root {
            Ok(root) => root.subvol_uuid,
            Err(_) => [0u8; 16],
        };
        let request = WorktreeRequest {
            watch_id: options.watch_id,
            authorization_id: options.authorization_id,
            policy: policy.copy(),
            staged_path: copy_bytes(&staging_path),
            final_path: copy_bytes(&final_path),
            destination_parent_subvol_uuid: root_uuid,
            destination_parent_ino: checked.ino,
            destination_parent_generation: checked.generation,
            destination_name: copy_bytes(&options.destination_name),
            reservation_name: copy_bytes(&options.reservation_name),
            reservation_ino: checked.reservation_ino,
            reservation_generation: checked.reservation_generation,
            reservation_nonce: options.reservation_nonce,
            requester_uid: options.requester_uid,
            requester_gid: options.requester_gid,
            lease_owner: self.lease_owner,
            now_ns: options.now_ns,
            lease_expires_ns: expires_ns,
        };
        let reserved = self.store.reserve_worktree_as(&request, &ids.reserved);
        let ghost middle = self.store;
        assert(reserves_worktree(old(self).store, middle, request, ids.reserved, reserved));
        assert(asks_for(
            *old(self),
            *policy,
            *options,
            *site,
            *destination,
            expires_ns,
            ids.name_id,
            request,
        ));
        let planned: Result<WorktreePlan, ServiceError> = match reserved {
            Err(error) => Err(ServiceError::context("reserve Worktree", error.message())),
            Ok(reservation) => if reservation.seed_snapshot_id != anchor.snapshot_id
                || reservation.seed_revision_id != anchor.revision_id {
                Err(ServiceError::new("Worktree seed differs from its anchor cut"))
            } else {
                let owner: [u8; 16] = self.lease_owner;
                let started = self.store.start_worktree_effect(
                    &reservation,
                    owner,
                    options.now_ns,
                );
                assert(starts_worktree(
                    middle,
                    self.store,
                    reservation,
                    owner,
                    options.now_ns,
                    started,
                ));
                let ghost relative = relative_parent@;
                let planned: Result<WorktreePlan, ServiceError> = match started {
                    Err(error) => Err(
                        ServiceError::context("start Worktree effect", error.message()),
                    ),
                    Ok(_) => match self.snapshot_path(reservation.seed_snapshot_id) {
                        Err(error) => Err(error),
                        Ok(seed_path) => {
                            let label: [u8; 6] = CREATE_LABEL;
                            Ok(
                                WorktreePlan {
                                    reservation,
                                    staging_name,
                                    staging_path,
                                    seed_path,
                                    final_path,
                                    relative_parent,
                                    create_id: derived_effect_id(
                                        &reservation.operation_id,
                                        &label,
                                    ),
                                },
                            )
                        },
                    },
                };
                assert(begins_worktree(
                    *old(self),
                    middle,
                    self.store,
                    request,
                    relative,
                    ids.name_id,
                    reservation,
                    planned,
                ));
                planned
            },
        };
        assert(plans_until(
            *old(self),
            self.store,
            *policy,
            *options,
            *anchor,
            *site,
            *destination,
            expires_ns,
            *ids,
            planned,
        ));
        planned
    }

    /// Reserves a worktree and starts its effect.
    pub fn plan_worktree(
        &mut self,
        policy: &WorktreePolicy,
        options: &WorktreeOptions,
        anchor: &PublishedCut,
        site: &SiteReport,
        destination: &DestinationReport,
    ) -> (planned: Result<WorktreePlan, ServiceError>)
        ensures
            exists|ids: PlanIds|
                ids.drawn() && #[trigger] plans_worktree(
                    *old(self),
                    *final(self),
                    *policy,
                    *options,
                    *anchor,
                    *site,
                    *destination,
                    ids,
                    planned,
                ),
            old(self).store.well_formed() ==> final(self).store.well_formed(),
    {
        let ids = PlanIds {
            name_id: random_id(),
            reserved: WorktreeIds { operation_id: random_id(), worktree_id: random_id() },
        };
        self.plan_worktree_as(policy, options, anchor, site, destination, &ids)
    }

    fn claim_topology(
        &mut self,
        reservation: &WorktreeReservation,
        owner: [u8; 16],
        final_path: &[u8],
        now_ns: i64,
        step: &str,
    ) -> (fence: Result<i64, ServiceError>)
        ensures
            *final(self) == (Service { store: final(self).store, ..*old(self) }),
            claims_topology(
                old(self).store,
                final(self).store,
                *reservation,
                owner,
                final_path@,
                now_ns,
                old(self).config.lease_ns,
                step@,
                fence,
            ),
    {
        let expires_ns: i64 = match lease_expiry(now_ns, self.config.lease_ns) {
            Ok(expires_ns) => expires_ns,
            Err(error) => {
                return Err(error);
            },
        };
        let inner = self.store.prepare_worktree_publication(
            reservation,
            owner,
            final_path,
            now_ns,
            expires_ns,
        );
        assert(prepares_publication(
            old(self).store,
            self.store,
            *reservation,
            owner,
            final_path@,
            now_ns,
            expires_ns,
            inner,
        ));
        let fence = carry(inner, step);
        assert(claims_until(
            old(self).store,
            self.store,
            *reservation,
            owner,
            final_path@,
            now_ns,
            expires_ns,
            step@,
            fence,
        ));
        fence
    }

    /// Records the clone of a worktree and claims the topology for its place.
    /// Gives the fence of the claim.
    pub fn prepare_worktree(
        &mut self,
        plan: &WorktreePlan,
        staged: &ExpectedSubvolume,
        now_ns: i64,
    ) -> (fence: Result<i64, ServiceError>)
        ensures
            prepares_worktree(*old(self), *final(self), *plan, *staged, now_ns, fence),
            old(self).store.well_formed() ==> final(self).store.well_formed(),
    {
        if self.config.fault_after_worktree_create {
            return Err(ServiceError::new("injected failure after Worktree clone effect"));
        }
        let owner: [u8; 16] = self.lease_owner;
        let inner = self.store.record_created_worktree(
            &plan.reservation,
            owner,
            staged.subvolume_uuid,
            staged.parent_uuid,
            now_ns,
        );
        let ghost middle = self.store;
        assert(records_worktree(
            old(self).store,
            middle,
            plan.reservation,
            owner,
            staged.subvolume_uuid,
            staged.parent_uuid,
            now_ns,
            inner,
        ));
        match inner {
            Err(error) => Err(ServiceError::context("record writable clone", error.message())),
            Ok(_) => self.claim_topology(
                &plan.reservation,
                owner,
                &plan.final_path,
                now_ns,
                "prepare Worktree publication",
            ),
        }
    }

    fn keep_handoff(&mut self, watch_id: [u8; 16], handoff: WorktreeViewHandoff)
        ensures
            *final(self) == (Service {
                worktree_view_handoffs: final(self).worktree_view_handoffs,
                ..*old(self)
            }),
            final(self).worktree_view_handoffs@ == keeping(
                old(self).worktree_view_handoffs@,
                watch_id,
                handoff,
            ),
    {
        let mut at: usize = 0;
        while at < self.worktree_view_handoffs.len()
            invariant
                at <= self.worktree_view_handoffs@.len(),
                *self == *old(self),
                kept_at(old(self).worktree_view_handoffs@, watch_id, 0) == kept_at(
                    old(self).worktree_view_handoffs@,
                    watch_id,
                    at as int,
                ),
            decreases self.worktree_view_handoffs.len() - at,
        {
            if same_array(&self.worktree_view_handoffs[at].watch_id, &watch_id) {
                self.worktree_view_handoffs.set(at, KeptHandoff { watch_id, handoff });
                return;
            }
            at += 1;
        }
        self.worktree_view_handoffs.push(KeptHandoff { watch_id, handoff });
    }

    fn offer_view(
        &mut self,
        child: &TrackedWorktree,
        view: Option<NamespaceMonitor>,
        epochs: &ViewEpochs,
    )
        ensures
            *final(self) == (Service {
                store: final(self).store,
                worktree_view_handoffs: final(self).worktree_view_handoffs,
                ..*old(self)
            }),
            offers_view(*old(self), *final(self), old(self).store, *child, view, *epochs),
    {
        let monitor = match view {
            Some(monitor) => monitor,
            None => {
                return;
            },
        };
        let inner = self.store.activate_snapshot_facade_as(
            child.watch_id,
            child.grant_id,
            monitor.binding(),
            epochs.activated,
        );
        let ghost first = self.store;
        assert(activates_facade(
            old(self).store,
            first,
            child.watch_id,
            child.grant_id,
            monitor.bound(),
            epochs.activated,
            inner,
        ));
        let activation: FacadeActivation = match inner {
            Ok(activation) => activation,
            Err(_) => {
                return;
            },
        };
        let seeded = self.store.finalize_proved_worktree_seed(&activation, monitor.binding());
        let ghost second = self.store;
        assert(finalizes_seed(first, second, activation, monitor.bound(), seeded));
        let ghost shown = monitor;
        match seeded {
            Ok(seed) => {
                self.keep_handoff(
                    child.watch_id,
                    WorktreeViewHandoff {
                        authorization_id: child.grant_id,
                        activation,
                        monitor,
                        snapshot_uuid: seed.snapshot_uuid,
                    },
                );
            },
            Err(_) => {
                let taken = self.store.invalidate_snapshot_facade_as(
                    &activation,
                    epochs.invalidated,
                );
                assert(invalidates_facade(
                    second,
                    self.store,
                    activation,
                    epochs.invalidated,
                    taken,
                ));
            },
        }
        assert(seeds_view(
            *old(self),
            *self,
            first,
            *child,
            shown,
            activation,
            epochs.invalidated,
        ));
    }

    /// Publishes a worktree that was moved to its place, with the identifiers.
    /// `view` is its view, where it was monitored since before it appeared.
    pub fn publish_worktree_as(
        &mut self,
        plan: WorktreePlan,
        topology_fence: i64,
        subvol_uuid: [u8; 16],
        now_ns: i64,
        view: Option<NamespaceMonitor>,
        ids: &ChildIds,
        epochs: &ViewEpochs,
    ) -> (published: Result<PublishedWorktree, ServiceError>)
        ensures
            publishes_plan(
                *old(self),
                *final(self),
                plan,
                topology_fence,
                subvol_uuid,
                now_ns,
                view,
                *ids,
                *epochs,
                published,
            ),
            old(self).store.well_formed() ==> final(self).store.well_formed(),
    {
        if self.config.fault_after_worktree_publish {
            return Err(ServiceError::new("injected failure after Worktree publication effect"));
        }
        let owner: [u8; 16] = self.lease_owner;
        let inner = self.store.publish_worktree_as(
            &plan.reservation,
            owner,
            topology_fence,
            subvol_uuid,
            now_ns,
            ids,
        );
        let ghost middle = self.store;
        assert(publishes_worktree(
            old(self).store,
            middle,
            plan.reservation,
            owner,
            topology_fence,
            subvol_uuid,
            now_ns,
            *ids,
            inner,
        ));
        match inner {
            Err(error) => Err(ServiceError::context("publish Worktree metadata", error.message())),
            Ok(child) => {
                let ghost between = *self;
                self.offer_view(&child, view, epochs);
                proof {
                    lemma_offers_same(
                        between,
                        *old(self),
                        *self,
                        middle,
                        child,
                        view,
                        *epochs,
                    );
                }
                Ok(
                    PublishedWorktree {
                        worktree_id: plan.reservation.worktree_id,
                        watch_id: child.watch_id,
                        grant_id: child.grant_id,
                        subvol_uuid,
                        path: plan.final_path,
                        seed_revision_id: plan.reservation.seed_revision_id,
                        seed_snapshot_id: plan.reservation.seed_snapshot_id,
                    },
                )
            },
        }
    }

    /// Publishes a worktree that was moved to its place. `view` is its view,
    /// where it was monitored since before it appeared.
    pub fn publish_worktree(
        &mut self,
        plan: WorktreePlan,
        topology_fence: i64,
        subvol_uuid: [u8; 16],
        now_ns: i64,
        view: Option<NamespaceMonitor>,
    ) -> (published: Result<PublishedWorktree, ServiceError>)
        ensures
            exists|ids: ChildIds, epochs: ViewEpochs|
                ids.drawn() && epochs.drawn() && #[trigger] publishes_plan(
                    *old(self),
                    *final(self),
                    plan,
                    topology_fence,
                    subvol_uuid,
                    now_ns,
                    view,
                    ids,
                    epochs,
                    published,
                ),
            old(self).store.well_formed() ==> final(self).store.well_formed(),
    {
        let ids = ChildIds {
            watch_id: random_id(),
            grant_id: random_id(),
            clock_epoch: random_id(),
        };
        let epochs = ViewEpochs { activated: random_id(), invalidated: random_id() };
        self.publish_worktree_as(
            plan,
            topology_fence,
            subvol_uuid,
            now_ns,
            view,
            &ids,
            &epochs,
        )
    }

    /// Records the clone of a worktree that is taken up, which then awaits its
    /// place.
    pub fn record_recovered_clone(
        &mut self,
        operation: &mut RecoveringWorktree,
        created: &ExpectedSubvolume,
        now_ns: i64,
    ) -> (recorded: Result<(), ServiceError>)
        ensures
            *final(self) == (Service { store: final(self).store, ..*old(self) }),
            records_recovered(
                old(self).store,
                final(self).store,
                *old(operation),
                *created,
                now_ns,
                recorded,
            ),
            match recorded {
                Ok(_) => {
                    &&& final(operation).state@ == "awaiting_destination"@
                    &&& *final(operation) == (RecoveringWorktree {
                        discovered_uuid: Some(created.subvolume_uuid),
                        state: final(operation).state,
                        ..*old(operation)
                    })
                },
                Err(_) => *final(operation) == *old(operation),
            },
            old(self).store.well_formed() ==> final(self).store.well_formed(),
    {
        let inner = self.store.record_created_worktree(
            &operation.reservation,
            operation.lease_owner,
            created.subvolume_uuid,
            created.parent_uuid,
            now_ns,
        );
        assert(records_worktree(
            old(self).store,
            self.store,
            operation.reservation,
            operation.lease_owner,
            created.subvolume_uuid,
            created.parent_uuid,
            now_ns,
            inner,
        ));
        let recorded = carry(inner, "record recovered Worktree clone");
        if recorded.is_ok() {
            operation.discovered_uuid = Some(created.subvolume_uuid);
            operation.state = "awaiting_destination".to_owned();
        }
        recorded
    }

    /// Claims the place of a worktree that is taken up.
    pub fn claim_recovered_place(
        &mut self,
        operation: &RecoveringWorktree,
        parent: &RecoveredParent,
        now_ns: i64,
    ) -> (claimed: Result<RecoveredPlace, ServiceError>)
        ensures
            claims_place(*old(self), *final(self), *operation, *parent, now_ns, claimed),
            old(self).store.well_formed() ==> final(self).store.well_formed(),
    {
        let relative_parent = match find_recovered_parent(operation, parent) {
            Ok(relative) => relative,
            Err(error) => {
                return Err(error);
            },
        };
        let final_path = join(&parent.path, &operation.destination_name);
        match self.claim_topology(
            &operation.reservation,
            operation.lease_owner,
            &final_path,
            now_ns,
            "prepare recovered Worktree publication",
        ) {
            Ok(topology_fence) => Ok(RecoveredPlace { relative_parent, topology_fence }),
            Err(error) => Err(error),
        }
    }

    /// Finishes a worktree that is taken up, with the identifiers.
    /// `published_uuid` is the subvolume that is at its place.
    pub fn finish_recovered_worktree_as(
        &mut self,
        operation: &RecoveringWorktree,
        topology_fence: i64,
        published_uuid: [u8; 16],
        now_ns: i64,
        ids: &ChildIds,
    ) -> (finished: Result<TrackedWorktree, ServiceError>)
        ensures
            finishes_recovered(
                *old(self),
                *final(self),
                *operation,
                topology_fence,
                published_uuid,
                now_ns,
                *ids,
                finished,
            ),
            old(self).store.well_formed() ==> final(self).store.well_formed(),
    {
        if !holds(&operation.discovered_uuid, &published_uuid) {
            return Err(ServiceError::new("recovered Worktree UUID differs from manager intent"));
        }
        if self.config.fault_after_worktree_publish {
            return Err(ServiceError::new("injected failure after Worktree publication effect"));
        }
        let inner = self.store.publish_worktree_as(
            &operation.reservation,
            operation.lease_owner,
            topology_fence,
            published_uuid,
            now_ns,
            ids,
        );
        assert(publishes_worktree(
            old(self).store,
            self.store,
            operation.reservation,
            operation.lease_owner,
            topology_fence,
            published_uuid,
            now_ns,
            *ids,
            inner,
        ));
        carry(inner, "publish recovered Worktree metadata")
    }

    /// Finishes a worktree that is taken up. `published_uuid` is the subvolume
    /// that is at its place.
    pub fn finish_recovered_worktree(
        &mut self,
        operation: &RecoveringWorktree,
        topology_fence: i64,
        published_uuid: [u8; 16],
        now_ns: i64,
    ) -> (finished: Result<TrackedWorktree, ServiceError>)
        ensures
            exists|ids: ChildIds|
                ids.drawn() && #[trigger] finishes_recovered(
                    *old(self),
                    *final(self),
                    *operation,
                    topology_fence,
                    published_uuid,
                    now_ns,
                    ids,
                    finished,
                ),
            old(self).store.well_formed() ==> final(self).store.well_formed(),
    {
        let ids = ChildIds {
            watch_id: random_id(),
            grant_id: random_id(),
            clock_epoch: random_id(),
        };
        self.finish_recovered_worktree_as(
            operation,
            topology_fence,
            published_uuid,
            now_ns,
            &ids,
        )
    }
}

/// What is offered of a view depends only on the views that were kept.
proof fn lemma_offers_same(
    left: Service,
    right: Service,
    after: Service,
    middle: Store,
    child: TrackedWorktree,
    view: Option<NamespaceMonitor>,
    epochs: ViewEpochs,
)
    requires
        left.worktree_view_handoffs == right.worktree_view_handoffs,
        offers_view(left, after, middle, child, view, epochs),
    ensures
        offers_view(right, after, middle, child, view, epochs),
{
    if let Some(monitor) = view {
        let (first, inner) = choose|first: Store, inner: Result<FacadeActivation, ManagerError>|
            #[trigger] activates_facade(
                middle,
                first,
                child.watch_id,
                child.grant_id,
                monitor.bound(),
                epochs.activated,
                inner,
            ) && match inner {
                Ok(activation) => seeds_view(
                    left,
                    after,
                    first,
                    child,
                    monitor,
                    activation,
                    epochs.invalidated,
                ),
                Err(_) => after.store == first && after.worktree_view_handoffs
                    == left.worktree_view_handoffs,
            };
        assert(activates_facade(
            middle,
            first,
            child.watch_id,
            child.grant_id,
            monitor.bound(),
            epochs.activated,
            inner,
        ));
        if let Ok(activation) = inner {
            let (second, seeded) = choose|
                second: Store,
                seeded: Result<ProvedWorktreeSeed, ManagerError>,
            | #[trigger]
                finalizes_seed(first, second, activation, monitor.bound(), seeded)
                    && match seeded {
                    Ok(seed) => {
                        &&& after.store == second
                        &&& after.worktree_view_handoffs@ == keeping(
                            left.worktree_view_handoffs@,
                            child.watch_id,
                            WorktreeViewHandoff {
                                authorization_id: child.grant_id,
                                activation,
                                monitor,
                                snapshot_uuid: seed.snapshot_uuid,
                            },
                        )
                    },
                    Err(_) => {
                        &&& takes_down(second, after.store, activation, epochs.invalidated)
                        &&& after.worktree_view_handoffs == left.worktree_view_handoffs
                    },
                };
            assert(finalizes_seed(first, second, activation, monitor.bound(), seeded));
            assert(seeds_view(
                right,
                after,
                first,
                child,
                monitor,
                activation,
                epochs.invalidated,
            ));
        }
    }
}

} // verus!
