//! How a worktree is planned, made and published, and taken up again.

use crate::digest::sha256;
use crate::locations::{are_names, below_root, starts_as};
use crate::manager::cloning::{
    clones, law_given_policy, law_prepared_publication, law_published_worktree,
    law_reserved_worktree, may_clone,
};
use crate::manager::rows::{
    OperationState, PhysicalState, Store, WatchState, Worktree, WorktreeState,
};
use crate::manager::table::{numbered, row};
use crate::manager::types::{
    ManagerError, PublishedCut, TrackedWorktree, WorktreePolicy, WorktreeRequest,
    WorktreeReservation,
};
use crate::manager::worktrees::{
    prepares_publication, provisions_policy, publishes_worktree, records_worktree,
    reserves_worktree, starts_worktree, ChildIds,
};
use crate::names::hex;
use crate::paths::{joined, last_name};
use crate::service::checks::ExpectedSubvolume;
use crate::service::config::{PublishedWorktree, ServiceError, WorktreeOptions};
use crate::service::decode::RecoveringWorktree;
use crate::service::flow::{carries, Service};
use crate::service::safety::{law_directory_below_its_root, law_effect_identifier};
use crate::service::worktree::{
    asks_for, begins_worktree, claims_topology, finishes_recovered, offers_view, plans_worktree,
    prepares_worktree, provisions_sanitized, publishes_plan, recovered_name,
    recovered_root_fault, root_fault, sanitized_policy, site_parent, DestinationReport, PlanIds,
    PolicyRootReport, RecoveredReservation, SiteReport, ViewEpochs, WorktreePlan, CREATE_LABEL,
};
use crate::spelling::{law_names_say_what_they_are_for, said};
use crate::watching::leads_down;
use vstd::prelude::*;

verus! {

/// The policy for private trees is the one of the root that was opened, at its true path,
/// and is given to the grant.
pub proof fn law_sanitized_policy_is_given(
    before: Store,
    after: Store,
    watch_id: [u8; 16],
    grant_id: [u8; 16],
    root: PolicyRootReport,
    now_ns: i64,
    policy_id: [u8; 16],
    given: Result<WorktreePolicy, ServiceError>,
)
    requires
        provisions_sanitized(before, after, watch_id, grant_id, root, now_ns, policy_id, given),
    ensures
        given is Err ==> after == before,
        given matches Ok(policy) ==> {
            &&& root.opened matches Ok(opened)
            &&& root.canonical matches Ok(path)
            &&& root.generation matches Ok(generation)
            &&& policy.policy_id == policy_id
            &&& policy.destination_fs_uuid == opened.fs_uuid
            &&& policy.destination_root_subvol_uuid == opened.subvol_uuid
            &&& policy.destination_root_path@ == path@
            &&& policy.destination_root_generation == generation
            &&& policy.metadata_policy@ == "sanitized-private-user-tree"@
            &&& !policy.allow_idmapped
            &&& row(after.policies@, policy_id) matches Some(kept)
            &&& kept.grant_id == grant_id
            &&& kept.policy_hash == policy.policy_hash
            &&& kept.destination_root_path@ == path@
        },
{
    if root.opened is Ok && root.canonical is Ok && root.generation is Ok {
        let (policy, inner) = choose|policy: WorktreePolicy, inner: Result<(), ManagerError>|
            #[trigger] provisions_policy(
                before,
                after,
                watch_id,
                grant_id,
                policy,
                now_ns,
                inner,
            ) && sanitized_policy(policy, root, policy_id) && match inner {
                Ok(_) => given == Ok::<WorktreePolicy, ServiceError>(policy),
                Err(fault) => given is Err,
            };
        law_given_policy(before, after, watch_id, grant_id, policy, now_ns, inner);
    }
}

/// A root is that of the policy exactly where its filesystem, its subvolume and its
/// generation are.
pub proof fn law_root_of_the_policy(policy: WorktreePolicy, site: SiteReport)
    ensures
        root_fault(policy, site) is None <==> (site.root matches Ok(root)
            && site.root_generation matches Ok(generation) && root.fs_uuid
            == policy.destination_fs_uuid && root.subvol_uuid == policy.destination_root_subvol_uuid
            && generation == policy.destination_root_generation),
{
}

/// The way to the directory of a worktree leads down from the root of the policy; where the
/// directory lies elsewhere, there is none.
pub proof fn law_way_to_the_directory(
    policy: WorktreePolicy,
    site: SiteReport,
    root: Seq<Seq<u8>>,
    rest: Seq<Seq<u8>>,
    other: Seq<Seq<u8>>,
)
    requires
        root.len() > 0,
        rest.len() > 0,
        other.len() > 0,
        are_names(root),
        are_names(rest),
        are_names(other),
        leads_down(rest),
        root_fault(policy, site) is None,
        site.canonical_root matches Ok(path) && path@ == below_root(root),
    ensures
        (site.canonical_parent matches Ok(path) && path@ == below_root(root + rest))
            ==> site_parent(policy, site) == Ok::<Seq<u8>, Seq<char>>(below_root(rest).skip(1)),
        (site.canonical_parent matches Ok(path) && path@ == below_root(other) && !starts_as(
            other,
            root,
        )) ==> site_parent(policy, site) is Err,
{
    law_directory_below_its_root(root, rest, other);
    crate::locations::law_remainder_is_what_is_behind(root, rest);
}

/// A worktree that is to be made is started by the service, of the very cut that it was
/// anchored to, under the policy of the grant, at a path of its own, to appear under the name
/// that was asked for.
pub proof fn law_planned_worktree_is_started(
    before: Service,
    after: Service,
    policy: WorktreePolicy,
    options: WorktreeOptions,
    anchor: PublishedCut,
    site: SiteReport,
    destination: DestinationReport,
    ids: PlanIds,
    plan: WorktreePlan,
)
    requires
        plans_worktree(
            before,
            after,
            policy,
            options,
            anchor,
            site,
            destination,
            ids,
            Ok(plan),
        ),
    ensures
        root_fault(policy, site) is None,
        may_clone(before.store, options.watch_id, options.authorization_id),
        plan.reservation.operation_id == ids.reserved.operation_id,
        plan.reservation.worktree_id == ids.reserved.worktree_id,
        plan.reservation.seed_snapshot_id == anchor.snapshot_id,
        plan.reservation.seed_revision_id == anchor.revision_id,
        plan.reservation.policy_hash == policy.policy_hash,
        plan.staging_name@ == said("worktree-"@) + hex(ids.name_id@),
        plan.staging_path@ == joined(
            before.config.managed_snapshot_directory@,
            plan.staging_name@,
        ),
        site.canonical_parent matches Ok(parent) && plan.final_path@ == joined(
            parent@,
            options.destination_name@,
        ),
        Ok::<Seq<u8>, Seq<char>>(plan.relative_parent@) == site_parent(policy, site),
        plan.create_id@ == sha256(
            said("btrfs-awacs-effect-id-v1"@).push(0) + ids.reserved.operation_id@ + said(
                "create"@,
            ),
        ).take(16),
        numbered(after.store.snapshots@, anchor.snapshot_id) matches Some(seed)
            && seed.physical_state == PhysicalState::Present && seed.path@ == plan.seed_path@,
        clones(after.store, plan.reservation, before.lease_owner, OperationState::FsStarted),
        row(after.store.operations@, ids.reserved.operation_id) matches Some(operation)
            && operation.reserved_path@ == plan.staging_path@ && operation.requester_uid
            == options.requester_uid && operation.requester_gid == options.requester_gid
            && operation.authorization_id == options.authorization_id && operation.watch_id
            == options.watch_id && (operation.destination matches Some(place) && place.final_path@
            == plan.final_path@ && place.name@ == options.destination_name@
            && place.reservation_name@ == options.reservation_name@ && place.reservation_nonce
            == options.reservation_nonce && Ok::<u64, String>(place.parent_ino) == destination.ino
            && Ok::<u64, String>(place.parent_generation) == destination.generation && Ok::<
            u64,
            String,
        >(place.reservation_ino) == destination.reservation_ino && Ok::<u64, String>(
            place.reservation_generation,
        ) == destination.reservation_generation),
{
    law_names_say_what_they_are_for();
    lemma_create_label();
    let planned: Result<WorktreePlan, ServiceError> = Ok(plan);
    let expires_ns = (options.now_ns + before.config.lease_ns) as i64;
    let (request, middle, reserved) = choose|
        request: WorktreeRequest,
        middle: Store,
        reserved: Result<WorktreeReservation, ManagerError>,
    |
        #[trigger] reserves_worktree(before.store, middle, request, ids.reserved, reserved)
            && asks_for(
            before,
            policy,
            options,
            site,
            destination,
            expires_ns,
            ids.name_id,
            request,
        ) && reserved is Ok && reserved->Ok_0.seed_snapshot_id == anchor.snapshot_id
            && reserved->Ok_0.seed_revision_id == anchor.revision_id && begins_worktree(
            before,
            middle,
            after.store,
            request,
            site_parent(policy, site)->Ok_0,
            ids.name_id,
            reserved->Ok_0,
            planned,
        );
    law_reserved_worktree(before.store, middle, request, ids.reserved, reserved);
    let reservation = reserved->Ok_0;
    law_effect_identifier(reservation.operation_id@, CREATE_LABEL@);
    let started = choose|started: Result<(), ManagerError>| #[trigger]
        starts_worktree(
            middle,
            after.store,
            reservation,
            before.lease_owner,
            request.now_ns,
            started,
        ) && started is Ok;
    lemma_started(middle, after.store, reservation, before.lease_owner, request.now_ns, started);
}

proof fn lemma_create_label()
    ensures
        CREATE_LABEL@ == said("create"@),
{
    reveal_strlit("create");
    assert(CREATE_LABEL@ =~= said("create"@));
}

proof fn lemma_started(
    before: Store,
    after: Store,
    reservation: WorktreeReservation,
    owner: [u8; 16],
    now_ns: i64,
    started: Result<(), ManagerError>,
)
    requires
        starts_worktree(before, after, reservation, owner, now_ns, started),
        started is Ok,
    ensures
        clones(after, reservation, owner, OperationState::FsStarted),
        row(after.operations@, reservation.operation_id) == Some(
            crate::manager::rows::Operation {
                state: OperationState::FsStarted,
                updated_ns: now_ns,
                ..row(before.operations@, reservation.operation_id)->0
            },
        ),
        after == (Store { operations: after.operations, ..before }),
{
    crate::manager::table::lemma_place(before.operations@, reservation.operation_id, 0);
    let at = crate::manager::table::place(before.operations@, reservation.operation_id)->0;
    crate::manager::cutting::lemma_others(before.operations@, at, after.operations@[at]);
}

/// The topology is claimed only once the clone was recorded, which has to be one of the seed;
/// nothing is changed where the clone is not.
pub proof fn law_prepared_worktree(
    before: Service,
    after: Service,
    plan: WorktreePlan,
    staged: ExpectedSubvolume,
    now_ns: i64,
    fence: Result<i64, ServiceError>,
)
    requires
        prepares_worktree(before, after, plan, staged, now_ns, fence),
    ensures
        fence is Ok ==> {
            &&& staged.parent_uuid == Some(plan.reservation.seed_subvol_uuid)
            &&& clones(
                before.store,
                plan.reservation,
                before.lease_owner,
                OperationState::FsStarted,
            )
            &&& clones(
                after.store,
                plan.reservation,
                before.lease_owner,
                OperationState::AwaitingDestination,
            )
            &&& row(after.store.operations@, plan.reservation.operation_id) matches Some(operation)
            &&& operation.discovered_uuid == Some(staged.subvolume_uuid)
        },
        staged.parent_uuid != Some(plan.reservation.seed_subvol_uuid) ==> fence is Err
            && after.store == before.store,
{
    if !before.config.fault_after_worktree_create {
        let (middle, inner) = choose|middle: Store, inner: Result<(), ManagerError>| #[trigger]
            records_worktree(
                before.store,
                middle,
                plan.reservation,
                before.lease_owner,
                staged.subvolume_uuid,
                staged.parent_uuid,
                now_ns,
                inner,
            ) && match inner {
                Err(fault) => after.store == middle && fence is Err,
                Ok(_) => claims_topology(
                    middle,
                    after.store,
                    plan.reservation,
                    before.lease_owner,
                    plan.final_path@,
                    now_ns,
                    before.config.lease_ns,
                    "prepare Worktree publication"@,
                    fence,
                ),
            };
        lemma_recorded(
            before.store,
            middle,
            plan.reservation,
            before.lease_owner,
            staged.subvolume_uuid,
            staged.parent_uuid,
            now_ns,
            inner,
        );
        if fence is Ok {
            let expires_ns = (now_ns + before.config.lease_ns) as i64;
            let claimed = choose|claimed: Result<i64, ManagerError>| #[trigger]
                prepares_publication(
                    middle,
                    after.store,
                    plan.reservation,
                    before.lease_owner,
                    plan.final_path@,
                    now_ns,
                    expires_ns,
                    claimed,
                ) && carries(claimed, fence, "prepare Worktree publication"@);
            law_prepared_publication(
                middle,
                after.store,
                plan.reservation,
                before.lease_owner,
                plan.final_path@,
                now_ns,
                expires_ns,
                claimed,
            );
        }
    }
}

proof fn lemma_recorded(
    before: Store,
    after: Store,
    reservation: WorktreeReservation,
    owner: [u8; 16],
    subvol_uuid: [u8; 16],
    parent_uuid: Option<[u8; 16]>,
    now_ns: i64,
    recorded: Result<(), ManagerError>,
)
    requires
        records_worktree(
            before,
            after,
            reservation,
            owner,
            subvol_uuid,
            parent_uuid,
            now_ns,
            recorded,
        ),
    ensures
        recorded is Err ==> after == before,
        recorded is Ok ==> clones(before, reservation, owner, OperationState::FsStarted)
            && parent_uuid == Some(reservation.seed_subvol_uuid) && clones(
            after,
            reservation,
            owner,
            OperationState::AwaitingDestination,
        ) && row(after.operations@, reservation.operation_id)->0.discovered_uuid == Some(
            subvol_uuid,
        ),
        parent_uuid != Some(reservation.seed_subvol_uuid) ==> recorded is Err,
{
    if recorded is Ok {
        crate::manager::table::lemma_place(before.operations@, reservation.operation_id, 0);
        let at = crate::manager::table::place(before.operations@, reservation.operation_id)->0;
        crate::manager::cutting::lemma_others(before.operations@, at, after.operations@[at]);
    }
}

/// A published worktree is told as it stands in the store: the watch and the grant that it
/// got, the subvolume that it is, where it appeared and what it was made of.
pub proof fn law_published_worktree_is_told(
    before: Service,
    after: Service,
    plan: WorktreePlan,
    topology_fence: i64,
    subvol_uuid: [u8; 16],
    now_ns: i64,
    ids: ChildIds,
    epochs: ViewEpochs,
    told: PublishedWorktree,
)
    requires
        publishes_plan(
            before,
            after,
            plan,
            topology_fence,
            subvol_uuid,
            now_ns,
            None,
            ids,
            epochs,
            Ok(told),
        ),
    ensures
        told.worktree_id == plan.reservation.worktree_id,
        told.watch_id == ids.watch_id,
        told.grant_id == ids.grant_id,
        told.subvol_uuid == subvol_uuid,
        told.path == plan.final_path,
        told.seed_revision_id == plan.reservation.seed_revision_id,
        told.seed_snapshot_id == plan.reservation.seed_snapshot_id,
        row(after.store.watches@, ids.watch_id) matches Some(watch) && watch.live_subvol_uuid
            == subvol_uuid && watch.indexed_revision_id == Some(told.seed_revision_id)
            && watch.state == WatchState::Active,
        row(after.store.worktrees@, told.worktree_id) matches Some(worktree) && worktree.state
            == WorktreeState::Present && worktree.watch_id == Some(told.watch_id),
        after.worktree_view_handoffs == before.worktree_view_handoffs,
{
    let (middle, inner) = choose|middle: Store, inner: Result<TrackedWorktree, ManagerError>|
        #[trigger] publishes_worktree(
            before.store,
            middle,
            plan.reservation,
            before.lease_owner,
            topology_fence,
            subvol_uuid,
            now_ns,
            ids,
            inner,
        ) && inner is Ok && offers_view(before, after, middle, inner->Ok_0, None, epochs);
    law_published_worktree(
        before.store,
        middle,
        plan.reservation,
        before.lease_owner,
        topology_fence,
        subvol_uuid,
        now_ns,
        ids,
        inner,
    );
}

/// A worktree that was taken up goes on only where the root, the reservation and the
/// subvolume are those that were noted.
pub proof fn law_recovered_worktree_goes_on(
    operation: RecoveringWorktree,
    root: Result<[u8; 16], String>,
    generation: Result<u64, String>,
    reservation: RecoveredReservation,
    before: Service,
    after: Service,
    topology_fence: i64,
    published_uuid: [u8; 16],
    now_ns: i64,
    ids: ChildIds,
    finished: Result<TrackedWorktree, ServiceError>,
)
    ensures
        recovered_root_fault(operation, root, generation) is None <==> (root matches Ok(uuid)
            && generation matches Ok(found) && uuid == operation.destination_root_uuid && found
            == operation.destination_root_generation),
        recovered_name(operation, reservation) matches Ok(name) ==> {
            &&& reservation.ino matches Ok(ino)
            &&& ino == operation.reservation_ino
            &&& reservation.generation matches Ok(found)
            &&& found == operation.reservation_generation
            &&& last_name(operation.staged_path@) == Some(name)
        },
        finishes_recovered(
            before,
            after,
            operation,
            topology_fence,
            published_uuid,
            now_ns,
            ids,
            finished,
        ) && finished is Ok ==> operation.discovered_uuid == Some(published_uuid),
        finishes_recovered(
            before,
            after,
            operation,
            topology_fence,
            published_uuid,
            now_ns,
            ids,
            finished,
        ) && operation.discovered_uuid != Some(published_uuid) ==> finished is Err && after
            == before,
{
}

} // verus!
