//! What is owed: each step is taken wherever nothing stands in its way.

use crate::manager::cloning::{clones, may_clone};
use crate::manager::compact::flags_overflow;
use crate::manager::cutting::{may_cut, works_on};
use crate::index::events_view;
use crate::manager::delta::{delta_summary, publishes_delta, AppliedDelta};
use crate::manager::facade::{cut_boundary, finalizes_boundary};
use crate::manager::facing::{looks_through, up};
use crate::manager::fresh::{
    failed_between, fresh_events, publishes_fresh, PathLookup,
};
use crate::manager::holding::{lemma_only_boundary, only_boundary};
use crate::manager::initialize::{filesystem_number, reserves_initialize, InitializeIds};
use crate::manager::metadata::DeltaDigests;
use crate::manager::stage::{stage_fault, STORED_MAX};
use crate::manager::opening::opens;
use crate::manager::publish::{
    cut_at, fails_cut, index_fault, publishes_initial, CheckedIndex,
};
use crate::manager::queries::begins_query;
use crate::manager::rows::{
    CutState, FsmonitorState, GrantState, OperationKind, OperationState, PhysicalState,
    RevisionState, Store, WatchState, WorktreeState,
};
use crate::manager::table::{
    first, fresh, law_tally_zero, lemma_first, lemma_slot, numbered, row, some,
};
use crate::manager::topology::{watch_around, worktree_inside};
use crate::manager::triggers::registers_trigger;
use crate::manager::types::{
    policy_anchored, CutReservation, FacadeActivation, GuardCursor, InitializeRequest,
    InitializeReservation, InitializedWatch, ManagerError, PublishedCut, QueryLeaseReservation,
    TrackedWorktree, WorktreePolicy, WorktreeRequest, WorktreeReservation,
};
use crate::manager::worktrees::{
    prepares_publication, provisions_policy, publishes_worktree, reserves_worktree, ChildIds,
    WorktreeIds,
};
use crate::manifest::ManifestView;
use crate::namespace::ViewBinding;
use crate::paths::begins_with;
use vstd::prelude::*;

verus! {

/// Whether the cut in the place is the only one of the watch at the sequence.
pub open spec fn only_cut(store: Store, watch_id: [u8; 16], sequence: i64, i: int) -> bool {
    &&& 0 <= i < store.cuts@.len()
    &&& store.cuts@[i].watch_id == watch_id
    &&& store.cuts@[i].sequence == sequence
    &&& forall|j: int|
        0 <= j < store.cuts@.len() && j != i ==> !((#[trigger] store.cuts@[j]).watch_id == watch_id
            && store.cuts@[j].sequence == sequence)
}

proof fn lemma_only_cut(store: Store, watch_id: [u8; 16], sequence: i64, i: int)
    requires
        only_cut(store, watch_id, sequence, i),
    ensures
        first(store.cuts@, cut_at(watch_id, sequence)) == Some(i),
{
    let picks = cut_at(watch_id, sequence);
    lemma_first(store.cuts@, picks, 0);
    assert(picks(store.cuts@[i]));
    assert forall|j: int| 0 <= j < store.cuts@.len() && j != i implies !picks(
        #[trigger] store.cuts@[j],
    ) by {}
}

/// A made cut that follows what its watch is indexed to is indexed as a whole, where its
/// index is sound and small enough to be stored.
pub proof fn law_made_cut_is_indexed(
    before: Store,
    after: Store,
    reservation: CutReservation,
    owner: [u8; 16],
    snapshot_id: i64,
    snapshot_uuid: [u8; 16],
    checked: CheckedIndex,
    paths: Map<u64, PathLookup>,
    now_ns: i64,
    published: Result<PublishedCut, ManagerError>,
    i: int,
)
    requires
        publishes_fresh(
            before,
            after,
            reservation,
            owner,
            snapshot_id,
            snapshot_uuid,
            checked,
            paths,
            now_ns,
            published,
        ),
        checked.fault is None,
        fresh_events(checked.index@.objects, paths) matches Ok(events) && events.len()
            <= STORED_MAX,
        index_fault(checked.index@) is None,
        checked.digest.privileged_metadata_count <= STORED_MAX,
        !flags_overflow(checked.index@.objects),
        fresh(before.comparisons@) is Some,
        fresh(before.revisions@) is Some,
        works_on(before, reservation, owner, OperationState::ManifestReady),
        only_cut(before, reservation.watch_id, reservation.sequence, i),
        before.cuts@[i].operation_id == reservation.operation_id,
        before.cuts@[i].state == CutState::Created,
        before.cuts@[i].target_snapshot_id == snapshot_id,
        numbered(before.snapshots@, snapshot_id) matches Some(snapshot) && snapshot.subvol_uuid
            == snapshot_uuid && snapshot.readonly && snapshot.physical_state
            == PhysicalState::Present,
        row(before.watches@, reservation.watch_id) matches Some(watch) && watch.state
            == WatchState::Active && (watch.indexed_seq matches Some(indexed) && indexed + 1
            == reservation.sequence) && (watch.indexed_revision_id matches Some(head) && (numbered(
            before.revisions@,
            head,
        ) matches Some(revision) && revision.state == RevisionState::Ready)),
    ensures
        published is Ok,
{
    lemma_only_cut(before, reservation.watch_id, reservation.sequence, i);
    let indexed = row(before.watches@, reservation.watch_id)->0.indexed_seq->0;
    let between = failed_between(
        before.operations@,
        reservation.watch_id,
        indexed,
        reservation.sequence,
    );
    law_tally_zero(before.cuts@, between);
    assert(!some(before.cuts@, between)) by {
        assert forall|j: int| 0 <= j < before.cuts@.len() implies !between(
            #[trigger] before.cuts@[j],
        ) by {}
    }
}

/// A made cut is given up wherever its worker says why.
pub proof fn law_made_cut_can_be_given_up(
    before: Store,
    after: Store,
    reservation: CutReservation,
    owner: [u8; 16],
    text: Seq<char>,
    now_ns: i64,
    failed: Result<(), ManagerError>,
    i: int,
)
    requires
        fails_cut(before, after, reservation, owner, text, now_ns, failed),
        text.len() > 0,
        works_on(before, reservation, owner, OperationState::ManifestReady),
        only_cut(before, reservation.watch_id, reservation.sequence, i),
        before.cuts@[i].operation_id == reservation.operation_id,
        before.cuts@[i].state == CutState::Created,
        before.cuts@[i].comparison_id is None,
    ensures
        failed is Ok,
{
    lemma_only_cut(before, reservation.watch_id, reservation.sequence, i);
}

/// A watch whose snapshot was recorded is opened, where its index is sound and small enough
/// to be stored.
pub proof fn law_recorded_watch_is_opened(
    before: Store,
    after: Store,
    reservation: InitializeReservation,
    owner: [u8; 16],
    snapshot_id: i64,
    snapshot_uuid: [u8; 16],
    checked: CheckedIndex,
    now_ns: i64,
    published: Result<InitializedWatch, ManagerError>,
)
    requires
        publishes_initial(
            before,
            after,
            reservation,
            owner,
            snapshot_id,
            snapshot_uuid,
            checked,
            now_ns,
            published,
        ),
        checked.fault is None,
        index_fault(checked.index@) is None,
        checked.digest.privileged_metadata_count <= STORED_MAX,
        !flags_overflow(checked.index@.objects),
        fresh(before.revisions@) is Some,
        opens(before, reservation, owner, OperationState::UuidRecorded),
        row(before.operations@, reservation.operation_id) matches Some(operation)
            && operation.discovered_uuid == Some(snapshot_uuid) && (numbered(
            before.snapshots@,
            snapshot_id,
        ) matches Some(snapshot) && snapshot.subvol_uuid == snapshot_uuid && snapshot.readonly
            && snapshot.physical_state == PhysicalState::Present && snapshot.filesystem_id
            == operation.filesystem_id),
        row(before.watches@, reservation.watch_id) matches Some(watch) && watch.state
            == WatchState::Initializing && watch.indexed_revision_id is None
            && watch.last_cut_snapshot_id is None,
    ensures
        published is Ok,
{
}

/// A watch is reserved wherever its paths are absolute, its lease lasts, worktrees are not
/// asked for, the topology is free and no worktree of the filesystem lives.
pub proof fn law_watch_can_be_reserved(
    before: Store,
    after: Store,
    request: InitializeRequest,
    ids: InitializeIds,
    reserved: Result<InitializeReservation, ManagerError>,
)
    requires
        reserves_initialize(before, after, request, ids, reserved),
        request.source_path@.len() > 0 && request.source_path@[0] == 0x2f,
        request.reserved_snapshot_path@.len() > 0 && request.reserved_snapshot_path@[0] == 0x2f,
        request.now_ns < request.lease_expires_ns,
        request.permissions.mask() & 4 != 4,
        forall|i: int|
            0 <= i < before.topology_leases@.len() ==> (
            #[trigger] before.topology_leases@[i]).lease_owner is None,
        forall|i: int|
            0 <= i < before.worktrees@.len() ==> (#[trigger] before.worktrees@[i]).state
                == WorktreeState::Deleted,
        fresh(before.filesystems@) is Some,
        row(before.watches@, ids.watch_id) is None,
        row(before.grants@, ids.grant_id) is None,
        row(before.operations@, ids.operation_id) is None,
    ensures
        reserved is Ok,
{
    let number = filesystem_number(before.filesystems@, request.fs_uuid);
    assert(number is Some);
    lemma_slot(before.topology_leases@, number->0, 0);
    let inside = worktree_inside(number->0, request.source_path@);
    assert forall|i: int| 0 <= i < before.worktrees@.len() implies !inside(
        #[trigger] before.worktrees@[i],
    ) by {}
}

/// A query is leased wherever the facade is up, the grant allows it and both boundaries stand.
pub proof fn law_query_can_be_leased(
    before: Store,
    after: Store,
    activation: FacadeActivation,
    from: Option<i64>,
    to: i64,
    owner: [u8; 16],
    expires_ns: i64,
    id: [u8; 16],
    leased: Result<QueryLeaseReservation, ManagerError>,
    i: int,
    j: int,
)
    requires
        begins_query(before, after, activation, from, to, owner, expires_ns, id, leased),
        0 < to,
        0 < expires_ns,
        up(before, activation),
        may_cut(before, activation.watch_id, activation.authorization_id),
        row(before.query_leases@, id) is None,
        only_boundary(before, activation.watch_id, to, j),
        before.boundaries@[j].clock_epoch == activation.clock_epoch,
        from matches Some(start) ==> 0 <= start <= to && only_boundary(
            before,
            activation.watch_id,
            start,
            i,
        ) && before.boundaries@[i].clock_epoch == activation.clock_epoch,
    ensures
        leased is Ok,
{
    lemma_only_boundary(before, activation.watch_id, to, j);
    if let Some(start) = from {
        lemma_only_boundary(before, activation.watch_id, start, i);
    }
}

/// A grant gets its trigger wherever it is active on an active, indexed watch and allows
/// reading, cutting and triggering.
pub proof fn law_trigger_can_be_registered(
    before: Store,
    after: Store,
    watch_id: [u8; 16],
    grant_id: [u8; 16],
    registered: Result<bool, ManagerError>,
)
    requires
        registers_trigger(before, after, watch_id, grant_id, registered),
        row(before.watches@, watch_id) matches Some(watch) && watch.state == WatchState::Active
            && watch.indexed_seq is Some,
        row(before.grants@, grant_id) matches Some(grant) && grant.watch_id == watch_id
            && grant.state == GrantState::Active && grant.permissions & 0x0b == 0x0b,
    ensures
        registered is Ok,
{
}

/// A policy that carries its digest is given to an active grant of an active watch, where the
/// destination is on the filesystem of the watch.
pub proof fn law_policy_can_be_given(
    before: Store,
    after: Store,
    watch_id: [u8; 16],
    grant_id: [u8; 16],
    policy: WorktreePolicy,
    now_ns: i64,
    given: Result<(), ManagerError>,
)
    requires
        provisions_policy(before, after, watch_id, grant_id, policy, now_ns, given),
        policy.metadata_policy@ == "sanitized-private-user-tree"@ || policy.metadata_policy@
            == "admin-trusted-preserve"@,
        !policy.allow_idmapped,
        policy_anchored(policy),
        row(before.watches@, watch_id) matches Some(watch) && watch.state == WatchState::Active && (
        numbered(before.filesystems@, watch.filesystem_id) matches Some(filesystem)
            && filesystem.fs_uuid == policy.destination_fs_uuid),
        row(before.grants@, grant_id) matches Some(grant) && grant.watch_id == watch_id
            && grant.state == GrantState::Active,
        row(before.policies@, policy.policy_id) is None,
    ensures
        given is Ok,
{
}

/// A worktree that was made is published by who works on it and has the topology, while the
/// grant that it was made under is active.
pub proof fn law_made_worktree_is_published(
    before: Store,
    after: Store,
    reservation: WorktreeReservation,
    owner: [u8; 16],
    topology_fence: i64,
    subvol_uuid: [u8; 16],
    now_ns: i64,
    ids: ChildIds,
    published: Result<TrackedWorktree, ManagerError>,
)
    requires
        publishes_worktree(
            before,
            after,
            reservation,
            owner,
            topology_fence,
            subvol_uuid,
            now_ns,
            ids,
            published,
        ),
        numbered(before.topology_leases@, reservation.filesystem_id) matches Some(lease)
            && lease.lease_owner == Some(owner) && lease.lease_fence == topology_fence,
        clones(before, reservation, owner, OperationState::AwaitingDestination),
        row(before.operations@, reservation.operation_id) matches Some(operation)
            && operation.discovered_uuid == Some(subvol_uuid) && operation.destination is Some && (
        row(before.grants@, operation.authorization_id) matches Some(grant) && grant.state
            == GrantState::Active && grant.watch_id == operation.watch_id),
        row(before.watches@, ids.watch_id) is None,
        row(before.grants@, ids.grant_id) is None,
        row(before.worktrees@, reservation.worktree_id) matches Some(worktree) && worktree.state
            == WorktreeState::Creating && worktree.subvol_uuid == Some(subvol_uuid),
    ensures
        published is Ok,
{
}

/// The topology is claimed for a worktree that was made wherever its grant and its policy
/// stand, nobody has the topology, and no watch of the filesystem lives around its place.
pub proof fn law_topology_can_be_claimed(
    before: Store,
    after: Store,
    reservation: WorktreeReservation,
    owner: [u8; 16],
    final_path: Seq<u8>,
    now_ns: i64,
    expires_ns: i64,
    prepared: Result<i64, ManagerError>,
)
    requires
        prepares_publication(
            before,
            after,
            reservation,
            owner,
            final_path,
            now_ns,
            expires_ns,
            prepared,
        ),
        now_ns < expires_ns,
        final_path.len() > 0 && final_path[0] == 0x2f,
        clones(before, reservation, owner, OperationState::AwaitingDestination),
        row(before.operations@, reservation.operation_id) matches Some(operation) && operation.kind
            == OperationKind::Worktree && operation.filesystem_id == reservation.filesystem_id
            && may_clone(before, operation.watch_id, operation.authorization_id) && (
        operation.destination matches Some(destination) && (row(
            before.policies@,
            destination.policy_id,
        ) matches Some(policy) && policy.policy_hash == reservation.policy_hash)),
        numbered(before.topology_leases@, reservation.filesystem_id) matches Some(lease)
            && lease.lease_owner is None,
        forall|i: int|
            0 <= i < before.watches@.len() && (#[trigger] before.watches@[i]).filesystem_id
                == reservation.filesystem_id ==> before.watches@[i].state == WatchState::Deleted,
    ensures
        prepared is Ok,
{
    let around = watch_around(reservation.filesystem_id, final_path);
    assert forall|i: int| 0 <= i < before.watches@.len() implies !around(
        #[trigger] before.watches@[i],
    ) by {}
}

/// A ready cut of a done operation becomes a boundary of the facade that is up, where the
/// facade looks through the very view and the grant is active.
pub proof fn law_ready_cut_becomes_a_boundary(
    before: Store,
    after: Store,
    activation: FacadeActivation,
    binding: ViewBinding,
    sequence: i64,
    guard: Option<GuardCursor>,
    finalized: Result<(), ManagerError>,
    i: int,
    k: int,
)
    requires
        finalizes_boundary(before, after, activation, binding, sequence, guard, finalized),
        sequence > 0,
        activation.monitor_session_id == binding.monitor_session_id,
        0 <= k < 16,
        activation.watch_id[k] != 0,
        up(before, activation),
        row(before.watches@, activation.watch_id) matches Some(watch) && watch.fsmonitor_state
            != FsmonitorState::Disabled && looks_through(watch.view->0, binding),
        row(before.grants@, activation.authorization_id) matches Some(grant) && grant.watch_id
            == activation.watch_id && grant.state == GrantState::Active,
        only_cut(before, activation.watch_id, sequence, i),
        before.cuts@[i].state == CutState::Ready,
        row(before.operations@, before.cuts@[i].operation_id) matches Some(operation)
            && operation.kind == OperationKind::Cut && operation.state == OperationState::Done,
        forall|j: int|
            0 <= j < before.boundaries@.len() ==> (#[trigger] before.boundaries@[j]).watch_id
                != activation.watch_id,
    ensures
        finalized is Ok,
        after.boundaries@.len() == before.boundaries@.len() + 1,
{
    lemma_only_cut(before, activation.watch_id, sequence, i);
    let there = cut_boundary(activation.watch_id, sequence);
    lemma_first(before.boundaries@, there, 0);
    assert forall|j: int| 0 <= j < before.boundaries@.len() implies !there(
        #[trigger] before.boundaries@[j],
    ) by {}
    assert(activation.watch_id[k] != 0);
}

/// A made cut is published with its changes wherever they can be summed up and stored, and it
/// follows the very revision that they were found on.
pub proof fn law_compared_cut_is_published(
    before: Store,
    after: Store,
    base_revision_id: i64,
    reservation: CutReservation,
    owner: [u8; 16],
    snapshot_id: i64,
    manifest: ManifestView,
    applied: AppliedDelta,
    digests: DeltaDigests,
    now_ns: i64,
    published: Result<PublishedCut, ManagerError>,
    i: int,
)
    requires
        publishes_delta(
            before,
            after,
            base_revision_id,
            reservation,
            owner,
            snapshot_id,
            manifest,
            applied,
            digests,
            now_ns,
            published,
        ),
        delta_summary(
            before.revisions@,
            base_revision_id,
            manifest,
            applied.index.objects@,
            digests,
        ) matches Ok((_, counts)) && stage_fault(
            manifest,
            events_view(applied.events@),
            applied.index.objects@,
            counts,
        ) is None,
        manifest.raw_ref_adds <= STORED_MAX,
        manifest.raw_ref_deletes <= STORED_MAX,
        fresh(before.comparisons@) is Some,
        fresh(before.revisions@) is Some,
        works_on(before, reservation, owner, OperationState::ManifestReady),
        only_cut(before, reservation.watch_id, reservation.sequence, i),
        before.cuts@[i].state == CutState::Created,
        before.cuts@[i].target_snapshot_id == snapshot_id,
        numbered(before.snapshots@, snapshot_id) matches Some(snapshot) && snapshot.physical_state
            == PhysicalState::Present,
        row(before.watches@, reservation.watch_id) matches Some(watch) && watch.state
            == WatchState::Active && watch.indexed_revision_id == Some(base_revision_id) && (
        watch.indexed_seq matches Some(indexed) && indexed + 1 == reservation.sequence),
    ensures
        published is Ok,
{
    lemma_only_cut(before, reservation.watch_id, reservation.sequence, i);
}

/// A worktree is reserved wherever the watch is indexed to its last cut, the policy is the one
/// that the grant was given, the topology is free, and no watch of the filesystem lives around
/// its place; of a tree of somebody else's, only where the policy is not the sanitizing one.
pub proof fn law_worktree_can_be_reserved(
    before: Store,
    after: Store,
    request: WorktreeRequest,
    ids: WorktreeIds,
    reserved: Result<WorktreeReservation, ManagerError>,
)
    requires
        reserves_worktree(before, after, request, ids, reserved),
        request.now_ns < request.lease_expires_ns,
        request.staged_path@.len() > 0 && request.staged_path@[0] == 0x2f,
        request.final_path@.len() > 0 && request.final_path@[0] == 0x2f,
        request.destination_name@.len() > 0,
        request.reservation_name@.len() > 0,
        policy_anchored(request.policy),
        may_clone(before, request.watch_id, request.authorization_id),
        row(before.policies@, request.policy.policy_id) matches Some(given) && given.grant_id
            == request.authorization_id && given.destination_root_subvol_uuid
            == request.policy.destination_root_subvol_uuid && given.destination_root_path@
            == request.policy.destination_root_path@ && given.destination_root_generation
            == request.policy.destination_root_generation && given.metadata_policy@
            == request.policy.metadata_policy@ && given.allow_idmapped
            == request.policy.allow_idmapped && given.policy_hash == request.policy.policy_hash && (
        numbered(before.filesystems@, given.destination_filesystem_id) matches Some(filesystem)
            && filesystem.fs_uuid == request.policy.destination_fs_uuid),
        row(before.watches@, request.watch_id) matches Some(watch) && watch.state
            == WatchState::Active && watch.indexed_seq is Some && watch.indexed_seq
            == watch.last_cut_seq && (watch.indexed_revision_id matches Some(head) && (numbered(
            before.revisions@,
            head,
        ) matches Some(revision) && revision.state == RevisionState::Ready && (
        request.policy.metadata_policy@ == "sanitized-private-user-tree"@ ==> (
        revision.summary.single_owner_uid matches Some(uid) && uid == request.requester_uid)
            && revision.summary.privileged_metadata_count == 0))) && (
        watch.last_cut_snapshot_id matches Some(seed) && (numbered(
            before.snapshots@,
            seed,
        ) matches Some(snapshot) && snapshot.physical_state == PhysicalState::Present)) && (forall|
            i: int,
        |
            0 <= i < before.watches@.len() && (#[trigger] before.watches@[i]).filesystem_id
                == watch.filesystem_id && before.watches@[i].state != WatchState::Deleted
                ==> !begins_with(request.final_path@, before.watches@[i].live_path@)),
        forall|i: int|
            0 <= i < before.topology_leases@.len() ==> (
            #[trigger] before.topology_leases@[i]).lease_owner is None,
        row(before.operations@, ids.operation_id) is None,
        row(before.worktrees@, ids.worktree_id) is None,
    ensures
        reserved is Ok,
{
    let filesystem_id = row(before.watches@, request.watch_id)->0.filesystem_id;
    lemma_slot(before.topology_leases@, filesystem_id, 0);
    let around = watch_around(filesystem_id, request.final_path@);
    assert forall|i: int| 0 <= i < before.watches@.len() implies !around(
        #[trigger] before.watches@[i],
    ) by {}
}

} // verus!
