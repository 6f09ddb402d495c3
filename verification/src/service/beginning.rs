//! How a service, a watch and a comparison of old snapshots begin.

use crate::manager::comparing::{law_claimed_comparison, may_read};
use crate::manager::ending::{
    begun, deletion_begun, law_new_owner_gets_what_had_begun, law_nothing_planned_is_left,
};
use crate::manager::history::{claims_comparison, replays};
use crate::manager::initialize::{
    records_initialize, reserves_initialize, starts_initialize, InitializeIds,
};
use crate::manager::opening::{law_recorded_watch, law_reserved_watch, law_started_watch, opens};
use crate::manager::recovery::{aborts_operations, takes_over};
use crate::manager::rows::{OperationState, PhysicalState, Store, WatchState};
use crate::manager::table::{numbered, row};
use crate::manager::telling::law_only_readers_are_told;
use crate::manager::types::{
    HistoricalChanges, HistoricalComparisonAdmission, HistoricalComparisonClaim, InitializeRequest,
    InitializeReservation, ManagerError, Principal, RecordedSnapshot, SnapshotIdentity,
};
use crate::names::{hex, signed_digits};
use crate::paths::{joined, last_name};
use crate::service::checks::{identity_of, ExpectedSubvolume};
use crate::service::config::{InitializeOptions, ServiceError};
use crate::service::decode::RecoveringInitialize;
use crate::service::flow::{
    carries, joins, kept_for, probes_facade, takes_up, works_beside, FacadeProbe, KeptHandoff,
    Prepared, Service,
};
use crate::service::historical::{
    begins_historical, claim_request, claims, historical_fault, works_on, HistoricalOptions,
    HistoricalStep,
};
use crate::service::initialize::{
    begins_initialize, initialize_request, plans_initialize, records_created, resumes_initialize,
    InitializePlan, SourceReport,
};
use crate::spelling::{law_names_say_what_they_are_for, law_spooled_names, said};
use vstd::prelude::*;

verus! {

/// A new watch is started by the service on the very subvolume that was opened, at its true
/// path, with a snapshot of its own in the directory for snapshots, and under the rights
/// that were asked for. The root of a whole filesystem is refused.
pub proof fn law_planned_watch_is_started(
    before: Service,
    after: Service,
    source: SourceReport,
    options: InitializeOptions,
    ids: InitializeIds,
    id: [u8; 16],
    plan: InitializePlan,
)
    requires
        plans_initialize(before, after, source, options, ids, id, Ok(plan)),
    ensures
        source.canonical is Ok,
        source.opened matches Ok(opened) && !opened.is_top_level,
        plan.destination_name@ == said("cut-initialize-"@) + hex(id@),
        plan.destination_path@ == joined(
            before.config.managed_snapshot_directory@,
            plan.destination_name@,
        ),
        plan.reservation.watch_id == ids.watch_id,
        plan.reservation.operation_id == ids.operation_id,
        opens(after.store, plan.reservation, before.lease_owner, OperationState::FsStarted),
        row(after.store.operations@, ids.operation_id) matches Some(operation)
            && operation.reserved_path@ == plan.destination_path@ && operation.source_subvol_uuid
            == source.opened->Ok_0.subvol_uuid && operation.requester_uid == options.requester_uid
            && operation.requester_gid == options.requester_gid && operation.lease_expires_ns
            == Some((options.now_ns + before.config.lease_ns) as i64),
        row(after.store.watches@, ids.watch_id) matches Some(watch) && watch.live_path@
            == source.canonical->Ok_0@ && watch.live_subvol_uuid
            == source.opened->Ok_0.subvol_uuid && watch.state == WatchState::Initializing,
        row(after.store.grants@, ids.grant_id) matches Some(grant) && grant.permissions
            == options.permissions.mask() && match options.principal {
            Principal::Uid(uid) => grant.principal == Principal::Uid(uid),
            Principal::Service(name) => grant.principal matches Principal::Service(kept) && kept@
                == name@,
        },
{
    law_names_say_what_they_are_for();
    let planned: Result<InitializePlan, ServiceError> = Ok(plan);
    let (request, middle, reserved) = choose|
        request: InitializeRequest,
        middle: Store,
        reserved: Result<InitializeReservation, ManagerError>,
    |
        #[trigger] reserves_initialize(before.store, middle, request, ids, reserved)
            && initialize_request(before, source, options, id, request) && reserved is Ok
            && begins_initialize(
            before,
            middle,
            after.store,
            reserved->Ok_0,
            options.now_ns,
            id,
            planned,
        );
    law_reserved_watch(before.store, middle, request, ids, reserved);
    let reservation = reserved->Ok_0;
    let started = choose|started: Result<(), ManagerError>| #[trigger]
        starts_initialize(
            middle,
            after.store,
            reservation,
            before.lease_owner,
            options.now_ns,
            started,
        ) && started is Ok;
    law_started_watch(
        middle,
        after.store,
        reservation,
        before.lease_owner,
        options.now_ns,
        started,
    );
}

/// What is recorded for a new watch is the snapshot as it was found, at the path.
pub proof fn law_created_snapshot_is_recorded(
    before: Store,
    after: Store,
    reservation: InitializeReservation,
    owner: [u8; 16],
    created: ExpectedSubvolume,
    path: Seq<u8>,
    now_ns: i64,
    step: Seq<char>,
    recorded: Result<RecordedSnapshot, ServiceError>,
)
    requires
        records_created(
            before,
            after,
            reservation,
            owner,
            created,
            path,
            now_ns,
            step,
            recorded,
        ),
    ensures
        recorded is Err ==> after == before,
        recorded matches Ok(kept) ==> {
            &&& opens(after, reservation, owner, OperationState::UuidRecorded)
            &&& created.readonly
            &&& numbered(after.snapshots@, kept.snapshot_id) matches Some(stored)
            &&& stored.subvol_uuid == created.subvolume_uuid
            &&& stored.parent_uuid == created.parent_uuid
            &&& stored.received_uuid == created.received_uuid
            &&& stored.root_id == created.root_id
            &&& stored.ctransid == created.ctransid
            &&& stored.otransid == created.otransid
            &&& stored.path@ == path
            &&& stored.created_ns == now_ns
            &&& stored.physical_state == PhysicalState::Present
        },
{
    let (identity, inner) = choose|
        identity: SnapshotIdentity,
        inner: Result<RecordedSnapshot, ManagerError>,
    |
        #[trigger] records_initialize(before, after, reservation, owner, identity, now_ns, inner)
            && identity == identity_of(created, identity.path, now_ns) && identity.path@ == path
            && carries(inner, recorded, step);
    law_recorded_watch(before, after, reservation, owner, identity, now_ns, inner);
}

/// A recovered watch goes on only with the subvolume that it was started on, and under the
/// last name of its reserved path.
pub proof fn law_recovered_watch_goes_on(
    service: Service,
    operation: RecoveringInitialize,
    opened: Result<[u8; 16], String>,
    name: Result<Vec<u8>, ServiceError>,
)
    requires
        resumes_initialize(service, operation, opened, name),
    ensures
        name matches Ok(name) ==> {
            &&& opened matches Ok(source)
            &&& row(
                service.store.operations@,
                operation.reservation.operation_id,
            ) matches Some(stored)
            &&& stored.source_subvol_uuid == source
            &&& last_name(operation.reserved_path@) == Some(name@)
        },
        opened is Err ==> name is Err,
{
}

/// What is known of the history between two snapshots is told at once; only where it is not
/// known are they compared, at the paths where they are present, under a claim of the
/// service's own.
pub proof fn law_known_history_is_told(
    before: Service,
    after: Service,
    options: HistoricalOptions,
    step: HistoricalStep,
)
    requires
        begins_historical(before, after, options, Ok(step)),
    ensures
        may_read(
            before.store,
            options.watch_id,
            options.authorization_id,
            options.requester_uid,
        ),
        step matches HistoricalStep::Compare(work) ==> {
            &&& work.claim.watch_id == options.watch_id
            &&& work.claim.from_snapshot_uuid == options.from_snapshot_uuid
            &&& work.claim.to_snapshot_uuid == options.to_snapshot_uuid
            &&& work.claim.lease_owner == before.lease_owner
            &&& work.claim.from_sequence < work.claim.to_sequence
            &&& numbered(
                after.store.snapshots@,
                work.claim.from_snapshot_id,
            ) matches Some(source)
            &&& source.physical_state == PhysicalState::Present
            &&& source.path@ == work.source_path@
            &&& numbered(after.store.snapshots@, work.claim.to_snapshot_id) matches Some(target)
            &&& target.physical_state == PhysicalState::Present
            &&& target.path@ == work.target_path@
            &&& work.spool_path@ == joined(
                before.config.spool_directory@,
                said("historical-"@) + signed_digits(work.claim.comparison_id as int) + seq![0x2du8]
                    + signed_digits(work.claim.lease_fence as int) + said(".part"@),
            )
        },
        (forall|told: Result<HistoricalChanges, ManagerError>|
            #[trigger] replays(
                before.store,
                options.watch_id,
                options.authorization_id,
                options.requester_uid,
                options.from_snapshot_uuid,
                options.to_snapshot_uuid,
                told,
            ) ==> (told matches Ok(changes) && !changes.fresh_instance)) ==> (
        step matches HistoricalStep::Known(changes) && !changes.fresh_instance) && after == before,
{
    let replayed = choose|replayed: Result<HistoricalChanges, ManagerError>| #[trigger]
        replays(
            before.store,
            options.watch_id,
            options.authorization_id,
            options.requester_uid,
            options.from_snapshot_uuid,
            options.to_snapshot_uuid,
            replayed,
        ) && replayed is Ok && (if !replayed->Ok_0.fresh_instance {
            after == before && step == HistoricalStep::Known(replayed->Ok_0)
        } else {
            claims(
                before,
                after.store,
                claim_request(
                    before,
                    options,
                    (options.now_ns + before.config.lease_ns) as i64,
                ),
                replayed->Ok_0,
                Ok(step),
            )
        });
    law_only_readers_are_told(
        before.store,
        options.watch_id,
        options.authorization_id,
        options.requester_uid,
        options.from_snapshot_uuid,
        options.to_snapshot_uuid,
        replayed,
    );
    if let HistoricalStep::Compare(work) = step {
        let request = claim_request(
            before,
            options,
            (options.now_ns + before.config.lease_ns) as i64,
        );
        let admitted = choose|admitted: Result<HistoricalComparisonAdmission, ManagerError>|
            #[trigger] claims_comparison(before.store, after.store, request, admitted) && (
            match admitted {
                Err(_) => step == HistoricalStep::Known(replayed->Ok_0),
                Ok(HistoricalComparisonAdmission::Ready(changes)) => step == HistoricalStep::Known(
                    changes,
                ),
                Ok(HistoricalComparisonAdmission::Claimed(claim)) => works_on(
                    before,
                    after.store,
                    claim,
                    Ok(step),
                ),
            });
        let claim = work.claim;
        law_claimed_comparison(before.store, after.store, request, claim);
        law_spooled_names(Seq::empty(), claim.comparison_id as int, claim.lease_fence as int);
    }
}

/// Two snapshots are compared only where each is the one that was claimed, and both are of
/// one filesystem.
pub proof fn law_claimed_ends_are_compared(
    claim: HistoricalComparisonClaim,
    source: Result<ExpectedSubvolume, String>,
    target: Result<ExpectedSubvolume, String>,
)
    ensures
        historical_fault(claim, source, target) is None <==> (source matches Ok(from)
            && target matches Ok(to) && from.subvolume_uuid == claim.from_snapshot_uuid
            && to.subvolume_uuid == claim.to_snapshot_uuid && from.filesystem_uuid
            == to.filesystem_uuid),
{
}

/// A service that took over has nothing planned, owns all that had begun, and begins without
/// views of its own and without having seen what the kernel promises.
pub proof fn law_service_takes_over(
    prepared: Prepared,
    session_id: [u8; 16],
    owner: [u8; 16],
    now_ns: i64,
    service: Service,
)
    requires
        joins(prepared, session_id, owner, now_ns, Ok(service)),
    ensures
        service.lease_owner == owner,
        service.manager_session_id == session_id,
        service.manager_store_uuid == prepared.manager_store_uuid,
        service.config == prepared.config,
        service.worktree_view_handoffs@.len() == 0,
        !service.dirty_witness_contract_seen,
        forall|i: int|
            0 <= i < service.store.operations@.len() ==> (
            #[trigger] service.store.operations@[i]).state != OperationState::Planned,
        forall|i: int|
            0 <= i < service.store.operations@.len() && begun(
                #[trigger] service.store.operations@[i],
            ) ==> service.store.operations@[i].lease_owner == Some(owner)
                && service.store.operations@[i].lease_expires_ns == Some(
                (now_ns + prepared.config.lease_ns) as i64,
            ),
        forall|i: int|
            0 <= i < service.store.delete_operations@.len() && deletion_begun(
                #[trigger] service.store.delete_operations@[i],
            ) ==> service.store.delete_operations@[i].lease_owner == Some(owner),
{
    let expires_ns = (now_ns + prepared.config.lease_ns) as i64;
    let (middle, aborted) = choose|middle: Store, aborted: Result<usize, ManagerError>| #[trigger]
        aborts_operations(prepared.store, middle, now_ns, aborted) && aborted is Ok && takes_up(
            middle,
            prepared,
            session_id,
            owner,
            expires_ns,
            Ok(service),
        );
    law_nothing_planned_is_left(prepared.store, middle, now_ns);
    let (after, taken) = choose|after: Store, taken: Result<usize, ManagerError>| #[trigger]
        takes_over(middle, after, owner, expires_ns, taken) && taken is Ok && service.store
            == after;
    law_new_owner_gets_what_had_begun(middle, after, owner, expires_ns, taken);
    assert forall|i: int| 0 <= i < after.operations@.len() implies (
    #[trigger] after.operations@[i]).state != OperationState::Planned by {
        assert(middle.operations@.contains(middle.operations@[i]));
    }
}

/// A worker beside the service works on a store of its own under an owner of its own, with
/// the same session and configuration, and only where the broker runs outside.
pub proof fn law_worker_beside(
    service: Service,
    store: Store,
    owner: [u8; 16],
    worker: Result<Service, ServiceError>,
)
    requires
        works_beside(service, store, owner, worker),
    ensures
        worker is Ok <==> service.config.broker_socket is Some,
        worker matches Ok(beside) ==> {
            &&& beside.store == store
            &&& beside.lease_owner == owner
            &&& beside.manager_session_id == service.manager_session_id
            &&& beside.manager_store_uuid == service.manager_store_uuid
            &&& beside.dirty_witness_contract_seen == service.dirty_witness_contract_seen
            &&& beside.worktree_view_handoffs@.len() == 0
            &&& beside.config.managed_snapshot_directory@
                == service.config.managed_snapshot_directory@
            &&& beside.config.spool_directory@ == service.config.spool_directory@
            &&& beside.config.lease_ns == service.config.lease_ns
            &&& beside.config.max_manifest_bytes == service.config.max_manifest_bytes
            &&& beside.config.boot_id == service.config.boot_id
            &&& beside.config.replay_window_cuts == service.config.replay_window_cuts
            &&& beside.config.replay_window_ns == service.config.replay_window_ns
        },
{
}

pub(crate) proof fn lemma_kept(
    handoffs: Seq<KeptHandoff>,
    watch_id: [u8; 16],
    grant_id: [u8; 16],
    root: Option<Vec<u8>>,
    from: int,
)
    requires
        0 <= from <= handoffs.len(),
    ensures
        kept_for(handoffs, watch_id, grant_id, root, from) matches Some(at) ==> {
            &&& from <= at < handoffs.len()
            &&& handoffs[at].watch_id == watch_id
            &&& handoffs[at].handoff.authorization_id == grant_id
            &&& root matches Some(path)
            &&& path@ == handoffs[at].handoff.monitor.bound().root_path@
            &&& forall|i: int| from <= i < at ==> (#[trigger] handoffs[i]).watch_id != watch_id
        },
    decreases handoffs.len() - from,
{
    if from < handoffs.len() && handoffs[from].watch_id != watch_id {
        lemma_kept(handoffs, watch_id, grant_id, root, from + 1);
    }
}

/// A view is handed out only for the watch, the grant and the root that it is kept for.
pub proof fn law_handed_out_view(
    handoffs: Seq<KeptHandoff>,
    watch_id: [u8; 16],
    grant_id: [u8; 16],
    root: Option<Vec<u8>>,
)
    ensures
        kept_for(handoffs, watch_id, grant_id, root, 0) matches Some(at) ==> {
            &&& 0 <= at < handoffs.len()
            &&& handoffs[at].watch_id == watch_id
            &&& handoffs[at].handoff.authorization_id == grant_id
            &&& root matches Some(path)
            &&& path@ == handoffs[at].handoff.monitor.bound().root_path@
        },
{
    lemma_kept(handoffs, watch_id, grant_id, root, 0);
}

/// A facade is probed only where it is allowed and not proved yet, on what an active watch is
/// indexed to.
pub proof fn law_probed_facade(
    service: Service,
    watch_id: [u8; 16],
    probe: Result<FacadeProbe, ServiceError>,
)
    requires
        probes_facade(service, watch_id, probe),
    ensures
        probe matches Ok(FacadeProbe::Known(known)) ==> (known
            <==> service.config.experimental_dirty_witness_verified
            && service.dirty_witness_contract_seen),
        !service.config.experimental_dirty_witness_verified ==> probe matches Ok(
            FacadeProbe::Known(false),
        ),
        probe matches Ok(FacadeProbe::Head { revision_id, path }) ==> {
            &&& service.config.experimental_dirty_witness_verified
            &&& !service.dirty_witness_contract_seen
            &&& row(service.store.watches@, watch_id) matches Some(watch)
            &&& watch.state == WatchState::Active
            &&& watch.indexed_revision_id == Some(revision_id)
            &&& numbered(service.store.revisions@, revision_id) matches Some(revision)
            &&& numbered(service.store.snapshots@, revision.snapshot_id) matches Some(snapshot)
            &&& snapshot.path@ == path@
        },
{
}

} // verus!
