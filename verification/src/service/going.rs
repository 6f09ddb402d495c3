//! How the jobs of the service go on, from what was asked to what stands in the store.

use crate::manager::cutting::{
    law_asked_about_cut, law_joined_cut, law_made_cut, law_recorded_cut, law_reserved_cut,
    law_started_cut, may_cut, planned_for, still_waits, works_on,
};
use crate::manager::cuts::{polls_admission, publishes_cut, records_cut, reserves_cut, starts_cut};
use crate::manager::facade::appends_events;
use crate::manager::facing::{keeps_journal, law_journal_takes_events};
use crate::manager::holding::{deletes, law_steps_of_a_deletion};
use crate::manager::retention::{records_delete, starts_delete};
use crate::manager::rows::{
    DeleteState, Operation, OperationKind, OperationState, PhysicalState, Store, WatchState,
};
use crate::manager::table::{numbered, row};
use crate::manager::types::{
    CutAdmission, CutRequest, CutReservation, FacadeActivation, GuardCursor, ManagerError,
    MutationHint, PublishedCut, RecordedSnapshot, SnapshotDeleteReservation, SnapshotIdentity,
};
use crate::names::hex;
use crate::precision::{
    below, children_before, drains, poll_fault, GuardView, PrecisionError, TreeEntry,
};
use crate::paths::joined;
use crate::service::checks::ExpectedSubvolume;
use crate::service::collect::{
    floor_target, larger, latest_before, records_collection, settled_cuts, starts_collection,
    HistorySpan,
};
use crate::service::config::{ChangesOptions, ServiceConfig, ServiceError};
use crate::service::cut::{
    admits, begins_cut, completes_record, cut_request, endpoints_fault, joins_cut, leads_cut,
    plans_cut, publishes_record, resumes_recorded, waited, waits_for_cut, CutIds, CutJoin, CutPlan,
    CutRecord, CutStep,
};
use crate::service::decode::{CutCompletion, RecoveringCut};
use crate::service::flow::{carries, Service};
use crate::spelling::{law_names_say_what_they_are_for, said};
use vstd::prelude::*;

verus! {

/// A cut that is to be made is started by the service, for the tree that the watch is
/// of, at a path of its own in the directory for snapshots. Who asked for it is noted, and
/// waits for it.
pub proof fn law_planned_cut_is_started(
    before: Service,
    after: Service,
    options: ChangesOptions,
    live_uuid: [u8; 16],
    ids: CutIds,
    plan: CutPlan,
)
    requires
        plans_cut(before, after, options, Ok(live_uuid), ids, Ok(CutStep::Create(plan))),
    ensures
        may_cut(before.store, options.watch_id, options.authorization_id),
        row(before.store.watches@, options.watch_id) matches Some(watch) && watch.live_subvol_uuid
            == live_uuid && watch.state == WatchState::Active,
        plan.reservation.operation_id == ids.operation_id,
        plan.reservation.watch_id == options.watch_id,
        plan.reservation.source_subvol_uuid == live_uuid,
        plan.destination_name@ == said("cut-"@) + hex(ids.name_id@),
        plan.destination_path@ == joined(
            before.config.managed_snapshot_directory@,
            plan.destination_name@,
        ),
        works_on(after.store, plan.reservation, before.lease_owner, OperationState::FsStarted),
        row(after.store.operations@, ids.operation_id) matches Some(operation)
            && operation.reserved_path@ == plan.destination_path@ && operation.requester_uid
            == options.requester_uid && operation.requester_gid == options.requester_gid
            && operation.authorization_id == options.authorization_id
            && operation.lease_expires_ns == Some((options.now_ns + before.config.lease_ns) as i64)
            && operation.updated_ns == options.now_ns,
        plan.admission.id == ids.admission_id,
        plan.admission.reservation.operation_id == ids.operation_id,
        plan.admission.requester_session_id == before.manager_session_id,
{
    law_names_say_what_they_are_for();
    let expires_ns = (options.now_ns + before.config.lease_ns) as i64;
    let owner = before.lease_owner;
    let planned: Result<CutStep, ServiceError> = Ok(CutStep::Create(plan));
    let (request, middle, reserved) = choose|
        request: CutRequest,
        middle: Store,
        reserved: Result<CutReservation, ManagerError>,
    |
        #[trigger] reserves_cut(before.store, middle, request, ids.operation_id, reserved)
            && cut_request(before, options, expires_ns, ids.name_id, request) && reserved is Ok
            && leads_cut(
            before,
            middle,
            after.store,
            options,
            expires_ns,
            live_uuid,
            reserved->Ok_0,
            ids,
            planned,
        );
    let reservation = reserved->Ok_0;
    law_reserved_cut(before.store, middle, request, ids.operation_id, reserved);
    let (second, admitted) = choose|
        second: Store,
        admitted: Result<Option<CutAdmission>, ManagerError>,
    |
        #[trigger] admits(before, middle, second, options, expires_ns, ids.admission_id, admitted)
            && admitted is Ok && admitted->Ok_0 is Some && begins_cut(
            before,
            second,
            after.store,
            reservation,
            admitted->Ok_0->0,
            options.now_ns,
            ids.name_id,
            planned,
        ) && admitted->Ok_0->0.reservation.operation_id == reservation.operation_id
            && reservation.source_subvol_uuid == live_uuid;
    law_joined_cut(
        middle,
        second,
        options.watch_id,
        options.authorization_id,
        before.manager_session_id,
        "query"@,
        options.now_ns,
        expires_ns,
        ids.admission_id,
        admitted,
    );
    let started = choose|started: Result<(), ManagerError>| #[trigger]
        starts_cut(second, after.store, reservation, owner, options.now_ns, started)
            && started is Ok;
    law_started_cut(second, after.store, reservation, owner, options.now_ns, started);
}

/// Who asks for changes waits for the earliest cut of the watch that did not start, until
/// their lease runs out; where there is none, they open the tree of the watch.
pub proof fn law_joined_or_opened(
    before: Service,
    after: Service,
    options: ChangesOptions,
    id: [u8; 16],
    join: Result<CutJoin, ServiceError>,
)
    requires
        joins_cut(before, after, options, id, join),
    ensures
        join is Ok ==> may_cut(before.store, options.watch_id, options.authorization_id),
        join matches Ok(CutJoin::Wait { admission, expires_ns }) ==> {
            &&& expires_ns == options.now_ns + before.config.lease_ns
            &&& admission.id == id
            &&& admission.requester_session_id == before.manager_session_id
            &&& admission.reservation.watch_id == options.watch_id
            &&& exists|i: int|
                0 <= i < before.store.operations@.len() && #[trigger] planned_for(
                    before.store.operations@[i],
                    options.watch_id,
                ) && before.store.operations@[i].id == admission.reservation.operation_id
        },
        join matches Ok(CutJoin::Open { live_path }) ==> {
            &&& after == before
            &&& row(before.store.watches@, options.watch_id) matches Some(watch)
            &&& watch.state == WatchState::Active
            &&& watch.live_path@ == live_path@
            &&& forall|i: int|
                0 <= i < before.store.operations@.len() ==> !planned_for(
                    #[trigger] before.store.operations@[i],
                    options.watch_id,
                )
        },
{
    if join is Ok {
        let expires_ns = (options.now_ns + before.config.lease_ns) as i64;
        let admitted = choose|admitted: Result<Option<CutAdmission>, ManagerError>| #[trigger]
            admits(before, before.store, after.store, options, expires_ns, id, admitted) && (
            match admitted {
                Err(fault) => join is Err,
                Ok(Some(admission)) => join == Ok::<CutJoin, ServiceError>(
                    CutJoin::Wait { admission, expires_ns },
                ),
                Ok(None) => match (
                    crate::service::flow::live_path_of(after.store, options.watch_id),
                    join,
                ) {
                    (Some(stored), Ok(CutJoin::Open { live_path })) => live_path@ == stored,
                    (None, Err(error)) => true,
                    _ => false,
                },
            });
        law_joined_cut(
            before.store,
            after.store,
            options.watch_id,
            options.authorization_id,
            before.manager_session_id,
            "query"@,
            options.now_ns,
            expires_ns,
            id,
            admitted,
        );
    }
}

/// What comes of completing a cut is the snapshot that was made for it, as it was found,
/// and the path of its base. Where it was not made yet, it is.
pub proof fn law_completed_cut_is_made(
    before: Service,
    after: Service,
    completion: CutCompletion,
    record: CutRecord,
)
    requires
        completes_record(before, after, completion, Ok(record)),
        !completion.physical_published,
    ensures
        completion.target is Some,
        works_on(
            after.store,
            completion.reservation,
            completion.lease_owner,
            OperationState::ManifestReady,
        ),
        row(after.store.watches@, completion.reservation.watch_id) matches Some(watch)
            && watch.last_cut_snapshot_id == Some(record.recorded.snapshot_id)
            && watch.last_cut_seq == Some(completion.reservation.sequence),
        numbered(
            after.store.snapshots@,
            completion.reservation.base_snapshot_id,
        ) matches Some(base) && base.physical_state == PhysicalState::Present && base.path@
            == record.base_path@,
        completion.recorded is None ==> {
            let target = completion.target->0;
            &&& record.recorded.identity.subvol_uuid == target.subvolume_uuid
            &&& record.recorded.identity.fs_uuid == target.filesystem_uuid
            &&& record.recorded.identity.path@ == completion.destination_path@
            &&& target.readonly
            &&& target.parent_uuid == Some(completion.reservation.source_subvol_uuid)
        },
        completion.recorded matches Some(earlier) ==> record.recorded.snapshot_id
            == earlier.snapshot_id && record.recorded.identity.subvol_uuid
            == earlier.identity.subvol_uuid,
{
    let found: Result<CutRecord, ServiceError> = Ok(record);
    let owner = completion.lease_owner;
    let reservation = completion.reservation;
    match completion.recorded {
        Some(recorded) => {
            let published = choose|published: Result<(), ManagerError>| #[trigger]
                publishes_cut(
                    before.store,
                    after.store,
                    reservation,
                    owner,
                    recorded,
                    completion.now_ns,
                    published,
                ) && published is Ok;
            law_made_cut(
                before.store,
                after.store,
                reservation,
                owner,
                recorded,
                completion.now_ns,
                published,
            );
        },
        None => {
            let target = completion.target->0;
            let (identity, middle, inner) = choose|
                identity: SnapshotIdentity,
                middle: Store,
                inner: Result<RecordedSnapshot, ManagerError>,
            |
                #[trigger] records_cut(
                    before.store,
                    middle,
                    reservation,
                    owner,
                    identity,
                    completion.now_ns,
                    inner,
                ) && identity == crate::service::checks::identity_of(
                    target,
                    identity.path,
                    completion.now_ns,
                ) && identity.path@ == completion.destination_path@ && inner is Ok
                    && publishes_record(middle, after.store, completion, inner->Ok_0, found);
            law_recorded_cut(
                before.store,
                middle,
                reservation,
                owner,
                identity,
                completion.now_ns,
                inner,
            );
            let recorded = inner->Ok_0;
            let published = choose|published: Result<(), ManagerError>| #[trigger]
                publishes_cut(
                    middle,
                    after.store,
                    reservation,
                    owner,
                    recorded,
                    completion.now_ns,
                    published,
                ) && published is Ok;
            law_made_cut(
                middle,
                after.store,
                reservation,
                owner,
                recorded,
                completion.now_ns,
                published,
            );
        },
    }
}

/// The ends of a comparison are accepted exactly where the base is the stored snapshot that
/// the cut builds on, and the target is just as it was found.
pub proof fn law_accepted_ends(
    store: Store,
    completion: CutCompletion,
    base: ExpectedSubvolume,
    target: ExpectedSubvolume,
)
    ensures
        endpoints_fault(store, completion, base, target) is None <==> {
            &&& numbered(
                store.snapshots@,
                completion.reservation.base_snapshot_id,
            ) matches Some(snapshot)
            &&& snapshot.physical_state == PhysicalState::Present
            &&& snapshot.subvol_uuid == base.subvolume_uuid
            &&& completion.target == Some(target)
        },
{
}

/// A caller who waits is told to go on waiting only while they wait and have time by both
/// clocks, and is given a cut only once it is settled.
pub proof fn law_waited_for_cut(
    store: Store,
    admission: CutAdmission,
    now_ns: i64,
    expires_ns: i64,
    told: Result<Option<PublishedCut>, ServiceError>,
)
    requires
        waits_for_cut(store, admission, now_ns, expires_ns, told),
    ensures
        told matches Ok(None) ==> still_waits(store, admission) && now_ns < expires_ns,
        still_waits(store, admission) && now_ns < expires_ns && now_ns < row(
            store.admissions@,
            admission.id,
        )->0.expires_ns ==> told matches Ok(None),
        still_waits(store, admission) && !(now_ns < expires_ns) ==> told is Err,
{
    let polled = choose|polled: Result<Option<PublishedCut>, ManagerError>| #[trigger]
        polls_admission(store, admission, now_ns, polled) && match polled {
            Err(fault) => told is Err,
            Ok(Some(cut)) => told == Ok::<Option<PublishedCut>, ServiceError>(Some(cut)),
            Ok(None) => if now_ns >= expires_ns {
                told is Err
            } else {
                told == Ok::<Option<PublishedCut>, ServiceError>(None)
            },
        };
    law_asked_about_cut(store, admission, now_ns, polled);
}

/// Time that passed is added to the time of the admission, up to the largest number.
pub proof fn law_time_passes(admitted_ns: i64, elapsed_ns: u128)
    ensures
        admitted_ns + elapsed_ns <= i64::MAX && elapsed_ns <= i64::MAX ==> waited(
            admitted_ns,
            elapsed_ns,
        ) == admitted_ns + elapsed_ns,
        admitted_ns >= 0 && admitted_ns + elapsed_ns > i64::MAX ==> waited(admitted_ns, elapsed_ns)
            == i64::MAX,
        waited(admitted_ns, elapsed_ns) >= admitted_ns,
{
}

/// A deletion is recorded only where the subvolume that went is the one that was meant; and
/// each of its steps is taken only by the owner and in its turn.
pub proof fn law_collected_snapshot_is_the_one_meant(
    before: Store,
    after: Store,
    reservation: SnapshotDeleteReservation,
    owner: [u8; 16],
    deleted_uuid: [u8; 16],
    now_ns: i64,
    outcome: Result<(), ServiceError>,
)
    ensures
        records_collection(before, after, reservation, owner, deleted_uuid, now_ns, outcome) ==> {
            &&& outcome is Ok <==> deleted_uuid == reservation.identity.subvol_uuid && deletes(
                before,
                reservation,
                owner,
                DeleteState::FsStarted,
            )
            &&& outcome is Ok ==> deletes(after, reservation, owner, DeleteState::DeleteDurable)
            &&& outcome is Err ==> after == before
        },
        starts_collection(before, after, reservation, owner, now_ns, outcome) ==> {
            &&& outcome is Ok <==> deletes(before, reservation, owner, DeleteState::Planned)
            &&& outcome is Ok ==> deletes(after, reservation, owner, DeleteState::FsStarted)
            &&& outcome is Err ==> after == before
        },
{
    if records_collection(before, after, reservation, owner, deleted_uuid, now_ns, outcome)
        && deleted_uuid == reservation.identity.subvol_uuid {
        let inner = choose|inner: Result<(), ManagerError>| #[trigger]
            records_delete(before, after, reservation, owner, now_ns, inner) && carries(
                inner,
                outcome,
                "record durable snapshot GC"@,
            );
        law_steps_of_a_deletion(before, after, reservation, owner, now_ns, inner);
    }
    if starts_collection(before, after, reservation, owner, now_ns, outcome) {
        let inner = choose|inner: Result<(), ManagerError>| #[trigger]
            starts_delete(before, after, reservation, owner, now_ns, inner) && carries(
                inner,
                outcome,
                "start snapshot GC effect"@,
            );
        law_steps_of_a_deletion(before, after, reservation, owner, now_ns, inner);
    }
}

/// Whether the operation is a cut of the watch that was published by then.
pub open spec fn published_by(operation: Operation, watch_id: [u8; 16], by_ns: int) -> bool {
    &&& operation.watch_id == watch_id
    &&& operation.kind == OperationKind::Cut
    &&& operation.state == OperationState::Done
    &&& operation.updated_ns <= by_ns
    &&& operation.sequence is Some
}

proof fn lemma_latest(
    operations: Seq<Operation>,
    watch_id: [u8; 16],
    limit: i64,
    by_ns: i64,
    n: int,
)
    requires
        0 <= n <= operations.len(),
    ensures
        match latest_before(operations, settled_cuts(watch_id, limit, by_ns), n) {
            Some(latest) => (exists|i: int|
                0 <= i < n && #[trigger] published_by(operations[i], watch_id, by_ns as int)
                    && operations[i].sequence == Some(latest) && latest <= limit) && forall|i: int|
                0 <= i < n && #[trigger] published_by(operations[i], watch_id, by_ns as int)
                    && operations[i].sequence->0 <= limit ==> operations[i].sequence->0 <= latest,
            None => forall|i: int|
                0 <= i < n && #[trigger] published_by(operations[i], watch_id, by_ns as int)
                    ==> operations[i].sequence->0 > limit,
        },
    decreases n,
{
    if n > 0 {
        lemma_latest(operations, watch_id, limit, by_ns, n - 1);
        let picks = settled_cuts(watch_id, limit, by_ns);
        let here = operations[n - 1];
        assert(picks(here) == (published_by(here, watch_id, by_ns as int) && here.sequence->0
            <= limit));
        if let Some(latest) = latest_before(operations, picks, n) {
            if picks(here) && here.sequence == Some(latest) {
                assert(published_by(operations[n - 1], watch_id, by_ns as int));
            } else {
                let i = choose|i: int|
                    0 <= i < n - 1 && #[trigger] published_by(
                        operations[i],
                        watch_id,
                        by_ns as int,
                    ) && operations[i].sequence == Some(latest) && latest <= limit;
                assert(published_by(operations[i], watch_id, by_ns as int));
            }
        }
    }
}

/// History is kept from the latest cut on that is both old enough and far enough behind: as
/// many cuts as the window holds stay, and all that are younger than it; and nothing that is
/// neither is kept.
pub proof fn law_history_is_kept_as_long_as_asked(
    store: Store,
    config: ServiceConfig,
    span: HistorySpan,
    now_ns: i64,
)
    requires
        i64::MIN <= span.indexed - config.replay_window_cuts <= i64::MAX,
        i64::MIN <= now_ns - config.replay_window_ns <= i64::MAX,
    ensures
        ({
            let floor = floor_target(store, config, span, now_ns);
            let behind = span.indexed - config.replay_window_cuts;
            let by_ns = now_ns - config.replay_window_ns;
            &&& floor >= span.floor
            &&& floor > span.floor ==> floor <= behind && exists|i: int|
                0 <= i < store.operations@.len() && #[trigger] published_by(
                    store.operations@[i],
                    span.watch_id,
                    by_ns,
                ) && store.operations@[i].sequence == Some(floor)
            &&& forall|i: int|
                0 <= i < store.operations@.len() && #[trigger] published_by(
                    store.operations@[i],
                    span.watch_id,
                    by_ns,
                ) && store.operations@[i].sequence->0 <= behind ==> store.operations@[i].sequence->0
                    <= floor
        }),
{
    let behind = (span.indexed - config.replay_window_cuts) as i64;
    let by_ns = (now_ns - config.replay_window_ns) as i64;
    let limit = larger(behind, span.floor);
    let n = store.operations@.len() as int;
    lemma_latest(store.operations@, span.watch_id, limit, by_ns, n);
}

/// A cut that was taken up after its snapshot was recorded goes on only where the snapshot
/// still is the recorded one, part by part, and as it was found now.
pub proof fn law_recorded_cut_goes_on(
    operation: RecoveringCut,
    opened: Result<ExpectedSubvolume, String>,
    completion: Result<CutCompletion, ServiceError>,
)
    requires
        resumes_recorded(operation, opened, completion),
    ensures
        opened is Err ==> completion is Err,
        completion matches Ok(going) ==> {
            &&& opened matches Ok(found)
            &&& going == (CutCompletion { target: Some(found), ..operation.completion })
            &&& operation.completion.recorded matches Some(recorded) ==> {
                &&& recorded.identity.fs_uuid == found.filesystem_uuid
                &&& recorded.identity.subvol_uuid == found.subvolume_uuid
                &&& recorded.identity.parent_uuid == found.parent_uuid
                &&& recorded.identity.received_uuid == found.received_uuid
                &&& recorded.identity.root_id == found.root_id
                &&& recorded.identity.ctransid == found.ctransid
                &&& recorded.identity.otransid == found.otransid
                &&& recorded.identity.readonly == found.readonly
            }
        },
{
}

/// A round of reading adds what was read to the journal, in its turn, and gives the cursor at
/// its end exactly where the marker went; where reading failed, the journal is given up.
pub proof fn law_round_is_journaled(
    before: GuardView,
    after: GuardView,
    store_before: Store,
    store_after: Store,
    activation: FacadeActivation,
    read: Result<(Vec<MutationHint>, bool), PrecisionError>,
    observed_ns: i64,
    drained: Result<Option<GuardCursor>, PrecisionError>,
)
    requires
        drains(
            before,
            after,
            store_before,
            store_after,
            activation,
            read,
            observed_ns,
            drained,
        ),
    ensures
        read is Err ==> drained is Err && after.gapped && after.epoch == before.epoch && after.root
            == before.root && after.directories == before.directories,
        read is Ok ==> after == before,
        read matches Ok((hints, gone)) ==> (drained matches Ok(cursor) ==> {
            &&& cursor is Some <==> gone
            &&& cursor matches Some(end) ==> end.epoch == before.epoch
            &&& keeps_journal(store_before, activation, before.epoch)
            &&& store_after.mutation_events@.len() == store_before.mutation_events@.len()
                + hints@.len()
        }),
        read is Ok && drained is Err ==> store_after == store_before,
{
    if let Ok((hints, gone)) = read {
        let appended = choose|appended: Result<GuardCursor, ManagerError>| #[trigger]
            appends_events(
                store_before,
                store_after,
                activation,
                before.epoch,
                hints@,
                observed_ns,
                appended,
            ) && match appended {
                Ok(cursor) => drained == Ok::<Option<GuardCursor>, PrecisionError>(
                    if gone {
                        Some(cursor)
                    } else {
                        None
                    },
                ),
                Err(fault) => drained is Err,
            };
        law_journal_takes_events(
            store_before,
            store_after,
            activation,
            before.epoch,
            hints@,
            observed_ns,
            appended,
        );
    }
}

proof fn lemma_children(relative: Seq<u8>, entries: Seq<TreeEntry>, n: int, path: Seq<u8>)
    requires
        0 <= n <= entries.len(),
    ensures
        children_before(relative, entries, n).contains(path) <==> exists|i: int|
            0 <= i < n && (#[trigger] entries[i]).is_directory && !entries[i].is_symlink && path == (
            if relative.len() == 0 {
                entries[i].name@
            } else {
                relative + seq![0x2fu8] + entries[i].name@
            }),
    decreases n,
{
    let all = children_before(relative, entries, n);
    if n > 0 {
        lemma_children(relative, entries, n - 1, path);
        let front = children_before(relative, entries, n - 1);
        let here = entries[n - 1];
        let own = if relative.len() == 0 {
            here.name@
        } else {
            relative + seq![0x2fu8] + here.name@
        };
        assert(below(relative, here.name@) =~= own);
        if all.contains(path) {
            let k = choose|k: int| 0 <= k < all.len() && all[k] == path;
            if k < front.len() {
                assert(front[k] == path);
                let i = choose|i: int|
                    0 <= i < n - 1 && (#[trigger] entries[i]).is_directory && !entries[i].is_symlink
                        && path == (if relative.len() == 0 {
                        entries[i].name@
                    } else {
                        relative + seq![0x2fu8] + entries[i].name@
                    });
                assert(entries[i].is_directory);
            } else {
                assert(entries[n - 1].is_directory);
            }
        }
        if exists|i: int|
            0 <= i < n && (#[trigger] entries[i]).is_directory && !entries[i].is_symlink && path == (
            if relative.len() == 0 {
                entries[i].name@
            } else {
                relative + seq![0x2fu8] + entries[i].name@
            }) {
            let i = choose|i: int|
                0 <= i < n && (#[trigger] entries[i]).is_directory && !entries[i].is_symlink && path
                    == (if relative.len() == 0 {
                    entries[i].name@
                } else {
                    relative + seq![0x2fu8] + entries[i].name@
                });
            if i < n - 1 {
                assert(front.contains(path));
                let k = choose|k: int| 0 <= k < front.len() && front[k] == path;
                assert(all[k] == path);
            } else {
                assert(all[front.len() as int] == path);
            }
        }
    }
}

/// Every directory in a watched one is watched too, and nothing else: symbolic links are not
/// followed.
pub proof fn law_directories_are_watched(relative: Seq<u8>, entries: Seq<TreeEntry>, path: Seq<u8>)
    ensures
        children_before(relative, entries, entries.len() as int).contains(path) <==> exists|i: int|
            0 <= i < entries.len() && (#[trigger] entries[i]).is_directory && !entries[i].is_symlink
                && path == (if relative.len() == 0 {
                entries[i].name@
            } else {
                relative + seq![0x2fu8] + entries[i].name@
            }),
{
    lemma_children(relative, entries, entries.len() as int, path);
}

/// Waiting for a marker ends where the poll says that the journal failed, or after a hundred
/// rounds.
pub proof fn law_waiting_for_a_marker_ends(round: u32, polled: Result<i16, String>)
    ensures
        poll_fault(round, polled) is None <==> (polled matches Ok(revents) && revents & 0x8 == 0
            && revents & 0x10 == 0 && revents & 0x20 == 0 && round < 99),
{
    if let Ok(revents) = polled {
        assert((revents & (0x8i16 | 0x10i16 | 0x20i16) != 0) == (revents & 0x8 != 0 || revents
            & 0x10 != 0 || revents & 0x20 != 0)) by (bit_vector);
    }
}

} // verus!
