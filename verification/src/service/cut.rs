//! Cutting a watch, from the request to the published changes.

use crate::digest::{drawn, random_id};
use crate::manager::compact::RevisionReport;
use crate::manager::cuts::{
    admits_cut, polls_admission, publishes_cut, records_cut, reserves_cut, starts_cut,
};
use crate::manager::delta::{publishes_adjacent, AppliedDelta};
use crate::manager::fresh::{publishes_fresh, PathLookup};
use crate::manager::metadata::{covers, DeltaDigests};
use crate::manager::publish::CheckedIndex;
use crate::manager::rows::{no_rows, Store};
use crate::manager::types::{
    same_identity, CutAdmission, CutRequest, CutReservation, ManagerError, PublishedCut,
    RecordedSnapshot, SnapshotIdentity,
};
use crate::manifest::{ChangedObjectsManifest, ManifestView};
use crate::names::{hex, manifest_name, manifest_spool_name, operation_name_as, CUT_PREFIX};
use crate::paths::{file_name, join, joined, last_name};
use crate::service::checks::{
    identity_of, is_recorded, snapshot_identity, verify_recorded_snapshot, ExpectedSubvolume,
};
use crate::service::config::{expiry_of, lease_expiry, ChangesOptions, ServiceConfig, ServiceError};
use crate::service::decode::{CutCompletion, RecoveringCut};
use crate::service::flow::{carries, carry, live_path_of, path_of, uuid_of, Service};
use crate::text::{copy_bytes, in_context, same_array};
use std::collections::BTreeMap;
use vstd::prelude::*;

verus! {

/// How a request for changes goes on: with a cut that another began, or with
/// one of its own.
#[derive(Debug)]
pub enum CutJoin {
    Wait { admission: CutAdmission, expires_ns: i64 },
    Open { live_path: Vec<u8> },
}

/// How a cut of its own goes on.
#[derive(Debug)]
pub enum CutStep {
    Wait { admission: CutAdmission, expires_ns: i64 },
    Create(CutPlan),
}

/// A snapshot that is to be made for a cut.
#[derive(Clone, Debug, Eq, PartialEq)]
pub struct CutPlan {
    pub reservation: CutReservation,
    pub admission: CutAdmission,
    pub destination_name: Vec<u8>,
    pub destination_path: Vec<u8>,
}

/// The identifiers that a cut of its own may need.
#[derive(Clone, Copy, Debug, Eq, PartialEq)]
pub struct CutIds {
    pub name_id: [u8; 16],
    pub operation_id: [u8; 16],
    pub retry_id: [u8; 16],
    pub admission_id: [u8; 16],
}

impl CutIds {
    /// Whether each of them has the version and the variant of a random
    /// identifier.
    pub open spec fn drawn(self) -> bool {
        &&& drawn(self.name_id)
        &&& drawn(self.operation_id)
        &&& drawn(self.retry_id)
        &&& drawn(self.admission_id)
    }
}

/// What asking to join a planned cut does.
pub open spec fn admits(
    service: Service,
    before: Store,
    after: Store,
    options: ChangesOptions,
    expires_ns: i64,
    id: [u8; 16],
    admitted: Result<Option<CutAdmission>, ManagerError>,
) -> bool {
    admits_cut(
        before,
        after,
        options.watch_id,
        options.authorization_id,
        service.manager_session_id,
        "query"@,
        options.now_ns,
        expires_ns,
        id,
        admitted,
    )
}

/// What joining a planned cut does, where the admission lasts that long.
pub open spec fn joins_until(
    before: Service,
    after: Store,
    options: ChangesOptions,
    expires_ns: i64,
    id: [u8; 16],
    joined: Result<CutJoin, ServiceError>,
) -> bool {
    exists|admitted: Result<Option<CutAdmission>, ManagerError>| #[trigger]
        admits(before, before.store, after, options, expires_ns, id, admitted) && match admitted {
            Err(fault) => {
                &&& joined matches Err(error)
                &&& error@ == in_context("join planned cut"@, fault@)
            },
            Ok(Some(admission)) => joined == Ok::<CutJoin, ServiceError>(
                CutJoin::Wait { admission, expires_ns },
            ),
            Ok(None) => match (live_path_of(after, options.watch_id), joined) {
                (Some(stored), Ok(CutJoin::Open { live_path })) => live_path@ == stored,
                (None, Err(error)) => error@ == in_context("load watch paths"@, no_rows()),
                _ => false,
            },
        }
}

/// What joining a planned cut does.
pub open spec fn joins_cut(
    before: Service,
    after: Service,
    options: ChangesOptions,
    id: [u8; 16],
    joined: Result<CutJoin, ServiceError>,
) -> bool {
    &&& after == (Service { store: after.store, ..before })
    &&& match expiry_of(options.now_ns, before.config.lease_ns) {
        Err(fault) => {
            &&& after == before
            &&& joined matches Err(error)
            &&& error@ == fault
        },
        Ok(expires_ns) => joins_until(before, after.store, options, expires_ns, id, joined),
    }
}

/// Whether the request asks for a cut under the options, with a snapshot named
/// by the identifier.
pub open spec fn cut_request(
    service: Service,
    options: ChangesOptions,
    expires_ns: i64,
    id: [u8; 16],
    request: CutRequest,
) -> bool {
    &&& request == (CutRequest {
        watch_id: options.watch_id,
        authorization_id: options.authorization_id,
        reserved_snapshot_path: request.reserved_snapshot_path,
        requester_uid: options.requester_uid,
        requester_gid: options.requester_gid,
        lease_owner: service.lease_owner,
        now_ns: options.now_ns,
        lease_expires_ns: expires_ns,
    })
    &&& request.reserved_snapshot_path@ == joined(
        service.config.managed_snapshot_directory@,
        CUT_PREFIX@ + hex(id@),
    )
}

/// What joining does once the cut could not be reserved.
pub open spec fn retries_cut(
    service: Service,
    middle: Store,
    after: Store,
    options: ChangesOptions,
    expires_ns: i64,
    id: [u8; 16],
    refusal: Seq<char>,
    planned: Result<CutStep, ServiceError>,
) -> bool {
    exists|admitted: Result<Option<CutAdmission>, ManagerError>| #[trigger]
        admits(service, middle, after, options, expires_ns, id, admitted) && match admitted {
            Err(fault) => {
                &&& planned matches Err(error)
                &&& error@ == in_context("retry cut admission"@, fault@)
            },
            Ok(Some(admission)) => planned == Ok::<CutStep, ServiceError>(
                CutStep::Wait { admission, expires_ns },
            ),
            Ok(None) => {
                &&& planned matches Err(error)
                &&& error@ == in_context("reserve cut"@, refusal)
            },
        }
}

/// What starting the effect of a reserved cut does.
pub open spec fn begins_cut(
    service: Service,
    middle: Store,
    after: Store,
    reservation: CutReservation,
    admission: CutAdmission,
    now_ns: i64,
    id: [u8; 16],
    planned: Result<CutStep, ServiceError>,
) -> bool {
    exists|started: Result<(), ManagerError>| #[trigger]
        starts_cut(middle, after, reservation, service.lease_owner, now_ns, started)
            && match started {
            Err(fault) => {
                &&& planned matches Err(error)
                &&& error@ == in_context("start cut effect"@, fault@)
            },
            Ok(_) => {
                &&& planned matches Ok(CutStep::Create(plan))
                &&& plan.reservation == reservation
                &&& plan.admission == admission
                &&& plan.destination_name@ == CUT_PREFIX@ + hex(id@)
                &&& plan.destination_path@ == joined(
                    service.config.managed_snapshot_directory@,
                    CUT_PREFIX@ + hex(id@),
                )
            },
        }
}

/// Why a reserved cut cannot go on.
pub open spec fn lead_fault(
    admission: Option<CutAdmission>,
    reservation: CutReservation,
    live_uuid: [u8; 16],
) -> Option<Seq<char>> {
    match admission {
        None => Some("reserved cut was closed before leader admission"@),
        Some(admission) => if admission.reservation.operation_id != reservation.operation_id {
            Some("leader admission attached to a different cut operation"@)
        } else if reservation.source_subvol_uuid != live_uuid {
            Some("watched live subvolume no longer matches the reserved UUID"@)
        } else {
            None
        },
    }
}

/// What leading a reserved cut does.
pub open spec fn leads_cut(
    service: Service,
    middle: Store,
    after: Store,
    options: ChangesOptions,
    expires_ns: i64,
    live_uuid: [u8; 16],
    reservation: CutReservation,
    ids: CutIds,
    planned: Result<CutStep, ServiceError>,
) -> bool {
    exists|second: Store, admitted: Result<Option<CutAdmission>, ManagerError>| #[trigger]
        admits(service, middle, second, options, expires_ns, ids.admission_id, admitted)
            && match admitted {
            Err(fault) => {
                &&& after == second
                &&& planned matches Err(error)
                &&& error@ == in_context("admit cut leader"@, fault@)
            },
            Ok(admission) => match lead_fault(admission, reservation, live_uuid) {
                Some(fault) => {
                    &&& after == second
                    &&& planned matches Err(error)
                    &&& error@ == fault
                },
                None => begins_cut(
                    service,
                    second,
                    after,
                    reservation,
                    admission->0,
                    options.now_ns,
                    ids.name_id,
                    planned,
                ),
            },
        }
}

/// What reserving a cut of its own does, where its leases last that long.
pub open spec fn plans_until(
    before: Service,
    after: Store,
    options: ChangesOptions,
    live_uuid: [u8; 16],
    expires_ns: i64,
    ids: CutIds,
    planned: Result<CutStep, ServiceError>,
) -> bool {
    exists|request: CutRequest, middle: Store, reserved: Result<CutReservation, ManagerError>|
        #[trigger] reserves_cut(before.store, middle, request, ids.operation_id, reserved)
            && cut_request(before, options, expires_ns, ids.name_id, request) && match reserved {
            Err(fault) => retries_cut(
                before,
                middle,
                after,
                options,
                expires_ns,
                ids.retry_id,
                fault@,
                planned,
            ),
            Ok(reservation) => leads_cut(
                before,
                middle,
                after,
                options,
                expires_ns,
                live_uuid,
                reservation,
                ids,
                planned,
            ),
        }
}

/// What reserving a cut of its own does.
pub open spec fn plans_cut(
    before: Service,
    after: Service,
    options: ChangesOptions,
    opened: Result<[u8; 16], String>,
    ids: CutIds,
    planned: Result<CutStep, ServiceError>,
) -> bool {
    &&& after == (Service { store: after.store, ..before })
    &&& match opened {
        Err(cause) => {
            &&& after == before
            &&& planned matches Err(error)
            &&& error@ == in_context("open watched subvolume"@, cause@)
        },
        Ok(live_uuid) => match expiry_of(options.now_ns, before.config.lease_ns) {
            Err(fault) => {
                &&& after == before
                &&& planned matches Err(error)
                &&& error@ == fault
            },
            Ok(expires_ns) => plans_until(
                before,
                after.store,
                options,
                live_uuid,
                expires_ns,
                ids,
                planned,
            ),
        },
    }
}

/// A recorded cut, and where its base lies.
#[derive(Debug)]
pub struct CutRecord {
    pub recorded: RecordedSnapshot,
    pub base_path: Vec<u8>,
}

/// Whether two recorded snapshots are the same.
pub open spec fn same_record(left: RecordedSnapshot, right: RecordedSnapshot) -> bool {
    left.snapshot_id == right.snapshot_id && same_identity(left.identity, right.identity)
}

/// What loading the base of a recorded cut gives.
pub open spec fn finds_base(
    store: Store,
    base_snapshot_id: i64,
    recorded: RecordedSnapshot,
    found: Result<CutRecord, ServiceError>,
) -> bool {
    match (path_of(store, base_snapshot_id), found) {
        (Some(stored), Ok(record)) => same_record(record.recorded, recorded)
            && record.base_path@ == stored,
        (None, Err(error)) => error@ == in_context("load snapshot path"@, no_rows()),
        _ => false,
    }
}

/// What publishing a recorded cut does.
pub open spec fn publishes_record(
    middle: Store,
    after: Store,
    completion: CutCompletion,
    recorded: RecordedSnapshot,
    found: Result<CutRecord, ServiceError>,
) -> bool {
    exists|published: Result<(), ManagerError>| #[trigger]
        publishes_cut(
            middle,
            after,
            completion.reservation,
            completion.lease_owner,
            recorded,
            completion.now_ns,
            published,
        ) && match published {
            Err(fault) => {
                &&& found matches Err(error)
                &&& error@ == in_context("publish physical cut"@, fault@)
            },
            Ok(_) => finds_base(after, completion.reservation.base_snapshot_id, recorded, found),
        }
}

/// What goes on with a recorded cut.
pub open spec fn settles_record(
    middle: Store,
    after: Store,
    completion: CutCompletion,
    recorded: RecordedSnapshot,
    found: Result<CutRecord, ServiceError>,
) -> bool {
    if completion.physical_published {
        after == middle && finds_base(
            after,
            completion.reservation.base_snapshot_id,
            recorded,
            found,
        )
    } else {
        publishes_record(middle, after, completion, recorded, found)
    }
}

/// What recording the snapshot of a cut does.
pub open spec fn records_target(
    before: Store,
    after: Store,
    completion: CutCompletion,
    target: ExpectedSubvolume,
    found: Result<CutRecord, ServiceError>,
) -> bool {
    exists|
        identity: SnapshotIdentity,
        middle: Store,
        inner: Result<RecordedSnapshot, ManagerError>,
    | #[trigger]
        records_cut(
            before,
            middle,
            completion.reservation,
            completion.lease_owner,
            identity,
            completion.now_ns,
            inner,
        ) && identity == identity_of(target, identity.path, completion.now_ns) && identity.path@
            == completion.destination_path@ && match inner {
            Err(fault) => {
                &&& after == middle
                &&& found matches Err(error)
                &&& error@ == in_context("record cut snapshot"@, fault@)
            },
            Ok(recorded) => settles_record(middle, after, completion, recorded, found),
        }
}

/// What recording and publishing the snapshot of a cut does.
pub open spec fn completes_record(
    before: Service,
    after: Service,
    completion: CutCompletion,
    found: Result<CutRecord, ServiceError>,
) -> bool {
    &&& after == (Service { store: after.store, ..before })
    &&& match completion.target {
        None => {
            &&& after == before
            &&& found matches Err(error)
            &&& error@ == "cut completion omits target identity"@
        },
        Some(target) => match completion.recorded {
            Some(recorded) => settles_record(
                before.store,
                after.store,
                completion,
                recorded,
                found,
            ),
            None => records_target(before.store, after.store, completion, target, found),
        },
    }
}

/// Why the endpoints of a comparison are not the reserved snapshots.
pub open spec fn endpoints_fault(
    store: Store,
    completion: CutCompletion,
    base: ExpectedSubvolume,
    target: ExpectedSubvolume,
) -> Option<Seq<char>> {
    match uuid_of(store, completion.reservation.base_snapshot_id) {
        None => Some(in_context("load snapshot UUID"@, no_rows())),
        Some(uuid) => if base.subvolume_uuid != uuid || completion.target != Some(target) {
            Some("comparison endpoints do not match reserved immutable snapshots"@)
        } else {
            None
        },
    }
}

/// Why the endpoints of a comparison cannot be used, as they were opened.
pub open spec fn open_fault(
    store: Store,
    completion: CutCompletion,
    base: Result<ExpectedSubvolume, String>,
    target: Result<ExpectedSubvolume, String>,
) -> Option<Seq<char>> {
    match (base, target) {
        (Err(cause), _) => Some(in_context("open base snapshot"@, cause@)),
        (_, Err(cause)) => Some(in_context("reopen target snapshot"@, cause@)),
        (Ok(base), Ok(target)) => endpoints_fault(store, completion, base, target),
    }
}

/// What comes of comparing a cut with its base.
#[derive(Debug)]
pub enum CutOutcome {
    Settled(Result<PublishedCut, ServiceError>),
    /// The cut is to be indexed as a whole instead.
    Fallback(ServiceError),
}

/// A diagnostic of an incremental cut and of what was tried instead.
pub open spec fn both_failed(
    incremental: Seq<char>,
    step: Seq<char>,
    fallback: Seq<char>,
) -> Seq<char> {
    "incremental cut failed: "@ + incremental + step + fallback
}

fn both_failed_error(incremental: &ServiceError, step: &str, fallback: &str) -> (error: ServiceError)
    ensures
        error@ == both_failed(incremental@, step@, fallback@),
{
    let mut text = String::new();
    text.append("incremental cut failed: ");
    text.append(incremental.message());
    text.append(step);
    text.append(fallback);
    assert(text@ =~= both_failed(incremental@, step@, fallback@));
    ServiceError::of(text)
}

/// An index of a whole snapshot, checked, with the names that its objects have.
#[derive(Debug)]
pub struct FullIndexResult {
    pub checked: CheckedIndex,
    pub paths: BTreeMap<u64, PathLookup>,
    pub dirty_witness_contract: bool,
}

impl FullIndexResult {
    /// The index is sound, and every object's names were looked up.
    pub open spec fn well_formed(&self) -> bool {
        self.checked.index.well_formed() && self.checked.index@.objects.dom().subset_of(
            self.paths@.dom(),
        )
    }
}

/// What publishing a cut as a whole does.
pub open spec fn publishes_whole(
    before: Store,
    after: Store,
    completion: CutCompletion,
    recorded: RecordedSnapshot,
    incremental: Seq<char>,
    full: FullIndexResult,
    published: Result<PublishedCut, ServiceError>,
) -> bool {
    exists|inner: Result<PublishedCut, ManagerError>| #[trigger]
        publishes_fresh(
            before,
            after,
            completion.reservation,
            completion.lease_owner,
            recorded.snapshot_id,
            recorded.identity.subvol_uuid,
            full.checked,
            full.paths@,
            completion.now_ns,
            inner,
        ) && match (inner, published) {
            (Ok(inner), Ok(published)) => published == inner,
            (Err(inner), Err(error)) => error@ == both_failed(
                incremental,
                "; full-fresh publication failed: "@,
                inner@,
            ),
            _ => false,
        }
}

/// What publishing the changes of a cut does.
pub open spec fn publishes_changes(
    before: Store,
    after: Store,
    completion: CutCompletion,
    recorded: RecordedSnapshot,
    manifest: ManifestView,
    applied: AppliedDelta,
    base_report: RevisionReport,
    digests: DeltaDigests,
    published: Result<PublishedCut, ServiceError>,
) -> bool {
    exists|inner: Result<PublishedCut, ManagerError>| #[trigger]
        publishes_adjacent(
            before,
            after,
            completion.reservation,
            completion.lease_owner,
            recorded,
            manifest,
            applied,
            base_report,
            digests,
            completion.now_ns,
            inner,
        ) && carries(inner, published, "publish indexed cut"@)
}

/// What asking for the cut of an admission gives.
pub open spec fn confirms_cut(
    store: Store,
    admission: CutAdmission,
    now_ns: i64,
    confirmed: Result<PublishedCut, ServiceError>,
) -> bool {
    exists|polled: Result<Option<PublishedCut>, ManagerError>| #[trigger]
        polls_admission(store, admission, now_ns, polled) && match polled {
            Err(fault) => {
                &&& confirmed matches Err(error)
                &&& error@ == in_context("validate fulfilled cut admission"@, fault@)
            },
            Ok(None) => {
                &&& confirmed matches Err(error)
                &&& error@ == "published cut admission is still waiting"@
            },
            Ok(Some(cut)) => confirmed == Ok::<PublishedCut, ServiceError>(cut),
        }
}

/// The time after waiting, as far as a number holds it.
pub open spec fn waited(admitted_ns: i64, elapsed_ns: u128) -> i64 {
    let elapsed = if elapsed_ns > i64::MAX {
        i64::MAX as int
    } else {
        elapsed_ns as int
    };
    if admitted_ns + elapsed > i64::MAX {
        i64::MAX
    } else {
        (admitted_ns + elapsed) as i64
    }
}

/// What one look while waiting for a shared cut gives.
pub open spec fn waits_for_cut(
    store: Store,
    admission: CutAdmission,
    now_ns: i64,
    expires_ns: i64,
    waited: Result<Option<PublishedCut>, ServiceError>,
) -> bool {
    exists|polled: Result<Option<PublishedCut>, ManagerError>| #[trigger]
        polls_admission(store, admission, now_ns, polled) && match polled {
            Err(fault) => {
                &&& waited matches Err(error)
                &&& error@ == in_context("wait for shared cut"@, fault@)
            },
            Ok(Some(cut)) => waited == Ok::<Option<PublishedCut>, ServiceError>(Some(cut)),
            Ok(None) => if now_ns >= expires_ns {
                &&& waited matches Err(error)
                &&& error@ == "shared cut admission timed out"@
            } else {
                waited == Ok::<Option<PublishedCut>, ServiceError>(None)
            },
        }
}

impl Service {
    fn ask_admission(&mut self, options: &ChangesOptions, expires_ns: i64, id: [u8; 16]) -> (admitted:
        Result<Option<CutAdmission>, ManagerError>)
        ensures
            *final(self) == (Service { store: final(self).store, ..*old(self) }),
            admits(
                *old(self),
                old(self).store,
                final(self).store,
                *options,
                expires_ns,
                id,
                admitted,
            ),
    {
        let session: [u8; 16] = self.manager_session_id;
        self.store.admit_planned_cut_as(
            options.watch_id,
            options.authorization_id,
            session,
            "query",
            options.now_ns,
            expires_ns,
            id,
        )
    }

    /// Joins a cut that another began, under the identifier, or tells what to
    /// open for one of its own.
    pub fn join_cut_as(&mut self, options: &ChangesOptions, id: [u8; 16]) -> (joined: Result<
        CutJoin,
        ServiceError,
    >)
        ensures
            joins_cut(*old(self), *final(self), *options, id, joined),
            old(self).store.well_formed() ==> final(self).store.well_formed(),
    {
        let expires_ns: i64 = match lease_expiry(options.now_ns, self.config.lease_ns) {
            Ok(expires_ns) => expires_ns,
            Err(error) => {
                return Err(error);
            },
        };
        let admitted = self.ask_admission(options, expires_ns, id);
        assert(admits(
            *old(self),
            old(self).store,
            self.store,
            *options,
            expires_ns,
            id,
            admitted,
        ));
        let joined: Result<CutJoin, ServiceError> = match admitted {
            Err(error) => Err(ServiceError::context("join planned cut", error.message())),
            Ok(Some(admission)) => Ok(CutJoin::Wait { admission, expires_ns }),
            Ok(None) => match self.watch_paths(&options.watch_id) {
                Ok(live_path) => Ok(CutJoin::Open { live_path }),
                Err(error) => Err(error),
            },
        };
        assert(joins_until(*old(self), self.store, *options, expires_ns, id, joined));
        joined
    }

    /// Joins a cut that another began, or tells what to open for one of its
    /// own.
    pub fn join_cut(&mut self, options: &ChangesOptions) -> (joined: Result<CutJoin, ServiceError>)
        ensures
            exists|id: [u8; 16]|
                drawn(id) && #[trigger] joins_cut(*old(self), *final(self), *options, id, joined),
            old(self).store.well_formed() ==> final(self).store.well_formed(),
    {
        let id: [u8; 16] = random_id();
        self.join_cut_as(options, id)
    }

    fn lead_cut(
        &mut self,
        options: &ChangesOptions,
        live_uuid: [u8; 16],
        expires_ns: i64,
        reservation: CutReservation,
        destination_name: Vec<u8>,
        destination_path: Vec<u8>,
        ids: &CutIds,
        Ghost(service): Ghost<Service>,
    ) -> (planned: Result<CutStep, ServiceError>)
        requires
            *old(self) == (Service { store: old(self).store, ..service }),
            destination_name@ == CUT_PREFIX@ + hex(ids.name_id@),
            destination_path@ == joined(
                old(self).config.managed_snapshot_directory@,
                CUT_PREFIX@ + hex(ids.name_id@),
            ),
        ensures
            *final(self) == (Service { store: final(self).store, ..*old(self) }),
            leads_cut(
                service,
                old(self).store,
                final(self).store,
                *options,
                expires_ns,
                live_uuid,
                reservation,
                *ids,
                planned,
            ),
    {
        let admitted = self.ask_admission(options, expires_ns, ids.admission_id);
        let ghost second = self.store;
        assert(admits(
            service,
            old(self).store,
            second,
            *options,
            expires_ns,
            ids.admission_id,
            admitted,
        ));
        let admission: CutAdmission = match admitted {
            Err(error) => {
                return Err(ServiceError::context("admit cut leader", error.message()));
            },
            Ok(None) => {
                return Err(ServiceError::new("reserved cut was closed before leader admission"));
            },
            Ok(Some(admission)) => admission,
        };
        if !same_array(&admission.reservation.operation_id, &reservation.operation_id) {
            return Err(ServiceError::new("leader admission attached to a different cut operation"));
        }
        if !same_array(&reservation.source_subvol_uuid, &live_uuid) {
            return Err(
                ServiceError::new("watched live subvolume no longer matches the reserved UUID"),
            );
        }
        let owner: [u8; 16] = self.lease_owner;
        let started = self.store.start_cut_filesystem_effect(&reservation, owner, options.now_ns);
        assert(starts_cut(second, self.store, reservation, owner, options.now_ns, started));
        let planned: Result<CutStep, ServiceError> = match started {
            Ok(_) => Ok(
                CutStep::Create(
                    CutPlan { reservation, admission, destination_name, destination_path },
                ),
            ),
            Err(error) => Err(ServiceError::context("start cut effect", error.message())),
        };
        assert(begins_cut(
            service,
            second,
            self.store,
            reservation,
            admission,
            options.now_ns,
            ids.name_id,
            planned,
        ));
        planned
    }

    /// Reserves a cut of its own and starts its effect, with the identifiers.
    /// `opened` is the live subvolume.
    pub fn plan_cut_as(
        &mut self,
        options: &ChangesOptions,
        opened: &Result<[u8; 16], String>,
        ids: &CutIds,
    ) -> (planned: Result<CutStep, ServiceError>)
        ensures
            plans_cut(*old(self), *final(self), *options, *opened, *ids, planned),
            old(self).store.well_formed() ==> final(self).store.well_formed(),
    {
        let live_uuid: [u8; 16] = match opened {
            Ok(uuid) => *uuid,
            Err(cause) => {
                return Err(ServiceError::context("open watched subvolume", cause.as_str()));
            },
        };
        let expires_ns: i64 = match lease_expiry(options.now_ns, self.config.lease_ns) {
            Ok(expires_ns) => expires_ns,
            Err(error) => {
                return Err(error);
            },
        };
        let destination_name = operation_name_as(&CUT_PREFIX, &ids.name_id);
        let destination_path = join(&self.config.managed_snapshot_directory, &destination_name);
        let request = CutRequest {
            watch_id: options.watch_id,
            authorization_id: options.authorization_id,
            reserved_snapshot_path: copy_bytes(&destination_path),
            requester_uid: options.requester_uid,
            requester_gid: options.requester_gid,
            lease_owner: self.lease_owner,
            now_ns: options.now_ns,
            lease_expires_ns: expires_ns,
        };
        let reserved = self.store.reserve_cut_as(&request, ids.operation_id);
        let ghost middle = self.store;
        assert(reserves_cut(old(self).store, middle, request, ids.operation_id, reserved));
        assert(cut_request(*old(self), *options, expires_ns, ids.name_id, request));
        let planned: Result<CutStep, ServiceError> = match reserved {
            Ok(reservation) => {
                let planned = self.lead_cut(
                    options,
                    live_uuid,
                    expires_ns,
                    reservation,
                    destination_name,
                    destination_path,
                    ids,
                    Ghost(*old(self)),
                );
                assert(leads_cut(
                    *old(self),
                    middle,
                    self.store,
                    *options,
                    expires_ns,
                    live_uuid,
                    reservation,
                    *ids,
                    planned,
                ));
                planned
            },
            Err(refusal) => {
                let admitted = self.ask_admission(options, expires_ns, ids.retry_id);
                assert(admits(
                    *old(self),
                    middle,
                    self.store,
                    *options,
                    expires_ns,
                    ids.retry_id,
                    admitted,
                ));
                let planned: Result<CutStep, ServiceError> = match admitted {
                    Err(error) => Err(
                        ServiceError::context("retry cut admission", error.message()),
                    ),
                    Ok(Some(admission)) => Ok(CutStep::Wait { admission, expires_ns }),
                    Ok(None) => Err(ServiceError::context("reserve cut", refusal.message())),
                };
                assert(retries_cut(
                    *old(self),
                    middle,
                    self.store,
                    *options,
                    expires_ns,
                    ids.retry_id,
                    refusal@,
                    planned,
                ));
                planned
            },
        };
        assert(plans_until(
            *old(self),
            self.store,
            *options,
            live_uuid,
            expires_ns,
            *ids,
            planned,
        ));
        planned
    }

    /// Reserves a cut of its own and starts its effect. `opened` is the live
    /// subvolume.
    pub fn plan_cut(&mut self, options: &ChangesOptions, opened: &Result<[u8; 16], String>) -> (
    planned: Result<CutStep, ServiceError>)
        ensures
            exists|ids: CutIds|
                ids.drawn() && #[trigger] plans_cut(
                    *old(self),
                    *final(self),
                    *options,
                    *opened,
                    ids,
                    planned,
                ),
            old(self).store.well_formed() ==> final(self).store.well_formed(),
    {
        let ids = CutIds {
            name_id: random_id(),
            operation_id: random_id(),
            retry_id: random_id(),
            admission_id: random_id(),
        };
        self.plan_cut_as(options, opened, &ids)
    }

    /// Goes on with a cut whose snapshot was made.
    pub fn complete_cut(&self, plan: CutPlan, target: ExpectedSubvolume, now_ns: i64) -> (completion:
        Result<CutCompletion, ServiceError>)
        ensures
            if self.config.fault_after_cut_snapshot {
                &&& completion matches Err(error)
                &&& error@ == "injected failure after cut snapshot effect"@
            } else {
                completion == Ok::<CutCompletion, ServiceError>(
                    CutCompletion {
                        reservation: plan.reservation,
                        lease_owner: self.lease_owner,
                        target: Some(target),
                        destination_path: plan.destination_path,
                        recorded: None,
                        physical_published: false,
                        reuse_staged_spool: false,
                        now_ns,
                    },
                )
            },
    {
        if self.config.fault_after_cut_snapshot {
            return Err(ServiceError::new("injected failure after cut snapshot effect"));
        }
        Ok(
            CutCompletion {
                reservation: plan.reservation,
                lease_owner: self.lease_owner,
                target: Some(target),
                destination_path: plan.destination_path,
                recorded: None,
                physical_published: false,
                reuse_staged_spool: false,
                now_ns,
            },
        )
    }

    fn find_base(&self, base_snapshot_id: i64, recorded: RecordedSnapshot) -> (found: Result<
        CutRecord,
        ServiceError,
    >)
        ensures
            finds_base(self.store, base_snapshot_id, recorded, found),
    {
        match self.snapshot_path(base_snapshot_id) {
            Ok(base_path) => Ok(CutRecord { recorded, base_path }),
            Err(error) => Err(error),
        }
    }

    fn settle_record(&mut self, completion: &CutCompletion, recorded: RecordedSnapshot) -> (found:
        Result<CutRecord, ServiceError>)
        ensures
            *final(self) == (Service { store: final(self).store, ..*old(self) }),
            settles_record(old(self).store, final(self).store, *completion, recorded, found),
    {
        if completion.physical_published {
            return self.find_base(completion.reservation.base_snapshot_id, recorded);
        }
        let published = self.store.publish_validated_physical_cut(
            &completion.reservation,
            completion.lease_owner,
            &recorded,
            completion.now_ns,
        );
        assert(publishes_cut(
            old(self).store,
            self.store,
            completion.reservation,
            completion.lease_owner,
            recorded,
            completion.now_ns,
            published,
        ));
        let ghost shown = recorded;
        let found: Result<CutRecord, ServiceError> = match published {
            Ok(_) => self.find_base(completion.reservation.base_snapshot_id, recorded),
            Err(error) => Err(ServiceError::context("publish physical cut", error.message())),
        };
        assert(publishes_record(old(self).store, self.store, *completion, shown, found));
        found
    }

    /// Records and publishes the snapshot of a cut, and finds its base.
    pub fn record_cut(&mut self, completion: &CutCompletion) -> (found: Result<
        CutRecord,
        ServiceError,
    >)
        ensures
            completes_record(*old(self), *final(self), *completion, found),
            old(self).store.well_formed() ==> final(self).store.well_formed(),
    {
        let target: ExpectedSubvolume = match &completion.target {
            Some(target) => *target,
            None => {
                return Err(ServiceError::new("cut completion omits target identity"));
            },
        };
        match &completion.recorded {
            Some(recorded) => {
                let copy = RecordedSnapshot {
                    snapshot_id: recorded.snapshot_id,
                    identity: recorded.identity.copy(),
                };
                let found = self.settle_record(completion, copy);
                proof {
                    lemma_settles_same(
                        old(self).store,
                        self.store,
                        *completion,
                        copy,
                        *recorded,
                        found,
                    );
                }
                found
            },
            None => {
                let identity = snapshot_identity(
                    &target,
                    copy_bytes(&completion.destination_path),
                    completion.now_ns,
                );
                let inner = self.store.record_cut_snapshot(
                    &completion.reservation,
                    completion.lease_owner,
                    &identity,
                    completion.now_ns,
                );
                let ghost middle = self.store;
                assert(records_cut(
                    old(self).store,
                    middle,
                    completion.reservation,
                    completion.lease_owner,
                    identity,
                    completion.now_ns,
                    inner,
                ));
                let found: Result<CutRecord, ServiceError> = match inner {
                    Ok(recorded) => self.settle_record(completion, recorded),
                    Err(error) => Err(
                        ServiceError::context("record cut snapshot", error.message()),
                    ),
                };
                assert(records_target(
                    old(self).store,
                    self.store,
                    *completion,
                    target,
                    found,
                ));
                found
            },
        }
    }

    /// Checks that the endpoints of a comparison are the reserved snapshots.
    pub fn check_cut_endpoints(
        &self,
        completion: &CutCompletion,
        base: &ExpectedSubvolume,
        target: &ExpectedSubvolume,
    ) -> (checked: Result<(), ServiceError>)
        ensures
            match checked {
                Ok(_) => endpoints_fault(self.store, *completion, *base, *target) is None,
                Err(error) => endpoints_fault(self.store, *completion, *base, *target) == Some(
                    error@,
                ),
            },
    {
        let uuid: [u8; 16] = match self.snapshot_uuid(completion.reservation.base_snapshot_id) {
            Ok(uuid) => uuid,
            Err(error) => {
                return Err(error);
            },
        };
        let same: bool = match &completion.target {
            Some(expected) => target.same(expected),
            None => false,
        };
        if same && same_array(&base.subvolume_uuid, &uuid) {
            Ok(())
        } else {
            Err(
                ServiceError::new("comparison endpoints do not match reserved immutable snapshots"),
            )
        }
    }

    /// Checks the opened endpoints of a comparison, and tells where its
    /// manifest is spooled.
    pub fn open_cut(
        &self,
        completion: &CutCompletion,
        base: &Result<ExpectedSubvolume, String>,
        target: &Result<ExpectedSubvolume, String>,
    ) -> (spool_path: Result<Vec<u8>, ServiceError>)
        ensures
            match (open_fault(self.store, *completion, *base, *target), spool_path) {
                (Some(fault), Err(error)) => error@ == fault,
                (None, Ok(path)) => path@ == joined(
                    self.config.spool_directory@,
                    manifest_name(
                        completion.reservation.operation_id@,
                        completion.reservation.operation_fence as int,
                    ),
                ),
                _ => false,
            },
    {
        match (base, target) {
            (Err(cause), _) => Err(ServiceError::context("open base snapshot", cause.as_str())),
            (_, Err(cause)) => Err(
                ServiceError::context("reopen target snapshot", cause.as_str()),
            ),
            (Ok(base), Ok(target)) => match self.check_cut_endpoints(completion, base, target) {
                Err(error) => Err(error),
                Ok(_) => {
                    let name = manifest_spool_name(
                        &completion.reservation.operation_id,
                        completion.reservation.operation_fence,
                    );
                    Ok(join(&self.config.spool_directory, &name))
                },
            },
        }
    }

    /// Begins the comparison of a cut: whether to fail it at once, and whether
    /// to fail it once its manifest is staged. Each happens only once.
    pub fn begin_comparison(&mut self) -> (faults: (bool, bool))
        ensures
            faults.0 == old(self).config.fault_next_incremental_comparison,
            faults.1 == old(self).config.fault_after_manifest_stage,
            *final(self) == (Service {
                config: ServiceConfig {
                    fault_next_incremental_comparison: false,
                    fault_after_manifest_stage: false,
                    ..old(self).config
                },
                ..*old(self)
            }),
            old(self).store.well_formed() ==> final(self).store.well_formed(),
    {
        let next: bool = self.config.fault_next_incremental_comparison;
        let stage: bool = self.config.fault_after_manifest_stage;
        self.config.fault_next_incremental_comparison = false;
        self.config.fault_after_manifest_stage = false;
        (next, stage)
    }

    /// Takes note of what a staged manifest promises, and fails where that was
    /// asked for behind the staging.
    pub fn accept_staged(&mut self, dirty_witness_contract: bool, fault_after_stage: bool) -> (
    accepted: Result<(), ServiceError>)
        ensures
            *final(self) == (Service {
                dirty_witness_contract_seen: old(self).dirty_witness_contract_seen
                    || dirty_witness_contract,
                ..*old(self)
            }),
            match accepted {
                Ok(_) => !fault_after_stage,
                Err(error) => fault_after_stage && error@
                    == "injected failure after durable manifest staging"@,
            },
            old(self).store.well_formed() ==> final(self).store.well_formed(),
    {
        self.dirty_witness_contract_seen = self.dirty_witness_contract_seen
            || dirty_witness_contract;
        if fault_after_stage {
            Err(ServiceError::new("injected failure after durable manifest staging"))
        } else {
            Ok(())
        }
    }

    /// Publishes the changes of a cut.
    pub fn publish_incremental(
        &mut self,
        completion: &CutCompletion,
        recorded: &RecordedSnapshot,
        manifest: &ChangedObjectsManifest,
        applied: &AppliedDelta,
        base_report: &RevisionReport,
        digests: &DeltaDigests,
    ) -> (published: Result<PublishedCut, ServiceError>)
        requires
            old(self).store.well_formed(),
            manifest.well_formed(),
            covers(*digests, manifest@),
        ensures
            final(self).store.well_formed(),
            *final(self) == (Service { store: final(self).store, ..*old(self) }),
            publishes_changes(
                old(self).store,
                final(self).store,
                *completion,
                *recorded,
                manifest@,
                *applied,
                *base_report,
                *digests,
                published,
            ),
    {
        let inner = self.store.publish_adjacent_delta(
            &completion.reservation,
            completion.lease_owner,
            recorded,
            manifest,
            applied,
            base_report,
            digests,
            completion.now_ns,
        );
        assert(publishes_adjacent(
            old(self).store,
            self.store,
            completion.reservation,
            completion.lease_owner,
            *recorded,
            manifest@,
            *applied,
            *base_report,
            *digests,
            completion.now_ns,
            inner,
        ));
        carry(inner, "publish indexed cut")
    }

    /// Publishes a cut as a whole, where comparing it failed.
    pub fn publish_fallback(
        &mut self,
        completion: &CutCompletion,
        recorded: &RecordedSnapshot,
        incremental: &ServiceError,
        full: &Result<FullIndexResult, ServiceError>,
    ) -> (published: Result<PublishedCut, ServiceError>)
        requires
            *full matches Ok(full) ==> full.well_formed(),
        ensures
            old(self).store.well_formed() ==> final(self).store.well_formed(),
            match *full {
                Err(fault) => {
                    &&& *final(self) == *old(self)
                    &&& published matches Err(error)
                    &&& error@ == both_failed(
                        incremental@,
                        "; full-index fallback failed: "@,
                        fault@,
                    )
                },
                Ok(full) => {
                    &&& *final(self) == (Service {
                        store: final(self).store,
                        dirty_witness_contract_seen: old(self).dirty_witness_contract_seen
                            || full.dirty_witness_contract,
                        ..*old(self)
                    })
                    &&& publishes_whole(
                        old(self).store,
                        final(self).store,
                        *completion,
                        *recorded,
                        incremental@,
                        full,
                        published,
                    )
                },
            },
    {
        match full {
            Err(fault) => Err(
                both_failed_error(incremental, "; full-index fallback failed: ", fault.message()),
            ),
            Ok(full) => {
                self.dirty_witness_contract_seen = self.dirty_witness_contract_seen
                    || full.dirty_witness_contract;
                let inner = self.store.publish_full_fresh_checkpoint(
                    &completion.reservation,
                    completion.lease_owner,
                    recorded,
                    &full.checked,
                    &full.paths,
                    completion.now_ns,
                );
                assert(publishes_fresh(
                    old(self).store,
                    self.store,
                    completion.reservation,
                    completion.lease_owner,
                    recorded.snapshot_id,
                    recorded.identity.subvol_uuid,
                    full.checked,
                    full.paths@,
                    completion.now_ns,
                    inner,
                ));
                match inner {
                    Ok(cut) => Ok(cut),
                    Err(error) => Err(
                        both_failed_error(
                            incremental,
                            "; full-fresh publication failed: ",
                            error.message(),
                        ),
                    ),
                }
            },
        }
    }

    /// The cut of an admission that must be fulfilled.
    pub fn confirm_cut(&self, admission: &CutAdmission, now_ns: i64) -> (confirmed: Result<
        PublishedCut,
        ServiceError,
    >)
        ensures
            confirms_cut(self.store, *admission, now_ns, confirmed),
    {
        let polled = self.store.poll_cut_admission(admission, now_ns);
        assert(polls_admission(self.store, *admission, now_ns, polled));
        match polled {
            Err(error) => Err(
                ServiceError::context("validate fulfilled cut admission", error.message()),
            ),
            Ok(None) => Err(ServiceError::new("published cut admission is still waiting")),
            Ok(Some(cut)) => Ok(cut),
        }
    }

    /// Looks once for a cut that another began, that long after it was joined.
    pub fn wait_for_cut_admission(
        &self,
        admission: &CutAdmission,
        admitted_ns: i64,
        elapsed_ns: u128,
        expires_ns: i64,
    ) -> (found: Result<Option<PublishedCut>, ServiceError>)
        ensures
            waits_for_cut(
                self.store,
                *admission,
                waited(admitted_ns, elapsed_ns),
                expires_ns,
                found,
            ),
    {
        let elapsed: i64 = if elapsed_ns > i64::MAX as u128 {
            i64::MAX
        } else {
            elapsed_ns as i64
        };
        let now_ns: i64 = if admitted_ns > i64::MAX - elapsed {
            i64::MAX
        } else {
            admitted_ns + elapsed
        };
        let polled = self.store.poll_cut_admission(admission, now_ns);
        assert(polls_admission(self.store, *admission, now_ns, polled));
        match polled {
            Err(error) => Err(ServiceError::context("wait for shared cut", error.message())),
            Ok(Some(cut)) => Ok(Some(cut)),
            Ok(None) => if now_ns >= expires_ns {
                Err(ServiceError::new("shared cut admission timed out"))
            } else {
                Ok(None)
            },
        }
    }
}

/// What comes of comparing a cut: a failure that was asked for behind the
/// staging stands, and any other is made good by indexing the cut as a whole.
pub fn settle_incremental(
    outcome: Result<PublishedCut, ServiceError>,
    fault_after_stage: bool,
) -> (settled: CutOutcome)
    ensures
        match outcome {
            Ok(cut) => settled == CutOutcome::Settled(Ok(cut)),
            Err(error) => if fault_after_stage {
                settled == CutOutcome::Settled(Err(error))
            } else {
                settled == CutOutcome::Fallback(error)
            },
        },
{
    match outcome {
        Ok(cut) => CutOutcome::Settled(Ok(cut)),
        Err(error) => if fault_after_stage {
            CutOutcome::Settled(Err(error))
        } else {
            CutOutcome::Fallback(error)
        },
    }
}

/// The failure that was asked for at the start of a comparison.
pub fn check_incremental(fault_now: bool) -> (checked: Result<(), ServiceError>)
    ensures
        match checked {
            Ok(_) => !fault_now,
            Err(error) => fault_now && error@
                == "injected terminal incremental comparison failure"@,
        },
{
    if fault_now {
        Err(ServiceError::new("injected terminal incremental comparison failure"))
    } else {
        Ok(())
    }
}

/// What taking up a cut whose snapshot was recorded gives.
pub open spec fn resumes_recorded(
    operation: RecoveringCut,
    opened: Result<ExpectedSubvolume, String>,
    completion: Result<CutCompletion, ServiceError>,
) -> bool {
    match opened {
        Err(cause) => {
            &&& completion matches Err(error)
            &&& error@ == in_context("open recorded cut snapshot"@, cause@)
        },
        Ok(target) => if operation.completion.recorded matches Some(recorded) && !is_recorded(
            recorded.identity,
            target,
        ) {
            &&& completion matches Err(error)
            &&& error@ == "managed snapshot no longer matches its recorded identity"@
        } else {
            completion == Ok::<CutCompletion, ServiceError>(
                CutCompletion { target: Some(target), ..operation.completion },
            )
        },
    }
}

/// Takes up a cut whose snapshot was recorded. `opened` is the snapshot as it
/// looks now.
pub fn resume_recorded_cut(
    operation: RecoveringCut,
    opened: &Result<ExpectedSubvolume, String>,
) -> (completion: Result<CutCompletion, ServiceError>)
    ensures
        resumes_recorded(operation, *opened, completion),
{
    let target: ExpectedSubvolume = match opened {
        Ok(target) => *target,
        Err(cause) => {
            return Err(ServiceError::context("open recorded cut snapshot", cause.as_str()));
        },
    };
    match &operation.completion.recorded {
        Some(recorded) => match verify_recorded_snapshot(&recorded.identity, &target) {
            Ok(_) => {},
            Err(error) => {
                return Err(error);
            },
        },
        None => {},
    }
    Ok(CutCompletion { target: Some(target), ..operation.completion })
}

/// What checking the source of a cut that is taken up gives.
pub open spec fn resumes_cut(
    operation: RecoveringCut,
    opened: Result<[u8; 16], String>,
    name: Result<Vec<u8>, ServiceError>,
) -> bool {
    match opened {
        Err(cause) => {
            &&& name matches Err(error)
            &&& error@ == in_context("open cut recovery source"@, cause@)
        },
        Ok(source) => if source != operation.completion.reservation.source_subvol_uuid {
            &&& name matches Err(error)
            &&& error@ == "cut recovery source subvolume changed"@
        } else {
            match (last_name(operation.completion.destination_path@), name) {
                (Some(last), Ok(name)) => name@ == last,
                (None, Err(error)) => error@ == "recovery cut path has no basename"@,
                _ => false,
            }
        },
    }
}

/// Checks the source of a cut that is taken up, and gives the name of its
/// snapshot.
pub fn resume_cut(operation: &RecoveringCut, opened: &Result<[u8; 16], String>) -> (name: Result<
    Vec<u8>,
    ServiceError,
>)
    ensures
        resumes_cut(*operation, *opened, name),
{
    let source: [u8; 16] = match opened {
        Ok(source) => *source,
        Err(cause) => {
            return Err(ServiceError::context("open cut recovery source", cause.as_str()));
        },
    };
    if !same_array(&source, &operation.completion.reservation.source_subvol_uuid) {
        return Err(ServiceError::new("cut recovery source subvolume changed"));
    }
    match file_name(&operation.completion.destination_path) {
        Some(name) => Ok(name),
        None => Err(ServiceError::new("recovery cut path has no basename")),
    }
}

/// Two recorded snapshots that are the same are gone on with in the same way.
proof fn lemma_settles_same(
    middle: Store,
    after: Store,
    completion: CutCompletion,
    left: RecordedSnapshot,
    right: RecordedSnapshot,
    found: Result<CutRecord, ServiceError>,
)
    requires
        same_record(left, right),
        settles_record(middle, after, completion, left, found),
    ensures
        settles_record(middle, after, completion, right, found),
{
    if !completion.physical_published {
        let published = choose|published: Result<(), ManagerError>| #[trigger]
            publishes_cut(
                middle,
                after,
                completion.reservation,
                completion.lease_owner,
                left,
                completion.now_ns,
                published,
            ) && match published {
                Err(fault) => {
                    &&& found matches Err(error)
                    &&& error@ == in_context("publish physical cut"@, fault@)
                },
                Ok(_) => finds_base(after, completion.reservation.base_snapshot_id, left, found),
            };
        assert(publishes_cut(
            middle,
            after,
            completion.reservation,
            completion.lease_owner,
            right,
            completion.now_ns,
            published,
        ));
        assert(publishes_record(middle, after, completion, right, found));
    }
}

} // verus!
