//! Beginning to watch a subvolume, from the request to the first checkpoint.

use crate::digest::{drawn, random_id};
use crate::manager::initialize::{
    records_initialize, reserves_initialize, starts_initialize, InitializeIds,
};
use crate::manager::publish::{publishes_initial, CheckedIndex};
use crate::manager::rows::{no_rows, Store};
use crate::manager::table::{find, row};
use crate::manager::types::{
    same_principal, InitializeRequest, InitializeReservation, InitializedWatch, ManagerError,
    RecordedSnapshot, SnapshotIdentity,
};
use crate::names::{hex, operation_name_as, INITIALIZE_PREFIX};
use crate::paths::{file_name, join, joined, last_name};
use crate::service::checks::{
    descendant_fault, identity_of, is_recorded, reject_managed_descendant, snapshot_identity,
    verify_recorded_snapshot, ExpectedSubvolume,
};
use crate::service::config::{
    expiry_of, lease_expiry, InitializeOptions, ServiceConfig, ServiceError,
};
use crate::service::decode::RecoveringInitialize;
use crate::service::flow::{carries, carry, Service};
use crate::text::{copy_bytes, in_context, same_array};
use vstd::prelude::*;

verus! {

/// What was found out of a subvolume that is to be watched.
#[derive(Debug)]
pub struct SourceReport {
    /// Its true path.
    pub canonical: Result<Vec<u8>, String>,
    /// The true path of the managed directory.
    pub managed: Result<Vec<u8>, String>,
    pub opened: Result<OpenedSource, String>,
}

/// A subvolume that was opened.
#[derive(Clone, Copy, Debug, Eq, PartialEq)]
pub struct OpenedSource {
    pub fs_uuid: [u8; 16],
    pub subvol_uuid: [u8; 16],
    pub is_top_level: bool,
}

/// A snapshot that is to be made for a new watch.
#[derive(Clone, Debug, Eq, PartialEq)]
pub struct InitializePlan {
    pub reservation: InitializeReservation,
    pub destination_name: Vec<u8>,
    pub destination_path: Vec<u8>,
}

/// Why a subvolume cannot be watched.
pub open spec fn source_fault(config: ServiceConfig, source: SourceReport, now_ns: i64) -> Option<
    Seq<char>,
> {
    match source.canonical {
        Err(cause) => Some(in_context("canonicalize initialize source"@, cause@)),
        Ok(_) => if descendant_fault(source.canonical, source.managed) is Some {
            descendant_fault(source.canonical, source.managed)
        } else {
            match source.opened {
                Err(cause) => Some(in_context("open initialize source"@, cause@)),
                Ok(opened) => if opened.is_top_level {
                    Some("cannot initialize the Btrfs top-level root"@)
                } else {
                    match expiry_of(now_ns, config.lease_ns) {
                        Err(fault) => Some(fault),
                        Ok(_) => None,
                    }
                },
            }
        },
    }
}

/// Whether the request asks for the source under the options, with a snapshot
/// named by the identifier.
pub open spec fn initialize_request(
    service: Service,
    source: SourceReport,
    options: InitializeOptions,
    id: [u8; 16],
    request: InitializeRequest,
) -> bool {
    &&& request == (InitializeRequest {
        fs_uuid: source.opened->Ok_0.fs_uuid,
        source_subvol_uuid: source.opened->Ok_0.subvol_uuid,
        source_path: request.source_path,
        reserved_snapshot_path: request.reserved_snapshot_path,
        principal: request.principal,
        permissions: options.permissions,
        requester_uid: options.requester_uid,
        requester_gid: options.requester_gid,
        lease_owner: service.lease_owner,
        now_ns: options.now_ns,
        lease_expires_ns: expiry_of(options.now_ns, service.config.lease_ns)->Ok_0,
    })
    &&& request.source_path@ == source.canonical->Ok_0@
    &&& request.reserved_snapshot_path@ == joined(
        service.config.managed_snapshot_directory@,
        INITIALIZE_PREFIX@ + hex(id@),
    )
    &&& same_principal(request.principal, options.principal)
}

/// What starting the effect of a reserved initialization does.
pub open spec fn begins_initialize(
    service: Service,
    middle: Store,
    after: Store,
    reservation: InitializeReservation,
    now_ns: i64,
    id: [u8; 16],
    planned: Result<InitializePlan, ServiceError>,
) -> bool {
    exists|started: Result<(), ManagerError>| #[trigger]
        starts_initialize(middle, after, reservation, service.lease_owner, now_ns, started)
            && match started {
            Err(fault) => {
                &&& planned matches Err(error)
                &&& error@ == in_context("start initialize effect"@, fault@)
            },
            Ok(_) => {
                &&& planned matches Ok(plan)
                &&& plan.reservation == reservation
                &&& plan.destination_name@ == INITIALIZE_PREFIX@ + hex(id@)
                &&& plan.destination_path@ == joined(
                    service.config.managed_snapshot_directory@,
                    INITIALIZE_PREFIX@ + hex(id@),
                )
            },
        }
}

/// What reserving and starting an initialization does.
pub open spec fn plans_initialize(
    before: Service,
    after: Service,
    source: SourceReport,
    options: InitializeOptions,
    ids: InitializeIds,
    id: [u8; 16],
    planned: Result<InitializePlan, ServiceError>,
) -> bool {
    match source_fault(before.config, source, options.now_ns) {
        Some(fault) => {
            &&& after == before
            &&& planned matches Err(error)
            &&& error@ == fault
        },
        None => {
            &&& after == (Service { store: after.store, ..before })
            &&& exists|
                request: InitializeRequest,
                middle: Store,
                reserved: Result<InitializeReservation, ManagerError>,
            | #[trigger]
                reserves_initialize(before.store, middle, request, ids, reserved)
                    && initialize_request(before, source, options, id, request)
                    && match reserved {
                    Err(fault) => {
                        &&& after.store == middle
                        &&& planned matches Err(error)
                        &&& error@ == in_context("reserve initialize"@, fault@)
                    },
                    Ok(reservation) => begins_initialize(
                        before,
                        middle,
                        after.store,
                        reservation,
                        options.now_ns,
                        id,
                        planned,
                    ),
                }
        },
    }
}

/// Whether the recorded snapshot is what recording the created one gave.
pub open spec fn records_created(
    before: Store,
    after: Store,
    reservation: InitializeReservation,
    owner: [u8; 16],
    created: ExpectedSubvolume,
    path: Seq<u8>,
    now_ns: i64,
    step: Seq<char>,
    recorded: Result<RecordedSnapshot, ServiceError>,
) -> bool {
    exists|identity: SnapshotIdentity, inner: Result<RecordedSnapshot, ManagerError>| #[trigger]
        records_initialize(before, after, reservation, owner, identity, now_ns, inner)
            && identity == identity_of(created, identity.path, now_ns) && identity.path@ == path
            && carries(inner, recorded, step)
}

/// Whether the watch is what publishing its first checkpoint gave.
pub open spec fn publishes_first(
    before: Store,
    after: Store,
    reservation: InitializeReservation,
    owner: [u8; 16],
    recorded: RecordedSnapshot,
    checked: CheckedIndex,
    now_ns: i64,
    step: Seq<char>,
    published: Result<InitializedWatch, ServiceError>,
) -> bool {
    exists|inner: Result<InitializedWatch, ManagerError>| #[trigger]
        publishes_initial(
            before,
            after,
            reservation,
            owner,
            recorded.snapshot_id,
            recorded.identity.subvol_uuid,
            checked,
            now_ns,
            inner,
        ) && carries(inner, published, step)
}

impl Service {
    fn record_created(
        &mut self,
        reservation: &InitializeReservation,
        owner: [u8; 16],
        created: &ExpectedSubvolume,
        path: &[u8],
        now_ns: i64,
        step: &str,
    ) -> (recorded: Result<RecordedSnapshot, ServiceError>)
        ensures
            *final(self) == (Service { store: final(self).store, ..*old(self) }),
            records_created(
                old(self).store,
                final(self).store,
                *reservation,
                owner,
                *created,
                path@,
                now_ns,
                step@,
                recorded,
            ),
    {
        let identity = snapshot_identity(created, copy_bytes(path), now_ns);
        let inner = self.store.record_initialize_snapshot(reservation, owner, &identity, now_ns);
        assert(records_initialize(
            old(self).store,
            self.store,
            *reservation,
            owner,
            identity,
            now_ns,
            inner,
        ));
        carry(inner, step)
    }

    fn publish_first(
        &mut self,
        reservation: &InitializeReservation,
        owner: [u8; 16],
        recorded: &RecordedSnapshot,
        checked: &CheckedIndex,
        now_ns: i64,
        step: &str,
    ) -> (published: Result<InitializedWatch, ServiceError>)
        requires
            checked.index.well_formed(),
        ensures
            *final(self) == (Service { store: final(self).store, ..*old(self) }),
            old(self).store.well_formed() ==> final(self).store.well_formed(),
            publishes_first(
                old(self).store,
                final(self).store,
                *reservation,
                owner,
                *recorded,
                *checked,
                now_ns,
                step@,
                published,
            ),
    {
        let inner = self.store.publish_initial_checkpoint(
            reservation,
            owner,
            recorded,
            checked,
            now_ns,
        );
        assert(publishes_initial(
            old(self).store,
            self.store,
            *reservation,
            owner,
            recorded.snapshot_id,
            recorded.identity.subvol_uuid,
            *checked,
            now_ns,
            inner,
        ));
        carry(inner, step)
    }

    /// Reserves an initialization and starts its effect, with the identifiers.
    pub fn plan_initialize_as(
        &mut self,
        source: &SourceReport,
        options: &InitializeOptions,
        ids: &InitializeIds,
        id: [u8; 16],
    ) -> (planned: Result<InitializePlan, ServiceError>)
        ensures
            plans_initialize(*old(self), *final(self), *source, *options, *ids, id, planned),
            old(self).store.well_formed() ==> final(self).store.well_formed(),
    {
        let canonical: &Vec<u8> = match &source.canonical {
            Ok(canonical) => canonical,
            Err(cause) => {
                return Err(
                    ServiceError::context("canonicalize initialize source", cause.as_str()),
                );
            },
        };
        match reject_managed_descendant(&source.canonical, &source.managed) {
            Ok(_) => {},
            Err(error) => {
                return Err(error);
            },
        }
        let opened: OpenedSource = match &source.opened {
            Ok(opened) => *opened,
            Err(cause) => {
                return Err(ServiceError::context("open initialize source", cause.as_str()));
            },
        };
        if opened.is_top_level {
            return Err(ServiceError::new("cannot initialize the Btrfs top-level root"));
        }
        let lease_expires_ns: i64 = match lease_expiry(options.now_ns, self.config.lease_ns) {
            Ok(expires_ns) => expires_ns,
            Err(error) => {
                return Err(error);
            },
        };
        let destination_name = operation_name_as(&INITIALIZE_PREFIX, &id);
        let destination_path = join(&self.config.managed_snapshot_directory, &destination_name);
        let request = InitializeRequest {
            fs_uuid: opened.fs_uuid,
            source_subvol_uuid: opened.subvol_uuid,
            source_path: copy_bytes(canonical),
            reserved_snapshot_path: copy_bytes(&destination_path),
            principal: options.principal.copy(),
            permissions: options.permissions,
            requester_uid: options.requester_uid,
            requester_gid: options.requester_gid,
            lease_owner: self.lease_owner,
            now_ns: options.now_ns,
            lease_expires_ns,
        };
        let reserved = self.store.reserve_initialize_as(&request, ids);
        let ghost middle = self.store;
        assert(reserves_initialize(old(self).store, middle, request, *ids, reserved));
        assert(initialize_request(*old(self), *source, *options, id, request));
        let reservation: InitializeReservation = match reserved {
            Ok(reservation) => reservation,
            Err(error) => {
                return Err(ServiceError::context("reserve initialize", error.message()));
            },
        };
        let owner: [u8; 16] = self.lease_owner;
        let started = self.store.start_initialize_filesystem_effect(
            &reservation,
            owner,
            options.now_ns,
        );
        assert(starts_initialize(
            middle,
            self.store,
            reservation,
            owner,
            options.now_ns,
            started,
        ));
        let planned: Result<InitializePlan, ServiceError> = match started {
            Ok(_) => Ok(InitializePlan { reservation, destination_name, destination_path }),
            Err(error) => Err(ServiceError::context("start initialize effect", error.message())),
        };
        assert(begins_initialize(
            *old(self),
            middle,
            self.store,
            reservation,
            options.now_ns,
            id,
            planned,
        ));
        planned
    }

    /// Reserves an initialization and starts its effect.
    pub fn plan_initialize(&mut self, source: &SourceReport, options: &InitializeOptions) -> (
    planned: Result<InitializePlan, ServiceError>)
        ensures
            exists|ids: InitializeIds, id: [u8; 16]|
                ids.drawn() && drawn(id) && #[trigger] plans_initialize(
                    *old(self),
                    *final(self),
                    *source,
                    *options,
                    ids,
                    id,
                    planned,
                ),
            old(self).store.well_formed() ==> final(self).store.well_formed(),
    {
        let ids = InitializeIds {
            watch_id: random_id(),
            grant_id: random_id(),
            operation_id: random_id(),
            clock_epoch: random_id(),
        };
        let id: [u8; 16] = random_id();
        self.plan_initialize_as(source, options, &ids, id)
    }

    /// Records the snapshot that was made for a new watch.
    pub fn record_initialize(
        &mut self,
        plan: &InitializePlan,
        created: &ExpectedSubvolume,
        now_ns: i64,
    ) -> (recorded: Result<RecordedSnapshot, ServiceError>)
        ensures
            if old(self).config.fault_after_initialize_snapshot {
                &&& *final(self) == *old(self)
                &&& recorded matches Err(error)
                &&& error@ == "injected failure after initialize snapshot effect"@
            } else {
                &&& *final(self) == (Service { store: final(self).store, ..*old(self) })
                &&& records_created(
                    old(self).store,
                    final(self).store,
                    plan.reservation,
                    old(self).lease_owner,
                    *created,
                    plan.destination_path@,
                    now_ns,
                    "record initialize snapshot"@,
                    recorded,
                )
            },
            old(self).store.well_formed() ==> final(self).store.well_formed(),
    {
        if self.config.fault_after_initialize_snapshot {
            return Err(ServiceError::new("injected failure after initialize snapshot effect"));
        }
        let owner: [u8; 16] = self.lease_owner;
        self.record_created(
            &plan.reservation,
            owner,
            created,
            &plan.destination_path,
            now_ns,
            "record initialize snapshot",
        )
    }

    /// Publishes the first checkpoint of a new watch. `reopened` is how the
    /// snapshot looked when its index was taken.
    pub fn publish_initialize(
        &mut self,
        plan: &InitializePlan,
        recorded: &RecordedSnapshot,
        created: &ExpectedSubvolume,
        reopened: &ExpectedSubvolume,
        checked: &CheckedIndex,
        dirty_witness_contract: bool,
        now_ns: i64,
    ) -> (published: Result<InitializedWatch, ServiceError>)
        requires
            checked.index.well_formed(),
        ensures
            old(self).store.well_formed() ==> final(self).store.well_formed(),
            if *reopened != *created {
                &&& *final(self) == *old(self)
                &&& published matches Err(error)
                &&& error@ == "initialize snapshot identity changed before indexing"@
            } else {
                &&& *final(self) == (Service {
                    store: final(self).store,
                    dirty_witness_contract_seen: old(self).dirty_witness_contract_seen
                        || dirty_witness_contract,
                    ..*old(self)
                })
                &&& publishes_first(
                    old(self).store,
                    final(self).store,
                    plan.reservation,
                    old(self).lease_owner,
                    *recorded,
                    *checked,
                    now_ns,
                    "publish initial checkpoint"@,
                    published,
                )
            },
    {
        if !reopened.same(created) {
            return Err(ServiceError::new("initialize snapshot identity changed before indexing"));
        }
        self.dirty_witness_contract_seen = self.dirty_witness_contract_seen
            || dirty_witness_contract;
        let owner: [u8; 16] = self.lease_owner;
        self.publish_first(
            &plan.reservation,
            owner,
            recorded,
            checked,
            now_ns,
            "publish initial checkpoint",
        )
    }

    /// The subvolume that an operation works on.
    pub fn initialize_source_uuid(&self, operation_id: &[u8; 16]) -> (uuid: Result<
        [u8; 16],
        ServiceError,
    >)
        ensures
            match (row(self.store.operations@, *operation_id), uuid) {
                (Some(operation), Ok(uuid)) => uuid == operation.source_subvol_uuid,
                (None, Err(error)) => error@ == in_context(
                    "load initialize source UUID"@,
                    no_rows(),
                ),
                _ => false,
            },
    {
        match find(&self.store.operations, operation_id) {
            Some(at) => Ok(self.store.operations[at].source_subvol_uuid),
            None => Err(
                ServiceError::context("load initialize source UUID", "Query returned no rows"),
            ),
        }
    }

    /// Checks the source of an initialization that is taken up, and gives the
    /// name of its snapshot.
    pub fn resume_initialize(
        &self,
        operation: &RecoveringInitialize,
        opened: &Result<[u8; 16], String>,
    ) -> (name: Result<Vec<u8>, ServiceError>)
        ensures
            resumes_initialize(*self, *operation, *opened, name),
    {
        let source: [u8; 16] = match opened {
            Ok(source) => *source,
            Err(cause) => {
                return Err(ServiceError::context("open recovery source", cause.as_str()));
            },
        };
        let stored: [u8; 16] = match self.initialize_source_uuid(
            &operation.reservation.operation_id,
        ) {
            Ok(stored) => stored,
            Err(error) => {
                return Err(error);
            },
        };
        if !same_array(&source, &stored) {
            return Err(ServiceError::new("initialize recovery source subvolume changed"));
        }
        match file_name(&operation.reserved_path) {
            Some(name) => Ok(name),
            None => Err(ServiceError::new("recovery snapshot path has no basename")),
        }
    }

    /// Records the snapshot of an initialization that is taken up.
    pub fn record_resumed_initialize(
        &mut self,
        operation: &RecoveringInitialize,
        created: &ExpectedSubvolume,
        now_ns: i64,
    ) -> (recorded: Result<RecordedSnapshot, ServiceError>)
        ensures
            *final(self) == (Service { store: final(self).store, ..*old(self) }),
            records_created(
                old(self).store,
                final(self).store,
                operation.reservation,
                operation.lease_owner,
                *created,
                operation.reserved_path@,
                now_ns,
                "record recovered initialize snapshot"@,
                recorded,
            ),
            old(self).store.well_formed() ==> final(self).store.well_formed(),
    {
        self.record_created(
            &operation.reservation,
            operation.lease_owner,
            created,
            &operation.reserved_path,
            now_ns,
            "record recovered initialize snapshot",
        )
    }

    /// Publishes the first checkpoint of an initialization that is taken up.
    /// `observed` is how the snapshot looks.
    pub fn publish_resumed_initialize(
        &mut self,
        operation: &RecoveringInitialize,
        recorded: &RecordedSnapshot,
        observed: &ExpectedSubvolume,
        checked: &CheckedIndex,
        dirty_witness_contract: bool,
        now_ns: i64,
    ) -> (published: Result<InitializedWatch, ServiceError>)
        requires
            checked.index.well_formed(),
        ensures
            old(self).store.well_formed() ==> final(self).store.well_formed(),
            if !is_recorded(recorded.identity, *observed) {
                &&& *final(self) == *old(self)
                &&& published matches Err(error)
                &&& error@ == "managed snapshot no longer matches its recorded identity"@
            } else {
                &&& *final(self) == (Service {
                    store: final(self).store,
                    dirty_witness_contract_seen: old(self).dirty_witness_contract_seen
                        || dirty_witness_contract,
                    ..*old(self)
                })
                &&& publishes_first(
                    old(self).store,
                    final(self).store,
                    operation.reservation,
                    operation.lease_owner,
                    *recorded,
                    *checked,
                    now_ns,
                    "publish recovered initial checkpoint"@,
                    published,
                )
            },
    {
        match verify_recorded_snapshot(&recorded.identity, observed) {
            Ok(_) => {},
            Err(error) => {
                return Err(error);
            },
        }
        self.dirty_witness_contract_seen = self.dirty_witness_contract_seen
            || dirty_witness_contract;
        self.publish_first(
            &operation.reservation,
            operation.lease_owner,
            recorded,
            checked,
            now_ns,
            "publish recovered initial checkpoint",
        )
    }
}

/// What checking the source of an initialization gives.
pub open spec fn resumes_initialize(
    service: Service,
    operation: RecoveringInitialize,
    opened: Result<[u8; 16], String>,
    name: Result<Vec<u8>, ServiceError>,
) -> bool {
    match opened {
        Err(cause) => {
            &&& name matches Err(error)
            &&& error@ == in_context("open recovery source"@, cause@)
        },
        Ok(source) => match row(service.store.operations@, operation.reservation.operation_id) {
            None => {
                &&& name matches Err(error)
                &&& error@ == in_context("load initialize source UUID"@, no_rows())
            },
            Some(stored) => if source != stored.source_subvol_uuid {
                &&& name matches Err(error)
                &&& error@ == "initialize recovery source subvolume changed"@
            } else {
                match (last_name(operation.reserved_path@), name) {
                    (Some(last), Ok(name)) => name@ == last,
                    (None, Err(error)) => error@ == "recovery snapshot path has no basename"@,
                    _ => false,
                }
            },
        },
    }
}

} // verus!
