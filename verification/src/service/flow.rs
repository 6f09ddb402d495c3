//! The running service: how it starts, whom it answers for, and what it hands
//! to the broker.

use crate::digest::{all_drawn, drawn, random_id};
use crate::index::{Index, IndexView};
use crate::manager::recovery::{aborts_operations, recovers, takes_over};
use crate::manager::revisions::{
    law_loaded_revision_is_stored, revision_index, revision_loaded,
};
use crate::manager::rows::{no_rows, PhysicalState, Store, WatchState};
use crate::manager::table::{find, find_number, numbered, row};
use crate::manager::types::{ManagerError, RecoveryReport};
use crate::service::config::{
    check_start, expiry_of, lease_expiry, same_config, start_fault, DirectoryCheck, ServiceConfig,
    ServiceError, WorktreeViewHandoff,
};
use crate::text::{copy_bytes, in_context, same_array, same_bytes};
use std::collections::BTreeMap;
use vstd::prelude::*;

verus! {

/// The view of a new worktree, kept until its watch is asked for.
#[derive(Debug)]
pub struct KeptHandoff {
    pub watch_id: [u8; 16],
    pub handoff: WorktreeViewHandoff,
}

/// The service of one process.
#[derive(Debug)]
pub struct Service {
    pub store: Store,
    pub manager_store_uuid: [u8; 16],
    pub manager_session_id: [u8; 16],
    pub lease_owner: [u8; 16],
    pub config: ServiceConfig,
    pub worktree_view_handoffs: Vec<KeptHandoff>,
    pub dirty_witness_contract_seen: bool,
}

/// What an effect does.
#[derive(Clone, Copy, Debug, Eq, PartialEq, Structural)]
pub enum EffectKind {
    SnapshotCreate,
    SnapshotDelete,
    WorktreeRename,
}

/// What the broker writes down before an effect. The digests are filled in
/// once the effect is described.
#[derive(Clone, Copy, Debug, Eq, PartialEq)]
pub struct ReceiptRequest {
    pub id: [u8; 16],
    pub manager_store_uuid: [u8; 16],
    pub manager_session_id: [u8; 16],
    pub operation_id: [u8; 16],
    pub operation_fence: i64,
    pub effect_kind: EffectKind,
    pub filesystem_uuid: [u8; 16],
    pub target_locator_hash: [u8; 32],
    pub effect_arguments_hash: [u8; 32],
    pub boot_id: [u8; 16],
    pub started_ns: i64,
}

/// Whether the service's answer is the manager's, with the step that failed
/// before its diagnostic.
pub open spec fn carries<T>(
    inner: Result<T, ManagerError>,
    outer: Result<T, ServiceError>,
    step: Seq<char>,
) -> bool {
    match (inner, outer) {
        (Ok(inner), Ok(outer)) => inner == outer,
        (Err(inner), Err(outer)) => outer@ == in_context(step, inner@),
        _ => false,
    }
}

/// Puts the step that failed before the manager's diagnostic.
pub fn carry<T>(inner: Result<T, ManagerError>, step: &str) -> (outer: Result<T, ServiceError>)
    ensures
        carries(inner, outer, step@),
{
    match inner {
        Ok(value) => Ok(value),
        Err(error) => Err(ServiceError::context(step, error.message())),
    }
}

/// A store that is ready for the broker to be asked for.
#[derive(Debug)]
pub struct Prepared {
    pub store: Store,
    pub config: ServiceConfig,
    pub manager_store_uuid: [u8; 16],
}

/// What preparing a store does.
pub open spec fn prepares(
    store: Store,
    config: ServiceConfig,
    manager_store_uuid: [u8; 16],
    embedded: bool,
    managed: DirectoryCheck,
    spool: DirectoryCheck,
    max_output: u64,
    prepared: Result<Prepared, ServiceError>,
) -> bool {
    match start_fault(config, embedded, managed, spool, max_output) {
        Some(fault) => {
            &&& prepared matches Err(error)
            &&& error@ == fault
        },
        None => exists|
            after: Store,
            epochs: Seq<[u8; 16]>,
            recovered: Result<RecoveryReport, ManagerError>,
        |
            all_drawn(epochs) && #[trigger] recovers(
                store,
                after,
                config.boot_id,
                epochs,
                recovered,
            ) && match recovered {
                Ok(_) => prepared == Ok::<Prepared, ServiceError>(
                    Prepared { store: after, config, manager_store_uuid },
                ),
                Err(fault) => {
                    &&& prepared matches Err(error)
                    &&& error@ == in_context("recover manager process state"@, fault@)
                },
            },
    }
}

/// Checks what a service is configured with, and ends what belonged to an
/// earlier process.
pub fn prepare(
    store: Store,
    config: ServiceConfig,
    manager_store_uuid: [u8; 16],
    embedded: bool,
    managed: &DirectoryCheck,
    spool: &DirectoryCheck,
    max_output: u64,
) -> (prepared: Result<Prepared, ServiceError>)
    ensures
        prepares(
            store,
            config,
            manager_store_uuid,
            embedded,
            *managed,
            *spool,
            max_output,
            prepared,
        ),
        store.well_formed() ==> (prepared matches Ok(prepared) ==> prepared.store.well_formed()),
{
    match check_start(&config, embedded, managed, spool, max_output) {
        Ok(_) => {},
        Err(error) => {
            return Err(error);
        },
    }
    let mut store = store;
    let boot_id: [u8; 16] = config.boot_id;
    match store.recover_process_state(boot_id) {
        Ok(_) => Ok(Prepared { store, config, manager_store_uuid }),
        Err(error) => Err(
            ServiceError::context("recover manager process state", error.message()),
        ),
    }
}

/// What leasing what an earlier process began does.
pub open spec fn takes_up(
    middle: Store,
    prepared: Prepared,
    session_id: [u8; 16],
    owner: [u8; 16],
    expires_ns: i64,
    started: Result<Service, ServiceError>,
) -> bool {
    exists|after: Store, taken: Result<usize, ManagerError>| #[trigger]
        takes_over(middle, after, owner, expires_ns, taken) && match taken {
            Err(fault) => {
                &&& started matches Err(error)
                &&& error@ == in_context("take over recovery leases"@, fault@)
            },
            Ok(_) => {
                &&& started matches Ok(service)
                &&& service == (Service {
                    store: after,
                    manager_store_uuid: prepared.manager_store_uuid,
                    manager_session_id: session_id,
                    lease_owner: owner,
                    config: prepared.config,
                    worktree_view_handoffs: service.worktree_view_handoffs,
                    dirty_witness_contract_seen: false,
                })
                &&& service.worktree_view_handoffs@.len() == 0
            },
        }
}

/// Whether the receipt is asked for the effect of the operation, in the name of the service.
pub open spec fn asks_receipt(
    service: Service,
    id: [u8; 16],
    operation_id: [u8; 16],
    operation_fence: i64,
    effect_kind: EffectKind,
    filesystem_uuid: [u8; 16],
    started_ns: i64,
    receipt: ReceiptRequest,
) -> bool {
    &&& receipt.target_locator_hash@ =~= Seq::new(32, |i: int| 0u8)
    &&& receipt.effect_arguments_hash@ =~= Seq::new(32, |i: int| 0u8)
    &&& receipt == (ReceiptRequest {
        id,
        manager_store_uuid: service.manager_store_uuid,
        manager_session_id: service.manager_session_id,
        operation_id,
        operation_fence,
        effect_kind,
        filesystem_uuid,
        target_locator_hash: receipt.target_locator_hash,
        effect_arguments_hash: receipt.effect_arguments_hash,
        boot_id: service.config.boot_id,
        started_ns,
    })
}

/// What taking over from an earlier process does.
pub open spec fn joins(
    prepared: Prepared,
    session_id: [u8; 16],
    owner: [u8; 16],
    now_ns: i64,
    started: Result<Service, ServiceError>,
) -> bool {
    exists|middle: Store, aborted: Result<usize, ManagerError>| #[trigger]
        aborts_operations(prepared.store, middle, now_ns, aborted) && match aborted {
            Err(fault) => {
                &&& started matches Err(error)
                &&& error@ == in_context("abort pre-effect operations"@, fault@)
            },
            Ok(_) => match expiry_of(now_ns, prepared.config.lease_ns) {
                Err(fault) => {
                    &&& started matches Err(error)
                    &&& error@ == fault
                },
                Ok(expires_ns) => takes_up(
                    middle,
                    prepared,
                    session_id,
                    owner,
                    expires_ns,
                    started,
                ),
            },
        }
}

impl Service {
    /// Takes over from an earlier process under the owner: what did not begin
    /// is given up, and what began is leased.
    pub fn join_as(prepared: Prepared, session_id: [u8; 16], owner: [u8; 16], now_ns: i64) -> (
    started: Result<Service, ServiceError>)
        ensures
            joins(prepared, session_id, owner, now_ns, started),
            prepared.store.well_formed() ==> (started matches Ok(service)
                ==> service.store.well_formed()),
    {
        let ghost before = prepared;
        let mut store = prepared.store;
        let config = prepared.config;
        let aborted = store.abort_planned_operations(now_ns);
        let ghost middle = store;
        assert(aborts_operations(before.store, middle, now_ns, aborted));
        match aborted {
            Ok(_) => {},
            Err(error) => {
                return Err(ServiceError::context("abort pre-effect operations", error.message()));
            },
        }
        let expires_ns: i64 = match lease_expiry(now_ns, config.lease_ns) {
            Ok(expires_ns) => expires_ns,
            Err(error) => {
                return Err(error);
            },
        };
        let taken = store.takeover_recovery_leases(owner, expires_ns);
        let ghost after = store;
        let ghost outcome = taken;
        assert(takes_over(middle, after, owner, expires_ns, outcome));
        let started: Result<Service, ServiceError> = match taken {
            Ok(_) => Ok(
                Service {
                    store,
                    manager_store_uuid: prepared.manager_store_uuid,
                    manager_session_id: session_id,
                    lease_owner: owner,
                    config,
                    worktree_view_handoffs: Vec::new(),
                    dirty_witness_contract_seen: false,
                },
            ),
            Err(error) => Err(ServiceError::context("take over recovery leases", error.message())),
        };
        assert(takes_up(middle, before, session_id, owner, expires_ns, started));
        started
    }

    /// Takes over from an earlier process.
    pub fn join(prepared: Prepared, session_id: [u8; 16], now_ns: i64) -> (started: Result<
        Service,
        ServiceError,
    >)
        ensures
            exists|owner: [u8; 16]|
                drawn(owner) && #[trigger] joins(prepared, session_id, owner, now_ns, started),
            prepared.store.well_formed() ==> (started matches Ok(service)
                ==> service.store.well_formed()),
    {
        let owner: [u8; 16] = random_id();
        Service::join_as(prepared, session_id, owner, now_ns)
    }

    /// A further service of the same process on a store of its own, under the
    /// owner. Only an external broker can serve several.
    pub fn query_worker_as(&self, store: Store, owner: [u8; 16]) -> (worker: Result<
        Service,
        ServiceError,
    >)
        ensures
            works_beside(*self, store, owner, worker),
    {
        if self.config.broker_socket.is_none() {
            return Err(ServiceError::new("concurrent query workers require external broker"));
        }
        Ok(
            Service {
                store,
                manager_store_uuid: self.manager_store_uuid,
                manager_session_id: self.manager_session_id,
                lease_owner: owner,
                config: self.config.copy(),
                worktree_view_handoffs: Vec::new(),
                dirty_witness_contract_seen: self.dirty_witness_contract_seen,
            },
        )
    }

    /// A further service of the same process on a store of its own.
    pub fn query_worker(&self, store: Store) -> (worker: Result<Service, ServiceError>)
        ensures
            exists|owner: [u8; 16]|
                drawn(owner) && #[trigger] works_beside(*self, store, owner, worker),
    {
        let owner: [u8; 16] = random_id();
        self.query_worker_as(store, owner)
    }

    pub fn store(&self) -> (store: &Store)
        ensures
            *store == self.store,
    {
        &self.store
    }

    /// The store, to be changed. The rest of the service stays.
    pub fn store_mut(&mut self) -> (store: &mut Store)
        ensures
            *store == old(self).store,
            *final(self) == (Service { store: *final(store), ..*old(self) }),
    {
        &mut self.store
    }

    /// What the broker writes down before an effect, under the identifier.
    pub fn receipt_as(
        &self,
        id: [u8; 16],
        operation_id: [u8; 16],
        operation_fence: i64,
        effect_kind: EffectKind,
        filesystem_uuid: [u8; 16],
        started_ns: i64,
    ) -> (receipt: ReceiptRequest)
        ensures
            asks_receipt(
                *self,
                id,
                operation_id,
                operation_fence,
                effect_kind,
                filesystem_uuid,
                started_ns,
                receipt,
            ),
    {
        ReceiptRequest {
            id,
            manager_store_uuid: self.manager_store_uuid,
            manager_session_id: self.manager_session_id,
            operation_id,
            operation_fence,
            effect_kind,
            filesystem_uuid,
            target_locator_hash: [0u8; 32],
            effect_arguments_hash: [0u8; 32],
            boot_id: self.config.boot_id,
            started_ns,
        }
    }

    /// What the broker writes down before an effect.
    pub fn receipt(
        &self,
        operation_id: [u8; 16],
        operation_fence: i64,
        effect_kind: EffectKind,
        filesystem_uuid: [u8; 16],
        started_ns: i64,
    ) -> (receipt: ReceiptRequest)
        ensures
            drawn(receipt.id),
            asks_receipt(
                *self,
                receipt.id,
                operation_id,
                operation_fence,
                effect_kind,
                filesystem_uuid,
                started_ns,
                receipt,
            ),
    {
        let id: [u8; 16] = random_id();
        self.receipt_as(
            id,
            operation_id,
            operation_fence,
            effect_kind,
            filesystem_uuid,
            started_ns,
        )
    }

    /// The path of a present snapshot.
    pub fn snapshot_path(&self, snapshot_id: i64) -> (path: Result<Vec<u8>, ServiceError>)
        ensures
            match (path_of(self.store, snapshot_id), path) {
                (Some(stored), Ok(path)) => path@ == stored,
                (None, Err(error)) => error@ == in_context("load snapshot path"@, no_rows()),
                _ => false,
            },
    {
        match find_number(&self.store.snapshots, snapshot_id) {
            Some(at) => {
                if self.store.snapshots[at].physical_state == PhysicalState::Present {
                    return Ok(copy_bytes(&self.store.snapshots[at].path));
                }
            },
            None => {},
        }
        Err(ServiceError::context("load snapshot path", "Query returned no rows"))
    }

    /// The identifier of a present snapshot.
    pub fn snapshot_uuid(&self, snapshot_id: i64) -> (uuid: Result<[u8; 16], ServiceError>)
        ensures
            match (uuid_of(self.store, snapshot_id), uuid) {
                (Some(stored), Ok(uuid)) => uuid == stored,
                (None, Err(error)) => error@ == in_context("load snapshot UUID"@, no_rows()),
                _ => false,
            },
    {
        match find_number(&self.store.snapshots, snapshot_id) {
            Some(at) => {
                if self.store.snapshots[at].physical_state == PhysicalState::Present {
                    return Ok(self.store.snapshots[at].subvol_uuid);
                }
            },
            None => {},
        }
        Err(ServiceError::context("load snapshot UUID", "Query returned no rows"))
    }

    /// The path of an active watch, where its last cut is present.
    pub fn watch_paths(&self, watch_id: &[u8; 16]) -> (path: Result<Vec<u8>, ServiceError>)
        ensures
            match (live_path_of(self.store, *watch_id), path) {
                (Some(stored), Ok(path)) => path@ == stored,
                (None, Err(error)) => error@ == in_context("load watch paths"@, no_rows()),
                _ => false,
            },
    {
        match find(&self.store.watches, watch_id) {
            Some(at) => {
                let watch = &self.store.watches[at];
                match watch.last_cut_snapshot_id {
                    Some(snapshot_id) => {
                        match find_number(&self.store.snapshots, snapshot_id) {
                            Some(snapshot_at) => {
                                if watch.state == WatchState::Active
                                    && self.store.snapshots[snapshot_at].physical_state
                                    == PhysicalState::Present {
                                    return Ok(copy_bytes(&watch.live_path));
                                }
                            },
                            None => {},
                        }
                    },
                    None => {},
                }
            },
            None => {},
        }
        Err(ServiceError::context("load watch paths", "Query returned no rows"))
    }

    pub fn snapshot_facade_is_enabled(&self) -> (enabled: bool)
        ensures
            enabled == (self.config.experimental_dirty_witness_verified
                && self.dirty_witness_contract_seen),
    {
        self.config.experimental_dirty_witness_verified && self.dirty_witness_contract_seen
    }

    /// Whether the facade can be offered, where that is known, and else what
    /// to probe: the revision and the path of the watch's head.
    pub fn ensure_snapshot_facade_is_enabled(&self, watch_id: &[u8; 16]) -> (probe: Result<
        FacadeProbe,
        ServiceError,
    >)
        ensures
            probes_facade(*self, *watch_id, probe),
    {
        if !self.config.experimental_dirty_witness_verified {
            return Ok(FacadeProbe::Known(false));
        }
        if self.dirty_witness_contract_seen {
            return Ok(FacadeProbe::Known(true));
        }
        match find(&self.store.watches, watch_id) {
            Some(at) => {
                let watch = &self.store.watches[at];
                match watch.indexed_revision_id {
                    Some(revision_id) => {
                        match find_number(&self.store.revisions, revision_id) {
                            Some(revision_at) => {
                                let snapshot_id: i64 =
                                    self.store.revisions[revision_at].snapshot_id;
                                match find_number(&self.store.snapshots, snapshot_id) {
                                    Some(snapshot_at) => {
                                        if watch.state == WatchState::Active {
                                            let path = copy_bytes(
                                                &self.store.snapshots[snapshot_at].path,
                                            );
                                            return Ok(FacadeProbe::Head { revision_id, path });
                                        }
                                    },
                                    None => {},
                                }
                            },
                            None => {},
                        }
                    },
                    None => {},
                }
            },
            None => {},
        }
        Err(ServiceError::context("load facade ABI probe head", "Query returned no rows"))
    }

    /// Looks at what probing the head gave. Only an index that is the stored
    /// one proves anything. `invalid` says what was found wrong with the indexes
    /// on the way to that one.
    pub fn settle_facade_probe(
        &mut self,
        revision_id: i64,
        probed: &Index,
        invalid: &BTreeMap<i64, String>,
        dirty_witness_contract: bool,
    ) -> (enabled: Result<bool, ServiceError>)
        requires
            old(self).store.well_formed(),
            probed.well_formed(),
        ensures
            settles_probe(
                *old(self),
                *final(self),
                revision_id,
                probed@,
                invalid@,
                dirty_witness_contract,
                enabled,
            ),
            old(self).store.well_formed() ==> final(self).store.well_formed(),
    {
        if !dirty_witness_contract {
            return Ok(false);
        }
        match self.store.load_revision(revision_id, invalid) {
            Err(error) => Err(
                ServiceError::context("load facade ABI probe revision", error.message()),
            ),
            Ok(indexed) => {
                if !indexed.same(probed) {
                    return Err(
                        ServiceError::new(
                            "facade ABI probe full index differs from the committed revision",
                        ),
                    );
                }
                self.dirty_witness_contract_seen = true;
                Ok(true)
            },
        }
    }

    /// Takes the view of a new worktree for the grant, where it is kept for
    /// the watch and still at the root. `canonical` is the true path of the
    /// root.
    pub fn take_worktree_view_handoff(
        &mut self,
        watch_id: &[u8; 16],
        authorization_id: &[u8; 16],
        canonical: &Option<Vec<u8>>,
    ) -> (taken: Option<WorktreeViewHandoff>)
        ensures
            *final(self) == (Service {
                worktree_view_handoffs: final(self).worktree_view_handoffs,
                ..*old(self)
            }),
            hands_out(
                old(self).worktree_view_handoffs@,
                final(self).worktree_view_handoffs@,
                *watch_id,
                *authorization_id,
                *canonical,
                taken,
            ),
            old(self).store.well_formed() ==> final(self).store.well_formed(),
    {
        let mut at: usize = 0;
        while at < self.worktree_view_handoffs.len()
            invariant
                at <= self.worktree_view_handoffs@.len(),
                *self == *old(self),
                kept_for(
                    old(self).worktree_view_handoffs@,
                    *watch_id,
                    *authorization_id,
                    *canonical,
                    0,
                ) == kept_for(
                    old(self).worktree_view_handoffs@,
                    *watch_id,
                    *authorization_id,
                    *canonical,
                    at as int,
                ),
            decreases self.worktree_view_handoffs.len() - at,
        {
            let kept = &self.worktree_view_handoffs[at];
            if same_array(&kept.watch_id, watch_id) {
                let here: bool = match canonical {
                    Some(root) => same_bytes(root, &kept.handoff.monitor.binding().root_path),
                    None => false,
                };
                if same_array(&kept.handoff.authorization_id, authorization_id) && here {
                    let kept = self.worktree_view_handoffs.remove(at);
                    return Some(kept.handoff);
                }
                return None;
            }
            at += 1;
        }
        None
    }
}

/// What a further service of the same process is.
pub open spec fn works_beside(
    service: Service,
    store: Store,
    owner: [u8; 16],
    worker: Result<Service, ServiceError>,
) -> bool {
    if service.config.broker_socket is None {
        &&& worker matches Err(error)
        &&& error@ == "concurrent query workers require external broker"@
    } else {
        &&& worker matches Ok(worker)
        &&& same_config(worker.config, service.config)
        &&& worker.worktree_view_handoffs@.len() == 0
        &&& worker == Service {
            store,
            lease_owner: owner,
            config: worker.config,
            worktree_view_handoffs: worker.worktree_view_handoffs,
            ..service
        }
    }
}

/// Where the view that the grant may take is kept.
pub open spec fn kept_for(
    handoffs: Seq<KeptHandoff>,
    watch_id: [u8; 16],
    authorization_id: [u8; 16],
    canonical: Option<Vec<u8>>,
    from: int,
) -> Option<int>
    decreases handoffs.len() - from,
{
    if from < 0 || from >= handoffs.len() {
        None
    } else if handoffs[from].watch_id == watch_id {
        if handoffs[from].handoff.authorization_id == authorization_id && (
        canonical matches Some(root) && root@ == handoffs[from].handoff.monitor.bound().root_path@)
        {
            Some(from)
        } else {
            None
        }
    } else {
        kept_for(handoffs, watch_id, authorization_id, canonical, from + 1)
    }
}

/// What handing out the view that is kept for a grant does.
pub open spec fn hands_out(
    before: Seq<KeptHandoff>,
    after: Seq<KeptHandoff>,
    watch_id: [u8; 16],
    authorization_id: [u8; 16],
    canonical: Option<Vec<u8>>,
    taken: Option<WorktreeViewHandoff>,
) -> bool {
    match kept_for(before, watch_id, authorization_id, canonical, 0) {
        Some(at) => {
            &&& taken == Some(before[at].handoff)
            &&& after =~= before.remove(at)
        },
        None => taken is None && after =~= before,
    }
}

/// Whether the facade can be offered, or what to probe.
#[derive(Debug)]
pub enum FacadeProbe {
    Known(bool),
    Head { revision_id: i64, path: Vec<u8> },
}

/// The head of an active watch: its revision and the path of its snapshot.
pub open spec fn probe_head(store: Store, watch_id: [u8; 16]) -> Option<(i64, Seq<u8>)> {
    match row(store.watches@, watch_id) {
        Some(watch) => if watch.state != WatchState::Active {
            None
        } else {
            match watch.indexed_revision_id {
                Some(revision_id) => match numbered(store.revisions@, revision_id) {
                    Some(revision) => match numbered(store.snapshots@, revision.snapshot_id) {
                        Some(snapshot) => Some((revision_id, snapshot.path@)),
                        None => None,
                    },
                    None => None,
                },
                None => None,
            }
        },
        None => None,
    }
}

/// What asking for the facade gives.
pub open spec fn probes_facade(
    service: Service,
    watch_id: [u8; 16],
    probe: Result<FacadeProbe, ServiceError>,
) -> bool {
    if !service.config.experimental_dirty_witness_verified {
        probe == Ok::<FacadeProbe, ServiceError>(FacadeProbe::Known(false))
    } else if service.dirty_witness_contract_seen {
        probe == Ok::<FacadeProbe, ServiceError>(FacadeProbe::Known(true))
    } else {
        match (probe_head(service.store, watch_id), probe) {
            (Some((id, stored)), Ok(FacadeProbe::Head { revision_id, path })) => revision_id == id
                && path@ == stored,
            (None, Err(error)) => error@ == in_context("load facade ABI probe head"@, no_rows()),
            _ => false,
        }
    }
}

/// What settling a probe does.
pub open spec fn settles_probe(
    before: Service,
    after: Service,
    revision_id: i64,
    probed: IndexView,
    invalid: Map<i64, String>,
    dirty_witness_contract: bool,
    enabled: Result<bool, ServiceError>,
) -> bool {
    if !dirty_witness_contract {
        after == before && enabled == Ok::<bool, ServiceError>(false)
    } else {
        match revision_loaded(before.store.revisions@, revision_id, invalid) {
            Err(fault) => {
                &&& after == before
                &&& enabled matches Err(error)
                &&& error@ == in_context("load facade ABI probe revision"@, fault)
            },
            Ok(indexed) => if indexed != probed {
                &&& after == before
                &&& enabled matches Err(error)
                &&& error@ == "facade ABI probe full index differs from the committed revision"@
            } else {
                &&& after == (Service { dirty_witness_contract_seen: true, ..before })
                &&& enabled == Ok::<bool, ServiceError>(true)
            },
        }
    }
}

/// The path of a present snapshot.
pub open spec fn path_of(store: Store, snapshot_id: i64) -> Option<Seq<u8>> {
    match numbered(store.snapshots@, snapshot_id) {
        Some(snapshot) => if snapshot.physical_state == PhysicalState::Present {
            Some(snapshot.path@)
        } else {
            None
        },
        None => None,
    }
}

/// The identifier of a present snapshot.
pub open spec fn uuid_of(store: Store, snapshot_id: i64) -> Option<[u8; 16]> {
    match numbered(store.snapshots@, snapshot_id) {
        Some(snapshot) => if snapshot.physical_state == PhysicalState::Present {
            Some(snapshot.subvol_uuid)
        } else {
            None
        },
        None => None,
    }
}

/// The path of an active watch, where its last cut is present.
pub open spec fn live_path_of(store: Store, watch_id: [u8; 16]) -> Option<Seq<u8>> {
    match row(store.watches@, watch_id) {
        Some(watch) => match watch.last_cut_snapshot_id {
            Some(snapshot_id) => if watch.state == WatchState::Active && path_of(
                store,
                snapshot_id,
            ) is Some {
                Some(watch.live_path@)
            } else {
                None
            },
            None => None,
        },
        None => None,
    }
}

/// A process that has not seen the contract of the kernel offers no facade, and
/// a probe only ever enables it with an index that is the stored one.
pub proof fn law_facade_needs_proof(
    before: Service,
    after: Service,
    revision_id: i64,
    probed: IndexView,
    invalid: Map<i64, String>,
    dirty_witness_contract: bool,
    enabled: Result<bool, ServiceError>,
)
    requires
        settles_probe(
            before,
            after,
            revision_id,
            probed,
            invalid,
            dirty_witness_contract,
            enabled,
        ),
        after.dirty_witness_contract_seen,
        !before.dirty_witness_contract_seen,
    ensures
        dirty_witness_contract,
        revision_index(before.store.revisions@, revision_id) == Ok::<IndexView, Seq<char>>(probed),
{
    law_loaded_revision_is_stored(before.store.revisions@, revision_id, invalid);
}

} // verus!
