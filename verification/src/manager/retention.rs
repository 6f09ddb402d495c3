//! Keeping snapshots on a caller's behalf, and deleting those that nothing
//! keeps.

use crate::digest::{all_drawn, drawn, random_id};
use crate::manager::pins::{is_pinned, pins_for, pins_to, unpin_reason};
use crate::manager::rows::{
    grant_allows, is_allowed, none_changed, same_owner, DeleteOperation, DeleteState, Filesystem,
    PhysicalState, Pin, PinOwner, PinReason, Retention, RetentionState, Snapshot, Store, WatchCut,
    WatchState,
};
use crate::manager::stage::STORED_MAX;
use crate::manager::table::{
    any, change, changing, count, find, find_number, numbered, place, remove, removing, row, slot,
    some, tally,
};
use crate::manager::types::{
    fence_after, holds, next_fence, require_one, row_count_text, ManagerError, RetentionLease,
    SnapshotDeleteReservation, SnapshotIdentity, PERMISSION_RETAIN,
};
use crate::text::{copy_bytes, same_array};
use vstd::prelude::*;

verus! {

/// The cuts of a watch that begin or end at the snapshot.
pub open spec fn cut_touches(watch_id: [u8; 16], snapshot_id: i64) -> spec_fn(WatchCut) -> bool {
    |cut: WatchCut|
        cut.watch_id == watch_id && (cut.base_snapshot_id == snapshot_id || cut.target_snapshot_id
            == snapshot_id)
}

/// Whether the snapshot is a present one of an active watch that the grant may
/// retain.
pub open spec fn may_retain(
    store: Store,
    watch_id: [u8; 16],
    authorization_id: [u8; 16],
    snapshot_id: i64,
) -> bool {
    &&& row(store.watches@, watch_id) matches Some(watch)
    &&& watch.state == WatchState::Active
    &&& grant_allows(store.grants@, watch_id, authorization_id, PERMISSION_RETAIN)
    &&& numbered(store.snapshots@, snapshot_id) matches Some(snapshot)
    &&& snapshot.filesystem_id == watch.filesystem_id
    &&& snapshot.physical_state == PhysicalState::Present
    &&& watch.last_cut_snapshot_id == Some(snapshot_id) || some(
        store.cuts@,
        cut_touches(watch_id, snapshot_id),
    )
}

/// Why a snapshot cannot be retained.
pub open spec fn retain_fault(
    store: Store,
    watch_id: [u8; 16],
    authorization_id: [u8; 16],
    snapshot_id: i64,
    now_ns: i64,
    expires_ns: i64,
    id: [u8; 16],
) -> Option<Seq<char>> {
    if expires_ns <= now_ns {
        Some("retention lease must expire after creation"@)
    } else if !may_retain(store, watch_id, authorization_id, snapshot_id) {
        Some("retention target is not an authorized snapshot of this watch"@)
    } else if row(store.retention_leases@, id) is Some {
        Some("UNIQUE constraint failed: retention_leases.id"@)
    } else {
        None
    }
}

/// What retaining a snapshot under the identifier does.
pub open spec fn retains(
    before: Store,
    after: Store,
    watch_id: [u8; 16],
    authorization_id: [u8; 16],
    snapshot_id: i64,
    now_ns: i64,
    expires_ns: i64,
    id: [u8; 16],
    retained: Result<RetentionLease, ManagerError>,
) -> bool {
    match retain_fault(
        before,
        watch_id,
        authorization_id,
        snapshot_id,
        now_ns,
        expires_ns,
        id,
    ) {
        Some(fault) => {
            &&& after == before
            &&& retained matches Err(error)
            &&& error@ == fault
        },
        None => {
            &&& after == (Store {
                retention_leases: after.retention_leases,
                pins: after.pins,
                ..before
            })
            &&& after.retention_leases@ == before.retention_leases@.push(
                Retention {
                    id,
                    watch_id,
                    authorization_id,
                    snapshot_id,
                    state: RetentionState::Active,
                    lease_fence: 0,
                    expires_ns,
                    created_ns: now_ns,
                },
            )
            &&& after.pins@ == before.pins@.push(
                Pin {
                    snapshot_id,
                    owner: PinOwner::RetentionLease(id),
                    reason: PinReason::CallerRetention,
                },
            )
            &&& retained == Ok::<RetentionLease, ManagerError>(
                RetentionLease {
                    id,
                    watch_id,
                    authorization_id,
                    snapshot_id,
                    lease_fence: 0,
                    expires_ns,
                },
            )
        },
    }
}

/// Whether the row is the caller's active lease.
pub open spec fn lease_is(retention: Retention, lease: RetentionLease) -> bool {
    &&& retention.watch_id == lease.watch_id
    &&& retention.authorization_id == lease.authorization_id
    &&& retention.snapshot_id == lease.snapshot_id
    &&& retention.state == RetentionState::Active
    &&& retention.lease_fence == lease.lease_fence
}

/// Why a retention lease cannot be released.
pub open spec fn release_retention_fault(store: Store, lease: RetentionLease) -> Option<Seq<char>> {
    let pins = tally(
        store.pins@,
        pins_for(
            lease.snapshot_id,
            PinOwner::RetentionLease(lease.id),
            PinReason::CallerRetention,
        ),
    );
    if !(row(store.retention_leases@, lease.id) matches Some(retention) && lease_is(
        retention,
        lease,
    )) {
        Some(row_count_text("release retention lease"@, 0))
    } else if pins != 1 {
        Some(row_count_text("release retention pin"@, pins))
    } else {
        None
    }
}

/// The active leases that have run out.
pub open spec fn run_out(now_ns: i64) -> spec_fn(Retention) -> bool {
    |retention: Retention|
        retention.state == RetentionState::Active && retention.expires_ns <= now_ns
}

/// Ends the leases that have run out.
pub open spec fn expired(now_ns: i64) -> spec_fn(Retention) -> Retention {
    |retention: Retention|
        if run_out(now_ns)(retention) {
            Retention {
                state: RetentionState::Expired,
                lease_fence: fence_after(retention.lease_fence),
                ..retention
            }
        } else {
            retention
        }
}

/// The lease that has run out with the identifier, on the snapshot.
pub open spec fn run_out_on(now_ns: i64, id: [u8; 16], snapshot_id: i64) -> spec_fn(
    Retention,
) -> bool {
    |retention: Retention|
        run_out(now_ns)(retention) && retention.id == id && retention.snapshot_id == snapshot_id
}

/// The pins of leases that have run out.
pub open spec fn run_out_pins(leases: Seq<Retention>, now_ns: i64) -> spec_fn(Pin) -> bool {
    |pin: Pin|
        match pin.owner {
            PinOwner::RetentionLease(id) => some(leases, run_out_on(now_ns, id, pin.snapshot_id)),
            _ => false,
        }
}

fn has_run_out_on(leases: &Vec<Retention>, now_ns: i64, id: &[u8; 16], snapshot_id: i64) -> (found:
    bool)
    ensures
        found == some(leases@, run_out_on(now_ns, *id, snapshot_id)),
{
    let test = |retention: &Retention| -> (picked: bool)
        ensures
            picked == run_out_on(now_ns, *id, snapshot_id)(*retention),
        {
            retention.state == RetentionState::Active && retention.expires_ns <= now_ns
                && same_array(&retention.id, id) && retention.snapshot_id == snapshot_id
        };
    any(leases, test, Ghost(run_out_on(now_ns, *id, snapshot_id)))
}

/// The deletions of the snapshot that are not done.
pub open spec fn deleting(snapshot_id: i64) -> spec_fn(DeleteOperation) -> bool {
    |operation: DeleteOperation|
        operation.snapshot_id == snapshot_id && operation.state != DeleteState::Done
}

/// Whether the snapshot is present, kept by nothing and not being deleted.
pub open spec fn deletable(store: Store, id: i64) -> bool {
    &&& numbered(store.snapshots@, id) matches Some(snapshot)
    &&& snapshot.physical_state == PhysicalState::Present
    &&& numbered(store.filesystems@, snapshot.filesystem_id) is Some
    &&& !some(store.pins@, pins_to(id))
    &&& !some(store.delete_operations@, deleting(id))
}

/// The smallest number, behind `after`, of the first `n` snapshots that can be
/// deleted.
pub open spec fn lowest_deletable_before(store: Store, after: Option<i64>, n: int) -> Option<i64>
    decreases n,
{
    if n <= 0 {
        None
    } else {
        let earlier = lowest_deletable_before(store, after, n - 1);
        let id = store.snapshots@[n - 1].id;
        if deletable(store, id) && (after matches Some(after) ==> id > after) && (
        earlier matches Some(earlier) ==> id < earlier) {
            Some(id)
        } else {
            earlier
        }
    }
}

/// The numbers, behind `after`, of up to `limit` snapshots that can be
/// deleted, the smallest first.
pub open spec fn deletable_behind(store: Store, after: Option<i64>, limit: nat) -> Seq<i64>
    decreases limit,
{
    if limit == 0 {
        Seq::empty()
    } else {
        match lowest_deletable_before(store, after, store.snapshots@.len() as int) {
            None => Seq::empty(),
            Some(id) => seq![id] + deletable_behind(store, Some(id), (limit - 1) as nat),
        }
    }
}

/// Whether the candidates are all read-only.
pub open spec fn all_readonly(store: Store, ids: Seq<i64>) -> bool {
    forall|i: int|
        0 <= i < ids.len() ==> numbered(store.snapshots@, #[trigger] ids[i])->0.readonly
}

/// Why deletions cannot be reserved.
pub open spec fn reserve_deletes_fault(
    store: Store,
    now_ns: i64,
    lease_expires_ns: i64,
    limit: nat,
    ids: Seq<[u8; 16]>,
) -> Option<Seq<char>> {
    if lease_expires_ns <= now_ns || limit == 0 {
        Some("snapshot-delete lease and positive batch limit are required"@)
    } else if limit > STORED_MAX {
        Some("snapshot-delete batch limit overflow"@)
    } else if !all_readonly(store, deletable_behind(store, None, limit)) {
        Some(
            "Conversion error from type Integer at index: 10, managed snapshot delete candidate is not read-only"@,
        )
    } else if ids_taken(store.delete_operations@, ids) {
        Some("UNIQUE constraint failed: snapshot_delete_operations.id"@)
    } else {
        None
    }
}

/// Whether an identifier is in use or occurs twice.
pub open spec fn ids_taken(operations: Seq<DeleteOperation>, ids: Seq<[u8; 16]>) -> bool {
    ||| exists|i: int| 0 <= i < ids.len() && row(operations, #[trigger] ids[i]) is Some
    ||| exists|i: int, j: int| 0 <= i < j < ids.len() && #[trigger] ids[i] == #[trigger] ids[j]
}

/// The snapshot on its way out.
pub open spec fn going(ids: Seq<i64>) -> spec_fn(Snapshot) -> Snapshot {
    |snapshot: Snapshot|
        if ids.contains(snapshot.id) {
            Snapshot { physical_state: PhysicalState::Deleting, ..snapshot }
        } else {
            snapshot
        }
}

/// The planned deletions of the snapshots, under the identifiers.
pub open spec fn planned_deletes(
    store: Store,
    snapshots: Seq<i64>,
    ids: Seq<[u8; 16]>,
    lease_owner: [u8; 16],
    lease_expires_ns: i64,
    now_ns: i64,
) -> Seq<DeleteOperation> {
    Seq::new(
        snapshots.len(),
        |i: int|
            DeleteOperation {
                id: ids[i],
                snapshot_id: snapshots[i],
                filesystem_id: numbered(store.snapshots@, snapshots[i])->0.filesystem_id,
                state: DeleteState::Planned,
                lease_owner: Some(lease_owner),
                lease_fence: 1,
                lease_expires_ns: Some(lease_expires_ns),
                updated_ns: now_ns,
            },
    )
}

/// Whether the reservation is that of the snapshot's deletion.
pub open spec fn reserves_delete(
    reservation: SnapshotDeleteReservation,
    id: [u8; 16],
    snapshot: Snapshot,
    filesystem: Filesystem,
) -> bool {
    &&& reservation.operation_id == id
    &&& reservation.snapshot_id == snapshot.id
    &&& reservation.filesystem_id == snapshot.filesystem_id
    &&& reservation.operation_fence == 1
    &&& reservation.identity.path@ == snapshot.path@
    &&& reservation.identity == SnapshotIdentity {
        fs_uuid: filesystem.fs_uuid,
        subvol_uuid: snapshot.subvol_uuid,
        parent_uuid: snapshot.parent_uuid,
        received_uuid: snapshot.received_uuid,
        root_id: snapshot.root_id,
        ctransid: snapshot.ctransid,
        otransid: snapshot.otransid,
        path: reservation.identity.path,
        readonly: true,
        created_ns: snapshot.created_ns,
    }
}

/// What reserving deletions under the identifiers does.
pub open spec fn reserves_deletes(
    before: Store,
    after: Store,
    lease_owner: [u8; 16],
    now_ns: i64,
    lease_expires_ns: i64,
    limit: nat,
    ids: Seq<[u8; 16]>,
    reserved: Result<Vec<SnapshotDeleteReservation>, ManagerError>,
) -> bool {
    match reserve_deletes_fault(before, now_ns, lease_expires_ns, limit, ids) {
        Some(fault) => {
            &&& after == before
            &&& reserved matches Err(error)
            &&& error@ == fault
        },
        None => {
            let snapshots = deletable_behind(before, None, limit);
            &&& after == (Store {
                snapshots: after.snapshots,
                delete_operations: after.delete_operations,
                ..before
            })
            &&& after.snapshots@ == changing(before.snapshots@, going(snapshots))
            &&& after.delete_operations@ == before.delete_operations@ + planned_deletes(
                before,
                snapshots,
                ids,
                lease_owner,
                lease_expires_ns,
                now_ns,
            )
            &&& reserved matches Ok(reserved)
            &&& reserved@.len() == snapshots.len()
            &&& forall|i: int|
                0 <= i < snapshots.len() ==> {
                    let snapshot = numbered(before.snapshots@, snapshots[i])->0;
                    reserves_delete(
                        #[trigger] reserved@[i],
                        ids[i],
                        snapshot,
                        numbered(before.filesystems@, snapshot.filesystem_id)->0,
                    )
                }
        },
    }
}

/// The deletion of a reservation, in the state, while it is held.
pub open spec fn delete_operation(
    operations: Seq<DeleteOperation>,
    reservation: SnapshotDeleteReservation,
    lease_owner: [u8; 16],
    state: DeleteState,
) -> bool {
    match row(operations, reservation.operation_id) {
        Some(operation) => operation.snapshot_id == reservation.snapshot_id && operation.state
            == state && operation.lease_owner == Some(lease_owner) && operation.lease_fence
            == reservation.operation_fence,
        None => false,
    }
}

fn find_delete_operation(
    operations: &Vec<DeleteOperation>,
    reservation: &SnapshotDeleteReservation,
    lease_owner: &[u8; 16],
    state: DeleteState,
) -> (at: Option<usize>)
    ensures
        match at {
            Some(at) => delete_operation(operations@, *reservation, *lease_owner, state) && at
                < operations@.len() && place(operations@, reservation.operation_id) == Some(
                at as int,
            ),
            None => !delete_operation(operations@, *reservation, *lease_owner, state),
        },
{
    match find(operations, &reservation.operation_id) {
        Some(at) => if operations[at].snapshot_id == reservation.snapshot_id
            && operations[at].state == state && holds(&operations[at].lease_owner, lease_owner)
            && operations[at].lease_fence == reservation.operation_fence {
            Some(at)
        } else {
            None
        },
        None => None,
    }
}

/// Why a deletion cannot be finished.
pub open spec fn finish_delete_fault(
    store: Store,
    reservation: SnapshotDeleteReservation,
    lease_owner: [u8; 16],
) -> Option<Seq<char>> {
    if !(numbered(store.snapshots@, reservation.snapshot_id) matches Some(snapshot)
        && snapshot.physical_state == PhysicalState::Deleting) || some(
        store.pins@,
        pins_to(reservation.snapshot_id),
    ) {
        Some(row_count_text("tombstone deleted snapshot"@, 0))
    } else if !delete_operation(
        store.delete_operations@,
        reservation,
        lease_owner,
        DeleteState::DeleteDurable,
    ) {
        Some(row_count_text("finish snapshot delete"@, 0))
    } else {
        None
    }
}

proof fn lemma_lowest(store: Store, after: Option<i64>, n: int)
    requires
        0 <= n <= store.snapshots@.len(),
    ensures
        lowest_deletable_before(store, after, n) matches Some(id) ==> deletable(store, id),
    decreases n,
{
    if n > 0 {
        lemma_lowest(store, after, n - 1);
    }
}

fn are_ids_taken(operations: &Vec<DeleteOperation>, ids: &Vec<[u8; 16]>) -> (taken: bool)
    ensures
        taken == ids_taken(operations@, ids@),
{
    let mut at: usize = 0;
    while at < ids.len()
        invariant
            at <= ids.len(),
            forall|i: int| 0 <= i < at ==> row(operations@, #[trigger] ids@[i]) is None,
            forall|i: int, j: int|
                0 <= i < j < at ==> #[trigger] ids@[i] != #[trigger] ids@[j],
        decreases ids.len() - at,
    {
        if find(operations, &ids[at]).is_some() {
            assert(row(operations@, ids@[at as int]) is Some);
            return true;
        }
        let mut other: usize = 0;
        while other < at
            invariant
                other <= at < ids.len(),
                forall|i: int| 0 <= i < other ==> #[trigger] ids@[i] != ids@[at as int],
            decreases at - other,
        {
            if same_array(&ids[other], &ids[at]) {
                assert(ids@[other as int] == ids@[at as int]);
                return true;
            }
            other += 1;
        }
        at += 1;
    }
    false
}

fn holds_number(ids: &Vec<i64>, id: i64) -> (found: bool)
    ensures
        found == ids@.contains(id),
{
    let mut at: usize = 0;
    while at < ids.len()
        invariant
            at <= ids.len(),
            forall|i: int| 0 <= i < at ==> ids@[i] != id,
        decreases ids.len() - at,
    {
        if ids[at] == id {
            assert(ids@[at as int] == id);
            return true;
        }
        at += 1;
    }
    false
}

/// What [`Store::expire_retention_leases`] does.
pub open spec fn expires_leases(
    before: Store,
    after: Store,
    now_ns: i64,
    ended: Result<usize, ManagerError>,
) -> bool {
    &&& after == (Store {
        retention_leases: after.retention_leases,
        pins: after.pins,
        ..before
    })
    &&& after.retention_leases@ =~= changing(
        before.retention_leases@,
        expired(now_ns),
    )
    &&& after.pins@ =~= removing(
        before.pins@,
        run_out_pins(before.retention_leases@, now_ns),
    )
    &&& ended matches Ok(ended) && ended == tally(
        before.retention_leases@,
        run_out(now_ns),
    )
}

/// What [`Store::start_snapshot_delete`] does.
pub open spec fn starts_delete(
    before: Store,
    after: Store,
    reservation: SnapshotDeleteReservation,
    lease_owner: [u8; 16],
    now_ns: i64,
    started: Result<(), ManagerError>,
) -> bool {
    if delete_operation(
        before.delete_operations@,
        reservation,
        lease_owner,
        DeleteState::Planned,
    ) {
        let at = place(before.delete_operations@, reservation.operation_id)->0;
        &&& started is Ok
        &&& after == (Store {
            delete_operations: after.delete_operations,
            ..before
        })
        &&& after.delete_operations@ =~= before.delete_operations@.update(
            at,
            DeleteOperation {
                state: DeleteState::FsStarted,
                updated_ns: now_ns,
                ..before.delete_operations@[at]
            },
        )
    } else {
        &&& after == before
        &&& started matches Err(error)
        &&& error@ == row_count_text("start snapshot delete"@, 0)
    }
}

/// What [`Store::record_snapshot_delete_durable`] does.
pub open spec fn records_delete(
    before: Store,
    after: Store,
    reservation: SnapshotDeleteReservation,
    lease_owner: [u8; 16],
    now_ns: i64,
    recorded: Result<(), ManagerError>,
) -> bool {
    if delete_operation(
        before.delete_operations@,
        reservation,
        lease_owner,
        DeleteState::FsStarted,
    ) {
        let at = place(before.delete_operations@, reservation.operation_id)->0;
        &&& recorded is Ok
        &&& after == (Store {
            delete_operations: after.delete_operations,
            ..before
        })
        &&& after.delete_operations@ =~= before.delete_operations@.update(
            at,
            DeleteOperation {
                state: DeleteState::DeleteDurable,
                updated_ns: now_ns,
                ..before.delete_operations@[at]
            },
        )
    } else {
        &&& after == before
        &&& recorded matches Err(error)
        &&& error@ == row_count_text("record snapshot namespace deletion"@, 0)
    }
}

/// What [`Store::finish_snapshot_delete`] does.
pub open spec fn finishes_delete(
    before: Store,
    after: Store,
    reservation: SnapshotDeleteReservation,
    lease_owner: [u8; 16],
    now_ns: i64,
    finished: Result<(), ManagerError>,
) -> bool {
    match finish_delete_fault(before, reservation, lease_owner) {
        Some(fault) => {
            &&& after == before
            &&& finished matches Err(error)
            &&& error@ == fault
        },
        None => {
            let at = place(before.delete_operations@, reservation.operation_id)->0;
            let snapshot_at = slot(before.snapshots@, reservation.snapshot_id)->0;
            &&& finished is Ok
            &&& after == (Store {
                snapshots: after.snapshots,
                delete_operations: after.delete_operations,
                ..before
            })
            &&& after.snapshots@ =~= before.snapshots@.update(
                snapshot_at,
                Snapshot {
                    physical_state: PhysicalState::Deleted,
                    deleted_ns: Some(now_ns),
                    ..before.snapshots@[snapshot_at]
                },
            )
            &&& after.delete_operations@ =~= before.delete_operations@.update(
                at,
                DeleteOperation {
                    state: DeleteState::Done,
                    lease_owner: None,
                    lease_expires_ns: None,
                    updated_ns: now_ns,
                    ..before.delete_operations@[at]
                },
            )
        },
    }
}

/// What [`Store::release_retention_lease`] does.
pub open spec fn releases_retention(
    before: Store,
    after: Store,
    lease: RetentionLease,
    released: Result<(), ManagerError>,
) -> bool {
    match release_retention_fault(before, lease) {
        Some(fault) => {
            &&& after == before
            &&& released matches Err(error)
            &&& error@ == fault
        },
        None => {
            let at = place(before.retention_leases@, lease.id)->0;
            let retention = before.retention_leases@[at];
            &&& released is Ok
            &&& after == (Store {
                retention_leases: after.retention_leases,
                pins: after.pins,
                ..before
            })
            &&& after.retention_leases@ =~= before.retention_leases@.update(
                at,
                Retention {
                    state: RetentionState::Released,
                    lease_fence: fence_after(retention.lease_fence),
                    ..retention
                },
            )
            &&& after.pins@ =~= removing(
                before.pins@,
                pins_for(
                    lease.snapshot_id,
                    PinOwner::RetentionLease(lease.id),
                    PinReason::CallerRetention,
                ),
            )
        },
    }
}

impl Store {
    fn is_retainable(
        &self,
        watch_id: &[u8; 16],
        authorization_id: &[u8; 16],
        snapshot_id: i64,
    ) -> (may: bool)
        ensures
            may == may_retain(*self, *watch_id, *authorization_id, snapshot_id),
    {
        match (find(&self.watches, watch_id), find_number(&self.snapshots, snapshot_id)) {
            (Some(watch_at), Some(at)) => {
                let test = |cut: &WatchCut| -> (picked: bool)
                    ensures
                        picked == cut_touches(*watch_id, snapshot_id)(*cut),
                    {
                        same_array(&cut.watch_id, watch_id) && (cut.base_snapshot_id == snapshot_id
                            || cut.target_snapshot_id == snapshot_id)
                    };
                let watch = &self.watches[watch_at];
                watch.state == WatchState::Active && is_allowed(
                    &self.grants,
                    watch_id,
                    authorization_id,
                    PERMISSION_RETAIN,
                ) && self.snapshots[at].filesystem_id == watch.filesystem_id
                    && self.snapshots[at].physical_state == PhysicalState::Present && (
                watch.last_cut_snapshot_id == Some(snapshot_id) || any(
                    &self.cuts,
                    test,
                    Ghost(cut_touches(*watch_id, snapshot_id)),
                ))
            },
            _ => false,
        }
    }

    /// Keeps a snapshot until the lease under the identifier runs out.
    pub fn create_retention_lease_as(
        &mut self,
        watch_id: [u8; 16],
        authorization_id: [u8; 16],
        snapshot_id: i64,
        now_ns: i64,
        expires_ns: i64,
        id: [u8; 16],
    ) -> (retained: Result<RetentionLease, ManagerError>)
        ensures
            retains(
                *old(self),
                *final(self),
                watch_id,
                authorization_id,
                snapshot_id,
                now_ns,
                expires_ns,
                id,
                retained,
            ),
            old(self).well_formed() ==> final(self).well_formed(),
    {
        if expires_ns <= now_ns {
            return Err(ManagerError::new("retention lease must expire after creation"));
        }
        if !self.is_retainable(&watch_id, &authorization_id, snapshot_id) {
            return Err(
                ManagerError::new("retention target is not an authorized snapshot of this watch"),
            );
        }
        if find(&self.retention_leases, &id).is_some() {
            return Err(ManagerError::new("UNIQUE constraint failed: retention_leases.id"));
        }
        self.retention_leases.push(
            Retention {
                id,
                watch_id,
                authorization_id,
                snapshot_id,
                state: RetentionState::Active,
                lease_fence: 0,
                expires_ns,
                created_ns: now_ns,
            },
        );
        self.pins.push(
            Pin {
                snapshot_id,
                owner: PinOwner::RetentionLease(id),
                reason: PinReason::CallerRetention,
            },
        );
        Ok(
            RetentionLease {
                id,
                watch_id,
                authorization_id,
                snapshot_id,
                lease_fence: 0,
                expires_ns,
            },
        )
    }

    /// Keeps a snapshot until a lease runs out.
    pub fn create_retention_lease(
        &mut self,
        watch_id: [u8; 16],
        authorization_id: [u8; 16],
        snapshot_id: i64,
        now_ns: i64,
        expires_ns: i64,
    ) -> (retained: Result<RetentionLease, ManagerError>)
        ensures
            exists|id: [u8; 16]|
                drawn(id) && #[trigger] retains(
                    *old(self),
                    *final(self),
                    watch_id,
                    authorization_id,
                    snapshot_id,
                    now_ns,
                    expires_ns,
                    id,
                    retained,
                ),
            old(self).well_formed() ==> final(self).well_formed(),
    {
        let id: [u8; 16] = random_id();
        self.create_retention_lease_as(
            watch_id,
            authorization_id,
            snapshot_id,
            now_ns,
            expires_ns,
            id,
        )
    }

    /// Stops keeping a snapshot.
    pub fn release_retention_lease(&mut self, lease: &RetentionLease) -> (released: Result<
        (),
        ManagerError,
    >)
        ensures
            releases_retention(*old(self), *final(self), *lease, released),
            old(self).well_formed() ==> final(self).well_formed(),
    {
        let at: usize = match find(&self.retention_leases, &lease.id) {
            Some(at) => at,
            None => {
                return Err(none_changed("release retention lease"));
            },
        };
        let retention: Retention = self.retention_leases[at];
        if !same_array(&retention.watch_id, &lease.watch_id) || !same_array(
            &retention.authorization_id,
            &lease.authorization_id,
        ) || retention.snapshot_id != lease.snapshot_id || retention.state
            != RetentionState::Active || retention.lease_fence != lease.lease_fence {
            return Err(none_changed("release retention lease"));
        }
        let owner = PinOwner::RetentionLease(lease.id);
        let snapshot_id: i64 = lease.snapshot_id;
        let test = |pin: &Pin| -> (picked: bool)
            ensures
                picked == pins_for(snapshot_id, owner, PinReason::CallerRetention)(*pin),
            {
                pin.snapshot_id == snapshot_id && same_owner(&pin.owner, &owner) && pin.reason
                    == PinReason::CallerRetention
            };
        let pins: usize = count(
            &self.pins,
            test,
            Ghost(pins_for(snapshot_id, owner, PinReason::CallerRetention)),
        );
        match require_one(pins, "release retention pin") {
            Ok(_) => {},
            Err(error) => {
                return Err(error);
            },
        }
        let fence: i64 = next_fence(retention.lease_fence);
        self.retention_leases[at].state = RetentionState::Released;
        self.retention_leases[at].lease_fence = fence;
        unpin_reason(
            &mut self.pins,
            snapshot_id,
            owner,
            PinReason::CallerRetention,
        );
        Ok(())
    }

    /// Ends the leases that have run out and says how many there were.
    pub fn expire_retention_leases(&mut self, now_ns: i64) -> (ended: Result<usize, ManagerError>)
        ensures
            expires_leases(*old(self), *final(self), now_ns, ended),
            old(self).well_formed() ==> final(self).well_formed(),
    {
        let test = |retention: &Retention| -> (picked: bool)
            ensures
                picked == run_out(now_ns)(*retention),
            { retention.state == RetentionState::Active && retention.expires_ns <= now_ns };
        let ended: usize = count(&self.retention_leases, test, Ghost(run_out(now_ns)));
        let leases = &self.retention_leases;
        let test = |pin: &Pin| -> (picked: bool)
            ensures
                picked == run_out_pins(leases@, now_ns)(*pin),
            {
                match &pin.owner {
                    PinOwner::RetentionLease(id) => has_run_out_on(
                        leases,
                        now_ns,
                        id,
                        pin.snapshot_id,
                    ),
                    _ => false,
                }
            };
        remove(&mut self.pins, test, Ghost(run_out_pins(self.retention_leases@, now_ns)));
        let apply = |retention: Retention| -> (after: Retention)
            ensures
                after == expired(now_ns)(retention),
            {
                if retention.state == RetentionState::Active && retention.expires_ns <= now_ns {
                    Retention {
                        state: RetentionState::Expired,
                        lease_fence: next_fence(retention.lease_fence),
                        ..retention
                    }
                } else {
                    retention
                }
            };
        change(&mut self.retention_leases, apply, Ghost(expired(now_ns)));
        Ok(ended)
    }

    fn is_deletable(&self, id: i64) -> (is_deletable: bool)
        ensures
            is_deletable == deletable(*self, id),
    {
        let snapshot = match find_number(&self.snapshots, id) {
            Some(at) => &self.snapshots[at],
            None => {
                return false;
            },
        };
        let test = |operation: &DeleteOperation| -> (picked: bool)
            ensures
                picked == deleting(id)(*operation),
            { operation.snapshot_id == id && operation.state != DeleteState::Done };
        snapshot.physical_state == PhysicalState::Present && find_number(
            &self.filesystems,
            snapshot.filesystem_id,
        ).is_some() && !is_pinned(&self.pins, id) && !any(
            &self.delete_operations,
            test,
            Ghost(deleting(id)),
        )
    }

    fn find_lowest_deletable(&self, after: Option<i64>) -> (id: Option<i64>)
        ensures
            id == lowest_deletable_before(*self, after, self.snapshots@.len() as int),
    {
        let mut lowest: Option<i64> = None;
        let mut at: usize = 0;
        while at < self.snapshots.len()
            invariant
                at <= self.snapshots.len(),
                lowest == lowest_deletable_before(*self, after, at as int),
            decreases self.snapshots.len() - at,
        {
            let id: i64 = self.snapshots[at].id;
            let behind: bool = match after {
                Some(after) => id > after,
                None => true,
            };
            let lower: bool = match lowest {
                Some(lowest) => id < lowest,
                None => true,
            };
            if self.is_deletable(id) && behind && lower {
                lowest = Some(id);
            }
            at += 1;
        }
        lowest
    }

    /// The numbers of up to `limit` snapshots that can be deleted.
    pub fn find_deletable(&self, limit: usize) -> (ids: Vec<i64>)
        ensures
            ids@ == deletable_behind(*self, None, limit as nat),
            forall|i: int|
                0 <= i < ids@.len() ==> deletable(*self, #[trigger] ids@[i]),
    {
        let mut ids: Vec<i64> = Vec::new();
        let mut after: Option<i64> = None;
        let mut left: usize = limit;
        assert(ids@ + deletable_behind(*self, None, limit as nat) =~= deletable_behind(
            *self,
            None,
            limit as nat,
        ));
        loop
            invariant
                ids@ + deletable_behind(*self, after, left as nat) == deletable_behind(
                    *self,
                    None,
                    limit as nat,
                ),
                forall|i: int|
                    0 <= i < ids@.len() ==> deletable(*self, #[trigger] ids@[i]),
            ensures
                deletable_behind(*self, after, left as nat) == Seq::<i64>::empty(),
            decreases left,
        {
            if left == 0 {
                break ;
            }
            match self.find_lowest_deletable(after) {
                None => {
                    break ;
                },
                Some(id) => {
                    proof {
                        lemma_lowest(*self, after, self.snapshots@.len() as int);
                        let rest = deletable_behind(*self, Some(id), (left - 1) as nat);
                        assert(ids@ + (seq![id] + rest) =~= ids@.push(id) + rest);
                    }
                    ids.push(id);
                    after = Some(id);
                    left = left - 1;
                },
            }
        }
        assert(ids@ + Seq::<i64>::empty() =~= ids@);
        ids
    }

    /// Reserves the deletion of up to `limit` snapshots, under the
    /// identifiers, one for each.
    pub fn reserve_unpinned_snapshot_deletes_as(
        &mut self,
        lease_owner: [u8; 16],
        now_ns: i64,
        lease_expires_ns: i64,
        limit: usize,
        ids: &Vec<[u8; 16]>,
    ) -> (reserved: Result<Vec<SnapshotDeleteReservation>, ManagerError>)
        requires
            ids@.len() == deletable_behind(*old(self), None, limit as nat).len(),
        ensures
            reserves_deletes(
                *old(self),
                *final(self),
                lease_owner,
                now_ns,
                lease_expires_ns,
                limit as nat,
                ids@,
                reserved,
            ),
            old(self).well_formed() ==> final(self).well_formed(),
    {
        if lease_expires_ns <= now_ns || limit == 0 {
            return Err(
                ManagerError::new("snapshot-delete lease and positive batch limit are required"),
            );
        }
        if limit as u64 > STORED_MAX {
            return Err(ManagerError::new("snapshot-delete batch limit overflow"));
        }
        let snapshots = self.find_deletable(limit);
        let mut reserved: Vec<SnapshotDeleteReservation> = Vec::with_capacity(snapshots.len());
        let mut planned: Vec<DeleteOperation> = Vec::with_capacity(snapshots.len());
        let mut at: usize = 0;
        while at < snapshots.len()
            invariant
                at <= snapshots.len(),
                *self == *old(self),
                now_ns < lease_expires_ns,
                0 < limit <= STORED_MAX,
                ids@.len() == snapshots@.len(),
                snapshots@ == deletable_behind(*self, None, limit as nat),
                forall|i: int|
                    0 <= i < snapshots@.len() ==> deletable(*self, #[trigger] snapshots@[i]),
                forall|i: int|
                    0 <= i < at ==> numbered(
                        self.snapshots@,
                        #[trigger] snapshots@[i],
                    )->0.readonly,
                reserved@.len() == at,
                planned@.len() == at,
                forall|i: int|
                    0 <= i < at ==> {
                        let snapshot = numbered(self.snapshots@, snapshots@[i])->0;
                        reserves_delete(
                            #[trigger] reserved@[i],
                            ids@[i],
                            snapshot,
                            numbered(self.filesystems@, snapshot.filesystem_id)->0,
                        )
                    },
                forall|i: int|
                    0 <= i < at ==> #[trigger] planned@[i] == planned_deletes(
                        *self,
                        snapshots@,
                        ids@,
                        lease_owner,
                        lease_expires_ns,
                        now_ns,
                    )[i],
            decreases snapshots.len() - at,
        {
            assert(deletable(*self, snapshots@[at as int]));
            match find_number(&self.snapshots, snapshots[at]) {
                None => {
                    assert(false);
                },
                Some(row_at) => {
                    let snapshot = &self.snapshots[row_at];
                    if !snapshot.readonly {
                        assert(!numbered(self.snapshots@, snapshots@[at as int])->0.readonly);
                        return Err(
                            ManagerError::new(
                                "Conversion error from type Integer at index: 10, managed snapshot delete candidate is not read-only",
                            ),
                        );
                    }
                    let fs_uuid: [u8; 16] = match find_number(
                        &self.filesystems,
                        snapshot.filesystem_id,
                    ) {
                        Some(filesystem_at) => self.filesystems[filesystem_at].fs_uuid,
                        None => [0;16],
                    };
                    reserved.push(
                        SnapshotDeleteReservation {
                            operation_id: ids[at],
                            snapshot_id: snapshot.id,
                            filesystem_id: snapshot.filesystem_id,
                            operation_fence: 1,
                            identity: SnapshotIdentity {
                                fs_uuid,
                                subvol_uuid: snapshot.subvol_uuid,
                                parent_uuid: snapshot.parent_uuid,
                                received_uuid: snapshot.received_uuid,
                                root_id: snapshot.root_id,
                                ctransid: snapshot.ctransid,
                                otransid: snapshot.otransid,
                                path: copy_bytes(&snapshot.path),
                                readonly: true,
                                created_ns: snapshot.created_ns,
                            },
                        },
                    );
                    planned.push(
                        DeleteOperation {
                            id: ids[at],
                            snapshot_id: snapshots[at],
                            filesystem_id: snapshot.filesystem_id,
                            state: DeleteState::Planned,
                            lease_owner: Some(lease_owner),
                            lease_fence: 1,
                            lease_expires_ns: Some(lease_expires_ns),
                            updated_ns: now_ns,
                        },
                    );
                },
            }
            at += 1;
        }
        if are_ids_taken(&self.delete_operations, ids) {
            return Err(
                ManagerError::new("UNIQUE constraint failed: snapshot_delete_operations.id"),
            );
        }
        let chosen = &snapshots;
        let apply = |snapshot: Snapshot| -> (after: Snapshot)
            ensures
                after == going(chosen@)(snapshot),
            {
                if holds_number(chosen, snapshot.id) {
                    Snapshot { physical_state: PhysicalState::Deleting, ..snapshot }
                } else {
                    snapshot
                }
            };
        assert(planned@ =~= planned_deletes(
            *self,
            snapshots@,
            ids@,
            lease_owner,
            lease_expires_ns,
            now_ns,
        ));
        change(&mut self.snapshots, apply, Ghost(going(snapshots@)));
        self.delete_operations.append(&mut planned);
        Ok(reserved)
    }

    /// Reserves the deletion of up to `limit` snapshots that nothing keeps.
    pub fn reserve_unpinned_snapshot_deletes(
        &mut self,
        lease_owner: [u8; 16],
        now_ns: i64,
        lease_expires_ns: i64,
        limit: usize,
    ) -> (reserved: Result<Vec<SnapshotDeleteReservation>, ManagerError>)
        ensures
            exists|ids: Seq<[u8; 16]>|
                all_drawn(ids) && #[trigger] reserves_deletes(
                    *old(self),
                    *final(self),
                    lease_owner,
                    now_ns,
                    lease_expires_ns,
                    limit as nat,
                    ids,
                    reserved,
                ),
            old(self).well_formed() ==> final(self).well_formed(),
    {
        let number: usize = self.find_deletable(limit).len();
        let mut ids: Vec<[u8; 16]> = Vec::with_capacity(number);
        while ids.len() < number
            invariant
                ids@.len() <= number,
                all_drawn(ids@),
                *self == *old(self),
            decreases number - ids@.len(),
        {
            ids.push(random_id());
        }
        self.reserve_unpinned_snapshot_deletes_as(
            lease_owner,
            now_ns,
            lease_expires_ns,
            limit,
            &ids,
        )
    }

    /// Crosses the boundary behind which the snapshot may be gone.
    pub fn start_snapshot_delete(
        &mut self,
        reservation: &SnapshotDeleteReservation,
        lease_owner: [u8; 16],
        now_ns: i64,
    ) -> (started: Result<(), ManagerError>)
        ensures
            starts_delete(*old(self), *final(self), *reservation, lease_owner, now_ns, started),
            old(self).well_formed() ==> final(self).well_formed(),
    {
        match find_delete_operation(
            &self.delete_operations,
            reservation,
            &lease_owner,
            DeleteState::Planned,
        ) {
            Some(at) => {
                self.delete_operations[at].state = DeleteState::FsStarted;
                self.delete_operations[at].updated_ns = now_ns;
                Ok(())
            },
            None => Err(none_changed("start snapshot delete")),
        }
    }

    /// Records that the snapshot is gone for good.
    pub fn record_snapshot_delete_durable(
        &mut self,
        reservation: &SnapshotDeleteReservation,
        lease_owner: [u8; 16],
        now_ns: i64,
    ) -> (recorded: Result<(), ManagerError>)
        ensures
            records_delete(*old(self), *final(self), *reservation, lease_owner, now_ns, recorded),
            old(self).well_formed() ==> final(self).well_formed(),
    {
        match find_delete_operation(
            &self.delete_operations,
            reservation,
            &lease_owner,
            DeleteState::FsStarted,
        ) {
            Some(at) => {
                self.delete_operations[at].state = DeleteState::DeleteDurable;
                self.delete_operations[at].updated_ns = now_ns;
                Ok(())
            },
            None => Err(none_changed("record snapshot namespace deletion")),
        }
    }

    /// Turns a deleted snapshot into a tombstone.
    pub fn finish_snapshot_delete(
        &mut self,
        reservation: &SnapshotDeleteReservation,
        lease_owner: [u8; 16],
        now_ns: i64,
    ) -> (finished: Result<(), ManagerError>)
        ensures
            finishes_delete(*old(self), *final(self), *reservation, lease_owner, now_ns, finished),
            old(self).well_formed() ==> final(self).well_formed(),
    {
        let snapshot_at: usize = match find_number(&self.snapshots, reservation.snapshot_id) {
            Some(snapshot_at) => snapshot_at,
            None => {
                return Err(none_changed("tombstone deleted snapshot"));
            },
        };
        if self.snapshots[snapshot_at].physical_state != PhysicalState::Deleting || is_pinned(
            &self.pins,
            reservation.snapshot_id,
        ) {
            return Err(none_changed("tombstone deleted snapshot"));
        }
        let at: usize = match find_delete_operation(
            &self.delete_operations,
            reservation,
            &lease_owner,
            DeleteState::DeleteDurable,
        ) {
            Some(at) => at,
            None => {
                return Err(none_changed("finish snapshot delete"));
            },
        };
        self.snapshots[snapshot_at].physical_state = PhysicalState::Deleted;
        self.snapshots[snapshot_at].deleted_ns = Some(now_ns);
        self.delete_operations[at].state = DeleteState::Done;
        self.delete_operations[at].lease_owner = None;
        self.delete_operations[at].lease_expires_ns = None;
        self.delete_operations[at].updated_ns = now_ns;
        Ok(())
    }
}

} // verus!
