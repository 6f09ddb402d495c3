//! Cuts: reserving one, waiting for one, and publishing the snapshot it took.

use crate::digest::{drawn, random_id};
use crate::index::{copy_events, events_view, Event};
use crate::manager::gaps::lemma_cut_pushed;
use crate::manager::pins::{pins_on, unpin};
use crate::manager::publish::cut_at;
use crate::manager::rows::{
    full_text, find_active_grant, grant_active, grant_allows, held, is_allowed, is_held, no_rows,
    none_changed, number_row, Admission, AdmissionState, Comparison, CutState, Filesystem,
    Operation, OperationKind, OperationState, PhysicalState, Pin, PinOwner, PinReason,
    RequestKind, Revision, RevisionState, Snapshot, Store, Watch, WatchCut, WatchState,
};
use crate::manager::table::{
    any, find, find_first, find_number, first, fresh, numbered, place, removing, row, some,
};
use crate::manager::types::{
    fence_after, holds, next_fence, row_count_text, same_identity, CutAdmission, CutRequest,
    CutReservation, ManagerError, PublishedCut, RecordedSnapshot, SnapshotIdentity,
};
use crate::text::{copy_bytes, is_text, same_array, same_bytes};
use vstd::prelude::*;

verus! {

/// What a cut asks of a grant.
pub const CUT_PERMISSIONS: u8 = 0x03;

/// Whether a lease can be claimed: it is free, has run out, or is already the
/// owner's.
pub open spec fn claimable(
    owner: Option<[u8; 16]>,
    expires_ns: Option<i64>,
    claimant: [u8; 16],
    now_ns: i64,
) -> bool {
    ||| owner is None
    ||| expires_ns matches Some(expires) && expires <= now_ns
    ||| owner == Some(claimant)
}

/// Whether a lease can be claimed.
pub fn is_claimable(
    owner: &Option<[u8; 16]>,
    expires_ns: Option<i64>,
    claimant: &[u8; 16],
    now_ns: i64,
) -> (free: bool)
    ensures
        free == claimable(*owner, expires_ns, *claimant, now_ns),
{
    let lapsed: bool = match expires_ns {
        Some(expires) => expires <= now_ns,
        None => false,
    };
    owner.is_none() || lapsed || holds(owner, claimant)
}

/// The largest sequence of the first `n` operations of a watch.
pub open spec fn last_sequence_before(
    operations: Seq<Operation>,
    watch_id: [u8; 16],
    n: int,
) -> Option<i64>
    decreases n,
{
    if n <= 0 {
        None
    } else {
        let earlier = last_sequence_before(operations, watch_id, n - 1);
        let operation = operations[n - 1];
        match operation.sequence {
            Some(sequence) => if operation.watch_id == watch_id && (earlier is None || sequence
                > earlier->0) {
                Some(sequence)
            } else {
                earlier
            },
            None => earlier,
        }
    }
}

/// The largest sequence of a watch's operations.
pub open spec fn last_sequence(operations: Seq<Operation>, watch_id: [u8; 16]) -> Option<i64> {
    last_sequence_before(operations, watch_id, operations.len() as int)
}

fn find_last_sequence(operations: &Vec<Operation>, watch_id: &[u8; 16]) -> (last: Option<i64>)
    ensures
        last == last_sequence(operations@, *watch_id),
{
    let mut last: Option<i64> = None;
    let mut at: usize = 0;
    while at < operations.len()
        invariant
            at <= operations.len(),
            last == last_sequence_before(operations@, *watch_id, at as int),
        decreases operations.len() - at,
    {
        match operations[at].sequence {
            Some(sequence) => {
                let newer: bool = match last {
                    Some(last) => sequence > last,
                    None => true,
                };
                if same_array(&operations[at].watch_id, watch_id) && newer {
                    last = Some(sequence);
                }
            },
            None => {},
        }
        at += 1;
    }
    last
}

/// The sequence behind the newest operation of a watch, or behind its last
/// cut. There is none behind the largest number.
pub open spec fn next_sequence(last: Option<i64>, last_cut_seq: i64) -> Option<i64> {
    let newest = match last {
        Some(last) => last,
        None => last_cut_seq,
    };
    if newest == i64::MAX || newest < last_cut_seq {
        None
    } else {
        Some((newest + 1) as i64)
    }
}

/// Why a cut cannot be reserved.
pub open spec fn reserve_cut_fault(store: Store, request: CutRequest, id: [u8; 16]) -> Option<
    Seq<char>,
> {
    if request.reserved_snapshot_path@.len() == 0 {
        Some("cut snapshot path must not be empty"@)
    } else if request.lease_expires_ns <= request.now_ns {
        Some("cut lease must expire after admission"@)
    } else if !grant_active(store.grants@, request.watch_id, request.authorization_id) {
        Some("cut authorization is absent or revoked"@)
    } else if !grant_allows(
        store.grants@,
        request.watch_id,
        request.authorization_id,
        CUT_PERMISSIONS,
    ) {
        Some("grant lacks READ|CUT"@)
    } else {
        match row(store.watches@, request.watch_id) {
            None => Some("watch is not active"@),
            Some(watch) => if watch.state != WatchState::Active {
                Some("watch is not active"@)
            } else if watch.last_cut_snapshot_id is None {
                Some("Invalid column type Null at index: 2, name: last_cut_snapshot_id"@)
            } else if watch.last_cut_seq is None {
                Some("Invalid column type Null at index: 3, name: last_cut_seq"@)
            } else if !claimable(
                watch.cut_owner,
                watch.cut_expires_ns,
                request.lease_owner,
                request.now_ns,
            ) {
                Some(row_count_text("claim watch cut lease"@, 0))
            } else if next_sequence(
                last_sequence(store.operations@, request.watch_id),
                watch.last_cut_seq->0,
            ) is None {
                Some("cut sequence did not advance"@)
            } else if row(store.operations@, id) is Some {
                Some("UNIQUE constraint failed: operations.id"@)
            } else {
                None
            },
        }
    }
}

/// Whether the row is the planned operation of a requested cut.
pub open spec fn planned_cut(
    operation: Operation,
    request: CutRequest,
    id: [u8; 16],
    watch: Watch,
    sequence: i64,
) -> bool {
    &&& operation.reserved_path@ == request.reserved_snapshot_path@
    &&& operation == Operation {
        id,
        kind: OperationKind::Cut,
        state: OperationState::Planned,
        filesystem_id: watch.filesystem_id,
        watch_id: request.watch_id,
        sequence: Some(sequence),
        source_subvol_uuid: watch.live_subvol_uuid,
        base_snapshot_id: watch.last_cut_snapshot_id,
        expected_parent_uuid: watch.live_subvol_uuid,
        requested_readonly: true,
        requester_uid: request.requester_uid,
        requester_gid: request.requester_gid,
        authorization_id: request.authorization_id,
        reserved_path: operation.reserved_path,
        destination: None,
        discovered_uuid: None,
        guard: None,
        error: None,
        lease_owner: Some(request.lease_owner),
        lease_fence: 1,
        lease_expires_ns: Some(request.lease_expires_ns),
        updated_ns: request.now_ns,
    }
}

/// What reserving a cut does under the identifier.
pub open spec fn reserves_cut(
    before: Store,
    after: Store,
    request: CutRequest,
    id: [u8; 16],
    reserved: Result<CutReservation, ManagerError>,
) -> bool {
    match reserve_cut_fault(before, request, id) {
        Some(fault) => {
            &&& after == before
            &&& reserved matches Err(error)
            &&& error@ == fault
        },
        None => {
            let at = place(before.watches@, request.watch_id)->0;
            let watch = before.watches@[at];
            let base = watch.last_cut_snapshot_id->0;
            let sequence = next_sequence(
                last_sequence(before.operations@, request.watch_id),
                watch.last_cut_seq->0,
            )->0;
            &&& after == (Store {
                watches: after.watches,
                operations: after.operations,
                pins: after.pins,
                ..before
            })
            &&& after.watches@ == before.watches@.update(
                at,
                Watch {
                    cut_owner: Some(request.lease_owner),
                    cut_fence: fence_after(watch.cut_fence),
                    cut_expires_ns: Some(request.lease_expires_ns),
                    ..watch
                },
            )
            &&& after.operations@ == before.operations@.push(after.operations@.last())
            &&& planned_cut(after.operations@.last(), request, id, watch, sequence)
            &&& after.pins@ == before.pins@.push(
                Pin {
                    snapshot_id: base,
                    owner: PinOwner::Operation(id),
                    reason: PinReason::CutBase,
                },
            )
            &&& reserved == Ok::<CutReservation, ManagerError>(
                CutReservation {
                    filesystem_id: watch.filesystem_id,
                    watch_id: request.watch_id,
                    authorization_id: request.authorization_id,
                    operation_id: id,
                    sequence,
                    base_snapshot_id: base,
                    source_subvol_uuid: watch.live_subvol_uuid,
                    operation_fence: 1,
                    cut_fence: fence_after(watch.cut_fence),
                },
            )
        },
    }
}

/// The operation of a reserved cut, in the state, while it is held.
pub open spec fn cut_operation(
    operations: Seq<Operation>,
    reservation: CutReservation,
    lease_owner: [u8; 16],
    state: OperationState,
) -> bool {
    match row(operations, reservation.operation_id) {
        Some(operation) => operation.watch_id == reservation.watch_id && operation.sequence == Some(
            reservation.sequence,
        ) && operation.state == state && held(operation, lease_owner, reservation.operation_fence),
        None => false,
    }
}

/// Finds the operation of a reserved cut, in the state, while it is held.
pub fn find_cut_operation(
    operations: &Vec<Operation>,
    reservation: &CutReservation,
    lease_owner: &[u8; 16],
    state: OperationState,
) -> (at: Option<usize>)
    ensures
        match at {
            Some(at) => cut_operation(operations@, *reservation, *lease_owner, state) && at
                < operations@.len() && place(operations@, reservation.operation_id) == Some(
                at as int,
            ) && row(operations@, reservation.operation_id) == Some(operations@[at as int]),
            None => !cut_operation(operations@, *reservation, *lease_owner, state),
        },
{
    match find(operations, &reservation.operation_id) {
        Some(at) => {
            let operation = &operations[at];
            if same_array(&operation.watch_id, &reservation.watch_id) && operation.sequence
                == Some(reservation.sequence) && operation.state == state && is_held(
                operation,
                lease_owner,
                reservation.operation_fence,
            ) {
                Some(at)
            } else {
                None
            }
        },
        None => None,
    }
}

/// The identifier of a filesystem.
pub open spec fn filesystem_uuid(filesystems: Seq<Filesystem>, id: i64) -> Result<
    [u8; 16],
    Seq<char>,
> {
    match numbered(filesystems, id) {
        Some(filesystem) => Ok(filesystem.fs_uuid),
        None => Err(no_rows()),
    }
}

/// The identifier of a filesystem.
pub fn load_filesystem_uuid(filesystems: &Vec<Filesystem>, id: i64) -> (uuid: Result<
    [u8; 16],
    ManagerError,
>)
    ensures
        match uuid {
            Ok(uuid) => filesystem_uuid(filesystems@, id) == Ok::<[u8; 16], Seq<char>>(uuid),
            Err(error) => filesystem_uuid(filesystems@, id) == Err::<[u8; 16], Seq<char>>(error@),
        },
{
    match find_number(filesystems, id) {
        Some(at) => Ok(filesystems[at].fs_uuid),
        None => Err(ManagerError::new("Query returned no rows")),
    }
}

/// Whether the row is the present snapshot with the identity.
pub open spec fn present_snapshot(
    snapshot: Snapshot,
    id: i64,
    filesystem_id: i64,
    identity: SnapshotIdentity,
) -> bool {
    &&& snapshot.path@ == identity.path@
    &&& snapshot == Snapshot {
        id,
        filesystem_id,
        subvol_uuid: identity.subvol_uuid,
        parent_uuid: identity.parent_uuid,
        received_uuid: identity.received_uuid,
        root_id: identity.root_id,
        ctransid: identity.ctransid,
        otransid: identity.otransid,
        path: snapshot.path,
        readonly: true,
        physical_state: PhysicalState::Present,
        created_ns: identity.created_ns,
        deleted_ns: None,
    }
}

/// The row of a present snapshot.
pub fn snapshot_row(id: i64, filesystem_id: i64, identity: &SnapshotIdentity) -> (snapshot:
    Snapshot)
    ensures
        present_snapshot(snapshot, id, filesystem_id, *identity),
{
    Snapshot {
        id,
        filesystem_id,
        subvol_uuid: identity.subvol_uuid,
        parent_uuid: identity.parent_uuid,
        received_uuid: identity.received_uuid,
        root_id: identity.root_id,
        ctransid: identity.ctransid,
        otransid: identity.otransid,
        path: copy_bytes(&identity.path),
        readonly: true,
        physical_state: PhysicalState::Present,
        created_ns: identity.created_ns,
        deleted_ns: None,
    }
}

/// Why the snapshot of a cut cannot be recorded.
pub open spec fn record_cut_fault(
    store: Store,
    reservation: CutReservation,
    lease_owner: [u8; 16],
    snapshot: SnapshotIdentity,
) -> Option<Seq<char>> {
    let mismatch = "cut snapshot identity does not match the source intent"@;
    if !snapshot.readonly {
        Some(mismatch)
    } else {
        match filesystem_uuid(store.filesystems@, reservation.filesystem_id) {
            Err(fault) => Some(fault),
            Ok(uuid) => if snapshot.fs_uuid != uuid || snapshot.parent_uuid != Some(
                reservation.source_subvol_uuid,
            ) {
                Some(mismatch)
            } else if !cut_operation(
                store.operations@,
                reservation,
                lease_owner,
                OperationState::FsStarted,
            ) || row(store.operations@, reservation.operation_id)->0.reserved_path@
                != snapshot.path@ {
                Some("cut snapshot path or operation fence does not match"@)
            } else if fresh(store.snapshots@) is None {
                Some(full_text())
            } else {
                None
            },
        }
    }
}

/// The present, read-only snapshot with the number and the identity.
pub open spec fn snapshot_stands(
    snapshots: Seq<Snapshot>,
    id: i64,
    filesystem_id: i64,
    subvol_uuid: [u8; 16],
) -> bool {
    match numbered(snapshots, id) {
        Some(snapshot) => snapshot.filesystem_id == filesystem_id && snapshot.subvol_uuid
            == subvol_uuid && snapshot.physical_state == PhysicalState::Present
            && snapshot.readonly,
        None => false,
    }
}

/// Whether the present, read-only snapshot with the number has the identity.
pub fn does_snapshot_stand(
    snapshots: &Vec<Snapshot>,
    id: i64,
    filesystem_id: i64,
    subvol_uuid: &[u8; 16],
) -> (stands: bool)
    ensures
        stands == snapshot_stands(snapshots@, id, filesystem_id, *subvol_uuid),
{
    match find_number(snapshots, id) {
        Some(at) => snapshots[at].filesystem_id == filesystem_id && same_array(
            &snapshots[at].subvol_uuid,
            subvol_uuid,
        ) && snapshots[at].physical_state == PhysicalState::Present && snapshots[at].readonly,
        None => false,
    }
}

/// Whether a recorded cut is still this manager's to publish.
pub open spec fn cut_recorded(
    store: Store,
    reservation: CutReservation,
    lease_owner: [u8; 16],
    snapshot_id: i64,
    snapshot_uuid: [u8; 16],
) -> bool {
    let operation = row(store.operations@, reservation.operation_id)->0;
    &&& cut_operation(
        store.operations@,
        reservation,
        lease_owner,
        OperationState::UuidRecorded,
    )
    &&& operation.discovered_uuid == Some(snapshot_uuid)
    &&& snapshot_stands(
        store.snapshots@,
        snapshot_id,
        operation.filesystem_id,
        snapshot_uuid,
    )
    &&& row(store.watches@, reservation.watch_id) matches Some(watch)
    &&& watch.cut_owner == Some(lease_owner)
    &&& watch.cut_fence == reservation.cut_fence
}

/// Why the snapshot of a cut cannot become the physical head.
pub open spec fn publish_cut_fault(
    store: Store,
    reservation: CutReservation,
    lease_owner: [u8; 16],
    snapshot_id: i64,
    snapshot_uuid: [u8; 16],
) -> Option<Seq<char>> {
    if !cut_recorded(store, reservation, lease_owner, snapshot_id, snapshot_uuid) {
        Some("physical cut publication fence or identity is stale"@)
    } else if some(store.cuts@, cut_at(reservation.watch_id, reservation.sequence)) {
        Some("UNIQUE constraint failed: watch_cuts.watch_id, watch_cuts.sequence"@)
    } else {
        let watch = row(store.watches@, reservation.watch_id)->0;
        if watch.state == WatchState::Active && watch.last_cut_snapshot_id == Some(
            reservation.base_snapshot_id,
        ) && (watch.last_cut_seq matches Some(last) && last + 1 == reservation.sequence) {
            None
        } else {
            Some(row_count_text("advance physical cut head"@, 0))
        }
    }
}

/// The kind of request that is named.
pub open spec fn request_named(name: Seq<char>) -> Option<RequestKind> {
    if name == "clock"@ {
        Some(RequestKind::Clock)
    } else if name == "query"@ {
        Some(RequestKind::Query)
    } else if name == "trigger"@ {
        Some(RequestKind::Trigger)
    } else {
        None
    }
}

fn parse_request(name: &str) -> (kind: Option<RequestKind>)
    ensures
        kind == request_named(name@),
{
    if is_text(name, "clock") {
        Some(RequestKind::Clock)
    } else if is_text(name, "query") {
        Some(RequestKind::Query)
    } else if is_text(name, "trigger") {
        Some(RequestKind::Trigger)
    } else {
        None
    }
}

/// Whether the operation is a planned cut of the watch.
pub open spec fn is_planned_cut(operation: Operation, watch_id: [u8; 16]) -> bool {
    &&& operation.watch_id == watch_id
    &&& operation.kind == OperationKind::Cut
    &&& operation.state == OperationState::Planned
    &&& operation.sequence is Some
    &&& operation.base_snapshot_id is Some
}

/// The planned cut of a watch with the smallest sequence among the first `n`
/// operations.
pub open spec fn earliest_planned_before(
    operations: Seq<Operation>,
    watch_id: [u8; 16],
    n: int,
) -> Option<int>
    decreases n,
{
    if n <= 0 {
        None
    } else {
        let earlier = earliest_planned_before(operations, watch_id, n - 1);
        if is_planned_cut(operations[n - 1], watch_id) && (earlier is None
            || operations[n - 1].sequence->0 < operations[earlier->0].sequence->0) {
            Some(n - 1)
        } else {
            earlier
        }
    }
}

/// The planned cut of a watch with the smallest sequence.
pub open spec fn earliest_planned(operations: Seq<Operation>, watch_id: [u8; 16]) -> Option<int> {
    earliest_planned_before(operations, watch_id, operations.len() as int)
}

fn find_earliest_planned(operations: &Vec<Operation>, watch_id: &[u8; 16]) -> (at: Option<usize>)
    ensures
        match at {
            Some(at) => earliest_planned(operations@, *watch_id) == Some(at as int) && at
                < operations@.len() && is_planned_cut(operations@[at as int], *watch_id),
            None => earliest_planned(operations@, *watch_id) is None,
        },
{
    let mut found: Option<usize> = None;
    let mut at: usize = 0;
    while at < operations.len()
        invariant
            at <= operations.len(),
            match found {
                Some(found) => earliest_planned_before(operations@, *watch_id, at as int) == Some(
                    found as int,
                ) && found < at && is_planned_cut(operations@[found as int], *watch_id),
                None => earliest_planned_before(operations@, *watch_id, at as int) is None,
            },
        decreases operations.len() - at,
    {
        let operation = &operations[at];
        if same_array(&operation.watch_id, watch_id) && operation.kind == OperationKind::Cut
            && operation.state == OperationState::Planned && operation.base_snapshot_id.is_some() {
            match operation.sequence {
                Some(sequence) => {
                    let earlier: bool = match found {
                        Some(found) => match operations[found].sequence {
                            Some(other) => sequence < other,
                            None => false,
                        },
                        None => true,
                    };
                    if earlier {
                        found = Some(at);
                    }
                },
                None => {},
            }
        }
        at += 1;
    }
    found
}

/// Why a caller cannot wait for a cut.
pub open spec fn admit_fault(
    store: Store,
    watch_id: [u8; 16],
    authorization_id: [u8; 16],
    request_kind: Seq<char>,
    now_ns: i64,
    expires_ns: i64,
) -> Option<Seq<char>> {
    if request_named(request_kind) is None || expires_ns <= now_ns {
        Some("invalid cut admission"@)
    } else if !grant_allows(store.grants@, watch_id, authorization_id, CUT_PERMISSIONS) {
        Some("cut admission authorization is stale"@)
    } else {
        None
    }
}

/// The cut that a caller may wait for.
pub open spec fn joinable(store: Store, watch_id: [u8; 16]) -> Option<int> {
    if row(store.watches@, watch_id) is Some {
        earliest_planned(store.operations@, watch_id)
    } else {
        None
    }
}

/// What joining a planned cut under the identifier does.
pub open spec fn admits_cut(
    before: Store,
    after: Store,
    watch_id: [u8; 16],
    authorization_id: [u8; 16],
    requester_session_id: [u8; 16],
    request_kind: Seq<char>,
    now_ns: i64,
    expires_ns: i64,
    id: [u8; 16],
    admitted: Result<Option<CutAdmission>, ManagerError>,
) -> bool {
    match admit_fault(before, watch_id, authorization_id, request_kind, now_ns, expires_ns) {
        Some(fault) => {
            &&& after == before
            &&& admitted matches Err(error)
            &&& error@ == fault
        },
        None => match joinable(before, watch_id) {
            None => after == before && admitted == Ok::<Option<CutAdmission>, ManagerError>(None),
            Some(at) => if row(before.admissions@, id) is Some {
                &&& after == before
                &&& admitted matches Err(error)
                &&& error@ == "UNIQUE constraint failed: cut_admissions.id"@
            } else {
                let operation = before.operations@[at];
                &&& after == (Store { admissions: after.admissions, ..before })
                &&& after.admissions@ == before.admissions@.push(
                    Admission {
                        id,
                        operation_id: operation.id,
                        watch_id,
                        authorization_id,
                        requester_session_id,
                        request_kind: request_named(request_kind)->0,
                        state: AdmissionState::Waiting,
                        admitted_ns: now_ns,
                        expires_ns,
                    },
                )
                &&& admitted == Ok::<Option<CutAdmission>, ManagerError>(
                    Some(
                        CutAdmission {
                            id,
                            reservation: CutReservation {
                                filesystem_id: operation.filesystem_id,
                                watch_id,
                                authorization_id: operation.authorization_id,
                                operation_id: operation.id,
                                sequence: operation.sequence->0,
                                base_snapshot_id: operation.base_snapshot_id->0,
                                source_subvol_uuid: operation.source_subvol_uuid,
                                operation_fence: operation.lease_fence,
                                cut_fence: row(before.watches@, watch_id)->0.cut_fence,
                            },
                            requester_session_id,
                        },
                    ),
                )
            },
        },
    }
}

/// The ready revision of a snapshot that a comparison led to.
pub open spec fn revision_from(snapshot_id: i64, comparison_id: i64) -> spec_fn(Revision) -> bool {
    |revision: Revision|
        revision.snapshot_id == snapshot_id && revision.provenance_comparison_id == Some(
            comparison_id,
        ) && revision.state == RevisionState::Ready
}

/// The ready cut of an operation whose revision is ready.
pub open spec fn ready_cut(operation_id: [u8; 16], revisions: Seq<Revision>) -> spec_fn(
    WatchCut,
) -> bool {
    |cut: WatchCut|
        {
            &&& cut.operation_id == operation_id
            &&& cut.state == CutState::Ready
            &&& cut.comparison_id matches Some(comparison_id)
            &&& some(revisions, revision_from(cut.target_snapshot_id, comparison_id))
        }
}

fn find_revision_from(revisions: &Vec<Revision>, snapshot_id: i64, comparison_id: i64) -> (at:
    Option<usize>)
    ensures
        match at {
            Some(at) => first(revisions@, revision_from(snapshot_id, comparison_id)) == Some(
                at as int,
            ) && at < revisions@.len() && some(
                revisions@,
                revision_from(snapshot_id, comparison_id),
            ),
            None => !some(revisions@, revision_from(snapshot_id, comparison_id)),
        },
{
    let test = |revision: &Revision| -> (picked: bool)
        ensures
            picked == revision_from(snapshot_id, comparison_id)(*revision),
        {
            revision.snapshot_id == snapshot_id && revision.provenance_comparison_id == Some(
                comparison_id,
            ) && revision.state == RevisionState::Ready
        };
    find_first(revisions, test, Ghost(revision_from(snapshot_id, comparison_id)))
}

/// The events of a comparison.
pub open spec fn events_of(comparisons: Seq<Comparison>, id: i64) -> Seq<Event> {
    match numbered(comparisons, id) {
        Some(comparison) => comparison.events@,
        None => Seq::empty(),
    }
}

/// The events of a comparison.
pub fn load_comparison_events(comparisons: &Vec<Comparison>, id: i64) -> (events: Vec<Event>)
    ensures
        events_view(events@) == events_view(events_of(comparisons@, id)),
{
    match find_number(comparisons, id) {
        Some(at) => copy_events(&comparisons[at].events),
        None => Vec::new(),
    }
}

/// Whether the result is that of the operation's ready cut.
pub open spec fn loads_cut(
    store: Store,
    operation_id: [u8; 16],
    loaded: Result<PublishedCut, ManagerError>,
) -> bool {
    match first(store.cuts@, ready_cut(operation_id, store.revisions@)) {
        None => {
            &&& loaded matches Err(error)
            &&& error@ == "fulfilled cut is not a ready indexed result"@
        },
        Some(at) => {
            let cut = store.cuts@[at];
            let comparison_id = cut.comparison_id->0;
            let revision = store.revisions@[first(
                store.revisions@,
                revision_from(cut.target_snapshot_id, comparison_id),
            )->0];
            &&& loaded matches Ok(loaded)
            &&& loaded.watch_id == cut.watch_id
            &&& loaded.sequence == cut.sequence
            &&& loaded.snapshot_id == cut.target_snapshot_id
            &&& loaded.revision_id == revision.id
            &&& loaded.comparison_id == comparison_id
            &&& events_view(loaded.events@) == events_view(
                events_of(store.comparisons@, comparison_id),
            )
        },
    }
}

/// Where an awaited cut stands.
pub open spec fn poll_fault(store: Store, admission: CutAdmission, now_ns: i64) -> Option<
    Seq<char>,
> {
    match row(store.admissions@, admission.id) {
        Some(waiting) => if waiting.operation_id != admission.reservation.operation_id
            || waiting.watch_id != admission.reservation.watch_id {
            Some("cut admission disappeared"@)
        } else if waiting.requester_session_id != admission.requester_session_id {
            Some("cut admission session is stale"@)
        } else if waiting.state == AdmissionState::Abandoned || waiting.expires_ns <= now_ns {
            Some("cut admission expired or was abandoned"@)
        } else {
            None
        },
        None => Some("cut admission disappeared"@),
    }
}

/// Whether the row is the caller's waiting admission.
pub open spec fn awaits(waiting: Admission, admission: CutAdmission) -> bool {
    &&& waiting.operation_id == admission.reservation.operation_id
    &&& waiting.watch_id == admission.reservation.watch_id
    &&& waiting.requester_session_id == admission.requester_session_id
    &&& waiting.state == AdmissionState::Waiting
}

/// What [`Store::start_cut_filesystem_effect`] does.
pub open spec fn starts_cut(
    before: Store,
    after: Store,
    reservation: CutReservation,
    lease_owner: [u8; 16],
    now_ns: i64,
    started: Result<(), ManagerError>,
) -> bool {
    match started {
        Ok(_) => {
            let at = place(before.operations@, reservation.operation_id)->0;
            &&& cut_operation(
                before.operations@,
                reservation,
                lease_owner,
                OperationState::Planned,
            )
            &&& after == (Store {
                operations: after.operations,
                ..before
            })
            &&& after.operations@ =~= before.operations@.update(
                at,
                Operation {
                    state: OperationState::FsStarted,
                    updated_ns: now_ns,
                    ..before.operations@[at]
                },
            )
        },
        Err(error) => !cut_operation(
            before.operations@,
            reservation,
            lease_owner,
            OperationState::Planned,
        ) && error@ == row_count_text("start cut filesystem effect"@, 0) && after
            == before,
    }
}

/// What [`Store::record_cut_snapshot`] does.
pub open spec fn records_cut(
    before: Store,
    after: Store,
    reservation: CutReservation,
    lease_owner: [u8; 16],
    snapshot: SnapshotIdentity,
    now_ns: i64,
    recorded: Result<RecordedSnapshot, ManagerError>,
) -> bool {
    match record_cut_fault(before, reservation, lease_owner, snapshot) {
        Some(fault) => {
            &&& after == before
            &&& recorded matches Err(error)
            &&& error@ == fault
        },
        None => {
            let at = place(before.operations@, reservation.operation_id)->0;
            let id = fresh(before.snapshots@)->0;
            &&& after == (Store {
                snapshots: after.snapshots,
                pins: after.pins,
                operations: after.operations,
                ..before
            })
            &&& after.snapshots@ =~= before.snapshots@.push(
                after.snapshots@.last(),
            )
            &&& present_snapshot(
                after.snapshots@.last(),
                id,
                reservation.filesystem_id,
                snapshot,
            )
            &&& after.pins@ =~= before.pins@.push(
                Pin {
                    snapshot_id: id,
                    owner: PinOwner::Operation(reservation.operation_id),
                    reason: PinReason::CutTarget,
                },
            )
            &&& after.operations@ =~= before.operations@.update(
                at,
                Operation {
                    state: OperationState::UuidRecorded,
                    discovered_uuid: Some(snapshot.subvol_uuid),
                    updated_ns: now_ns,
                    ..before.operations@[at]
                },
            )
            &&& recorded matches Ok(recorded)
            &&& recorded.snapshot_id == id
            &&& same_identity(recorded.identity, snapshot)
        },
    }
}

/// What [`Store::publish_validated_physical_cut`] does.
pub open spec fn publishes_cut(
    before: Store,
    after: Store,
    reservation: CutReservation,
    lease_owner: [u8; 16],
    snapshot: RecordedSnapshot,
    now_ns: i64,
    published: Result<(), ManagerError>,
) -> bool {
    match publish_cut_fault(
        before,
        reservation,
        lease_owner,
        snapshot.snapshot_id,
        snapshot.identity.subvol_uuid,
    ) {
        Some(fault) => {
            &&& after == before
            &&& published matches Err(error)
            &&& error@ == fault
        },
        None => {
            let watch_at = place(before.watches@, reservation.watch_id)->0;
            let at = place(before.operations@, reservation.operation_id)->0;
            &&& published is Ok
            &&& after == (Store {
                cuts: after.cuts,
                pins: after.pins,
                watches: after.watches,
                operations: after.operations,
                ..before
            })
            &&& after.cuts@ =~= before.cuts@.push(
                WatchCut {
                    watch_id: reservation.watch_id,
                    sequence: reservation.sequence,
                    operation_id: reservation.operation_id,
                    base_snapshot_id: reservation.base_snapshot_id,
                    target_snapshot_id: snapshot.snapshot_id,
                    comparison_id: None,
                    comparison_from_snapshot_id: None,
                    state: CutState::Created,
                    fresh_instance: false,
                },
            )
            &&& after.watches@ =~= before.watches@.update(
                watch_at,
                Watch {
                    last_cut_snapshot_id: Some(snapshot.snapshot_id),
                    last_cut_seq: Some(reservation.sequence),
                    cut_owner: None,
                    cut_expires_ns: None,
                    ..before.watches@[watch_at]
                },
            )
            &&& after.pins@ =~= removing(
                before.pins@.push(
                    Pin {
                        snapshot_id: snapshot.snapshot_id,
                        owner: PinOwner::WatchLastCut(reservation.watch_id),
                        reason: PinReason::PhysicalHead,
                    },
                ),
                pins_on(
                    reservation.base_snapshot_id,
                    PinOwner::WatchLastCut(reservation.watch_id),
                ),
            )
            &&& after.operations@ =~= before.operations@.update(
                at,
                Operation {
                    state: OperationState::ManifestReady,
                    updated_ns: now_ns,
                    ..before.operations@[at]
                },
            )
        },
    }
}

/// What [`Store::poll_cut_admission`] does.
pub open spec fn polls_admission(
    store: Store,
    admission: CutAdmission,
    now_ns: i64,
    polled: Result<Option<PublishedCut>, ManagerError>,
) -> bool {
    match poll_fault(store, admission, now_ns) {
        Some(fault) => {
            &&& polled matches Err(error)
            &&& error@ == fault
        },
        None => if row(store.admissions@, admission.id)->0.state == AdmissionState::Waiting {
            polled == Ok::<Option<PublishedCut>, ManagerError>(None)
        } else {
            match polled {
                Ok(cut) => cut is Some && loads_cut(
                    store,
                    admission.reservation.operation_id,
                    Ok(cut->0),
                ),
                Err(error) => loads_cut(
                    store,
                    admission.reservation.operation_id,
                    Err(error),
                ),
            }
        },
    }
}

/// What [`Store::abandon_cut_admission`] does.
pub open spec fn abandons_admission(
    before: Store,
    after: Store,
    admission: CutAdmission,
    abandoned: Result<(), ManagerError>,
) -> bool {
    match abandoned {
        Ok(_) => {
            let at = place(before.admissions@, admission.id)->0;
            &&& row(before.admissions@, admission.id) matches Some(waiting)
            &&& awaits(waiting, admission)
            &&& after == (Store {
                admissions: after.admissions,
                ..before
            })
            &&& after.admissions@ =~= before.admissions@.update(
                at,
                Admission { state: AdmissionState::Abandoned, ..waiting },
            )
        },
        Err(error) => {
            &&& (row(before.admissions@, admission.id) matches Some(waiting) ==> !awaits(
                waiting,
                admission,
            ))
            &&& error@ == row_count_text("abandon cut admission"@, 0)
            &&& after == before
        },
    }
}

impl Store {
    /// Reserves the next cut of a watch under the identifier.
    pub fn reserve_cut_as(&mut self, request: &CutRequest, operation_id: [u8; 16]) -> (reserved:
        Result<CutReservation, ManagerError>)
        ensures
            reserves_cut(*old(self), *final(self), *request, operation_id, reserved),
            old(self).well_formed() ==> final(self).well_formed(),
    {
        if request.reserved_snapshot_path.len() == 0 {
            return Err(ManagerError::new("cut snapshot path must not be empty"));
        }
        if request.lease_expires_ns <= request.now_ns {
            return Err(ManagerError::new("cut lease must expire after admission"));
        }
        if find_active_grant(
            &self.grants,
            &request.watch_id,
            &request.authorization_id,
        ).is_none() {
            return Err(ManagerError::new("cut authorization is absent or revoked"));
        }
        if !is_allowed(
            &self.grants,
            &request.watch_id,
            &request.authorization_id,
            CUT_PERMISSIONS,
        ) {
            return Err(ManagerError::new("grant lacks READ|CUT"));
        }
        let at: usize = match find(&self.watches, &request.watch_id) {
            Some(at) => at,
            None => {
                return Err(ManagerError::new("watch is not active"));
            },
        };
        if self.watches[at].state != WatchState::Active {
            return Err(ManagerError::new("watch is not active"));
        }
        let base: i64 = match self.watches[at].last_cut_snapshot_id {
            Some(base) => base,
            None => {
                return Err(
                    ManagerError::new(
                        "Invalid column type Null at index: 2, name: last_cut_snapshot_id",
                    ),
                );
            },
        };
        let last_cut_seq: i64 = match self.watches[at].last_cut_seq {
            Some(sequence) => sequence,
            None => {
                return Err(
                    ManagerError::new("Invalid column type Null at index: 3, name: last_cut_seq"),
                );
            },
        };
        if !is_claimable(
            &self.watches[at].cut_owner,
            self.watches[at].cut_expires_ns,
            &request.lease_owner,
            request.now_ns,
        ) {
            return Err(none_changed("claim watch cut lease"));
        }
        let newest: i64 = match find_last_sequence(&self.operations, &request.watch_id) {
            Some(sequence) => sequence,
            None => last_cut_seq,
        };
        if newest == i64::MAX || newest < last_cut_seq {
            return Err(ManagerError::new("cut sequence did not advance"));
        }
        let sequence: i64 = newest + 1;
        if find(&self.operations, &operation_id).is_some() {
            return Err(ManagerError::new("UNIQUE constraint failed: operations.id"));
        }
        let cut_fence: i64 = next_fence(self.watches[at].cut_fence);
        let filesystem_id: i64 = self.watches[at].filesystem_id;
        let source_subvol_uuid: [u8; 16] = self.watches[at].live_subvol_uuid;
        self.watches[at].cut_owner = Some(request.lease_owner);
        self.watches[at].cut_fence = cut_fence;
        self.watches[at].cut_expires_ns = Some(request.lease_expires_ns);
        self.operations.push(
            Operation {
                id: operation_id,
                kind: OperationKind::Cut,
                state: OperationState::Planned,
                filesystem_id,
                watch_id: request.watch_id,
                sequence: Some(sequence),
                source_subvol_uuid,
                base_snapshot_id: Some(base),
                expected_parent_uuid: source_subvol_uuid,
                requested_readonly: true,
                requester_uid: request.requester_uid,
                requester_gid: request.requester_gid,
                authorization_id: request.authorization_id,
                reserved_path: copy_bytes(&request.reserved_snapshot_path),
                destination: None,
                discovered_uuid: None,
                guard: None,
                error: None,
                lease_owner: Some(request.lease_owner),
                lease_fence: 1,
                lease_expires_ns: Some(request.lease_expires_ns),
                updated_ns: request.now_ns,
            },
        );
        self.pins.push(
            Pin {
                snapshot_id: base,
                owner: PinOwner::Operation(operation_id),
                reason: PinReason::CutBase,
            },
        );
        proof {
            let watch = old(self).watches@[at as int];
            assert(self.watches@ =~= old(self).watches@.update(
                at as int,
                Watch {
                    cut_owner: Some(request.lease_owner),
                    cut_fence: fence_after(watch.cut_fence),
                    cut_expires_ns: Some(request.lease_expires_ns),
                    ..watch
                },
            ));
            assert(self.operations@ =~= old(self).operations@.push(self.operations@.last()));
            assert(planned_cut(
                self.operations@.last(),
                *request,
                operation_id,
                watch,
                sequence,
            ));
        }
        Ok(
            CutReservation {
                filesystem_id,
                watch_id: request.watch_id,
                authorization_id: request.authorization_id,
                operation_id,
                sequence,
                base_snapshot_id: base,
                source_subvol_uuid,
                operation_fence: 1,
                cut_fence,
            },
        )
    }

    /// Reserves the next cut of a watch under an identifier of its own.
    pub fn reserve_cut(&mut self, request: &CutRequest) -> (reserved: Result<
        CutReservation,
        ManagerError,
    >)
        ensures
            exists|id: [u8; 16]|
                drawn(id) && #[trigger] reserves_cut(
                    *old(self),
                    *final(self),
                    *request,
                    id,
                    reserved,
                ),
            old(self).well_formed() ==> final(self).well_formed(),
    {
        let id: [u8; 16] = random_id();
        self.reserve_cut_as(request, id)
    }

    /// Crosses the boundary behind which the filesystem may have been changed.
    pub fn start_cut_filesystem_effect(
        &mut self,
        reservation: &CutReservation,
        lease_owner: [u8; 16],
        now_ns: i64,
    ) -> (started: Result<(), ManagerError>)
        ensures
            starts_cut(*old(self), *final(self), *reservation, lease_owner, now_ns, started),
            old(self).well_formed() ==> final(self).well_formed(),
    {
        match find_cut_operation(
            &self.operations,
            reservation,
            &lease_owner,
            OperationState::Planned,
        ) {
            Some(at) => {
                self.operations[at].state = OperationState::FsStarted;
                self.operations[at].updated_ns = now_ns;
                Ok(())
            },
            None => Err(none_changed("start cut filesystem effect")),
        }
    }

    /// Records the snapshot that a cut took.
    pub fn record_cut_snapshot(
        &mut self,
        reservation: &CutReservation,
        lease_owner: [u8; 16],
        snapshot: &SnapshotIdentity,
        now_ns: i64,
    ) -> (recorded: Result<RecordedSnapshot, ManagerError>)
        ensures
            records_cut(
                *old(self),
                *final(self),
                *reservation,
                lease_owner,
                *snapshot,
                now_ns,
                recorded,
            ),
            old(self).well_formed() ==> final(self).well_formed(),
    {
        if !snapshot.readonly {
            return Err(
                ManagerError::new("cut snapshot identity does not match the source intent"),
            );
        }
        let uuid = match load_filesystem_uuid(&self.filesystems, reservation.filesystem_id) {
            Ok(uuid) => uuid,
            Err(error) => {
                return Err(error);
            },
        };
        if !same_array(&snapshot.fs_uuid, &uuid) || !holds(
            &snapshot.parent_uuid,
            &reservation.source_subvol_uuid,
        ) {
            return Err(
                ManagerError::new("cut snapshot identity does not match the source intent"),
            );
        }
        let at: usize = match find_cut_operation(
            &self.operations,
            reservation,
            &lease_owner,
            OperationState::FsStarted,
        ) {
            Some(at) => at,
            None => {
                return Err(
                    ManagerError::new("cut snapshot path or operation fence does not match"),
                );
            },
        };
        if !same_bytes(&self.operations[at].reserved_path, &snapshot.path) {
            return Err(ManagerError::new("cut snapshot path or operation fence does not match"));
        }
        let snapshot_id: i64 = match number_row(&self.snapshots) {
            Ok(id) => id,
            Err(error) => {
                return Err(error);
            },
        };
        self.snapshots.push(snapshot_row(snapshot_id, reservation.filesystem_id, snapshot));
        self.pins.push(
            Pin {
                snapshot_id,
                owner: PinOwner::Operation(reservation.operation_id),
                reason: PinReason::CutTarget,
            },
        );
        self.operations[at].state = OperationState::UuidRecorded;
        self.operations[at].discovered_uuid = Some(snapshot.subvol_uuid);
        self.operations[at].updated_ns = now_ns;
        Ok(RecordedSnapshot { snapshot_id, identity: snapshot.copy() })
    }

    /// Makes the snapshot of a cut the physical head of its watch. The caller
    /// has found nothing in the snapshot that must not be watched.
    pub fn publish_validated_physical_cut(
        &mut self,
        reservation: &CutReservation,
        lease_owner: [u8; 16],
        snapshot: &RecordedSnapshot,
        now_ns: i64,
    ) -> (published: Result<(), ManagerError>)
        ensures
            publishes_cut(
                *old(self),
                *final(self),
                *reservation,
                lease_owner,
                *snapshot,
                now_ns,
                published,
            ),
            old(self).well_formed() ==> final(self).well_formed(),
    {
        let at: usize = match find_cut_operation(
            &self.operations,
            reservation,
            &lease_owner,
            OperationState::UuidRecorded,
        ) {
            Some(at) => at,
            None => {
                return Err(
                    ManagerError::new("physical cut publication fence or identity is stale"),
                );
            },
        };
        let watch_at: usize = match find(&self.watches, &reservation.watch_id) {
            Some(watch_at) => watch_at,
            None => {
                return Err(
                    ManagerError::new("physical cut publication fence or identity is stale"),
                );
            },
        };
        if !holds(&self.operations[at].discovered_uuid, &snapshot.identity.subvol_uuid)
            || !does_snapshot_stand(
            &self.snapshots,
            snapshot.snapshot_id,
            self.operations[at].filesystem_id,
            &snapshot.identity.subvol_uuid,
        ) || !holds(&self.watches[watch_at].cut_owner, &lease_owner)
            || self.watches[watch_at].cut_fence != reservation.cut_fence {
            return Err(ManagerError::new("physical cut publication fence or identity is stale"));
        }
        let test = |cut: &WatchCut| -> (picked: bool)
            ensures
                picked == cut_at(reservation.watch_id, reservation.sequence)(*cut),
            {
                same_array(&cut.watch_id, &reservation.watch_id) && cut.sequence
                    == reservation.sequence
            };
        if any(
            &self.cuts,
            test,
            Ghost(cut_at(reservation.watch_id, reservation.sequence)),
        ) {
            return Err(
                ManagerError::new("UNIQUE constraint failed: watch_cuts.watch_id, watch_cuts.sequence"),
            );
        }
        let follows: bool = match self.watches[watch_at].last_cut_seq {
            Some(last) => last < i64::MAX && last + 1 == reservation.sequence,
            None => false,
        };
        if self.watches[watch_at].state != WatchState::Active
            || self.watches[watch_at].last_cut_snapshot_id != Some(reservation.base_snapshot_id)
            || !follows {
            return Err(none_changed("advance physical cut head"));
        }
        self.cuts.push(
            WatchCut {
                watch_id: reservation.watch_id,
                sequence: reservation.sequence,
                operation_id: reservation.operation_id,
                base_snapshot_id: reservation.base_snapshot_id,
                target_snapshot_id: snapshot.snapshot_id,
                comparison_id: None,
                comparison_from_snapshot_id: None,
                state: CutState::Created,
                fresh_instance: false,
            },
        );
        self.pins.push(
            Pin {
                snapshot_id: snapshot.snapshot_id,
                owner: PinOwner::WatchLastCut(reservation.watch_id),
                reason: PinReason::PhysicalHead,
            },
        );
        self.watches[watch_at].last_cut_snapshot_id = Some(snapshot.snapshot_id);
        self.watches[watch_at].last_cut_seq = Some(reservation.sequence);
        self.watches[watch_at].cut_owner = None;
        self.watches[watch_at].cut_expires_ns = None;
        unpin(
            &mut self.pins,
            reservation.base_snapshot_id,
            PinOwner::WatchLastCut(reservation.watch_id),
        );
        self.operations[at].state = OperationState::ManifestReady;
        self.operations[at].updated_ns = now_ns;
        proof {
            if old(self).well_formed() {
                lemma_cut_pushed(old(self).cuts@, self.cuts@.last());
                assert(self.cuts@ =~= old(self).cuts@.push(self.cuts@.last()));
            }
        }
        Ok(())
    }

    /// Joins the earliest planned cut of a watch under the identifier.
    pub fn admit_planned_cut_as(
        &mut self,
        watch_id: [u8; 16],
        authorization_id: [u8; 16],
        requester_session_id: [u8; 16],
        request_kind: &str,
        now_ns: i64,
        expires_ns: i64,
        id: [u8; 16],
    ) -> (admitted: Result<Option<CutAdmission>, ManagerError>)
        ensures
            admits_cut(
                *old(self),
                *final(self),
                watch_id,
                authorization_id,
                requester_session_id,
                request_kind@,
                now_ns,
                expires_ns,
                id,
                admitted,
            ),
            old(self).well_formed() ==> final(self).well_formed(),
    {
        let kind: RequestKind = match parse_request(request_kind) {
            Some(kind) => kind,
            None => {
                return Err(ManagerError::new("invalid cut admission"));
            },
        };
        if expires_ns <= now_ns {
            return Err(ManagerError::new("invalid cut admission"));
        }
        if !is_allowed(&self.grants, &watch_id, &authorization_id, CUT_PERMISSIONS) {
            return Err(ManagerError::new("cut admission authorization is stale"));
        }
        let cut_fence: i64 = match find(&self.watches, &watch_id) {
            Some(at) => self.watches[at].cut_fence,
            None => {
                return Ok(None);
            },
        };
        let at: usize = match find_earliest_planned(&self.operations, &watch_id) {
            Some(at) => at,
            None => {
                return Ok(None);
            },
        };
        if find(&self.admissions, &id).is_some() {
            return Err(ManagerError::new("UNIQUE constraint failed: cut_admissions.id"));
        }
        let operation = &self.operations[at];
        let sequence: i64 = match operation.sequence {
            Some(sequence) => sequence,
            None => 0,
        };
        let base_snapshot_id: i64 = match operation.base_snapshot_id {
            Some(base) => base,
            None => 0,
        };
        let reservation = CutReservation {
            filesystem_id: operation.filesystem_id,
            watch_id,
            authorization_id: operation.authorization_id,
            operation_id: operation.id,
            sequence,
            base_snapshot_id,
            source_subvol_uuid: operation.source_subvol_uuid,
            operation_fence: operation.lease_fence,
            cut_fence,
        };
        self.admissions.push(
            Admission {
                id,
                operation_id: reservation.operation_id,
                watch_id,
                authorization_id,
                requester_session_id,
                request_kind: kind,
                state: AdmissionState::Waiting,
                admitted_ns: now_ns,
                expires_ns,
            },
        );
        Ok(Some(CutAdmission { id, reservation, requester_session_id }))
    }

    /// Joins the earliest planned cut of a watch, where there is one.
    pub fn admit_planned_cut(
        &mut self,
        watch_id: [u8; 16],
        authorization_id: [u8; 16],
        requester_session_id: [u8; 16],
        request_kind: &str,
        now_ns: i64,
        expires_ns: i64,
    ) -> (admitted: Result<Option<CutAdmission>, ManagerError>)
        ensures
            exists|id: [u8; 16]|
                drawn(id) && #[trigger] admits_cut(
                    *old(self),
                    *final(self),
                    watch_id,
                    authorization_id,
                    requester_session_id,
                    request_kind@,
                    now_ns,
                    expires_ns,
                    id,
                    admitted,
                ),
            old(self).well_formed() ==> final(self).well_formed(),
    {
        let id: [u8; 16] = random_id();
        self.admit_planned_cut_as(
            watch_id,
            authorization_id,
            requester_session_id,
            request_kind,
            now_ns,
            expires_ns,
            id,
        )
    }

    /// The ready cut of an operation.
    pub fn load_published_cut(&self, operation_id: [u8; 16]) -> (loaded: Result<
        PublishedCut,
        ManagerError,
    >)
        ensures
            loads_cut(*self, operation_id, loaded),
    {
        let revisions = &self.revisions;
        let test = |cut: &WatchCut| -> (picked: bool)
            ensures
                picked == ready_cut(operation_id, revisions@)(*cut),
            {
                match cut.comparison_id {
                    Some(comparison_id) => same_array(&cut.operation_id, &operation_id)
                        && cut.state == CutState::Ready && find_revision_from(
                        revisions,
                        cut.target_snapshot_id,
                        comparison_id,
                    ).is_some(),
                    None => false,
                }
            };
        let at: usize = match find_first(
            &self.cuts,
            test,
            Ghost(ready_cut(operation_id, self.revisions@)),
        ) {
            Some(at) => at,
            None => {
                return Err(ManagerError::new("fulfilled cut is not a ready indexed result"));
            },
        };
        let cut: WatchCut = self.cuts[at];
        let comparison_id: i64 = match cut.comparison_id {
            Some(comparison_id) => comparison_id,
            None => 0,
        };
        let revision_id: i64 = match find_revision_from(
            &self.revisions,
            cut.target_snapshot_id,
            comparison_id,
        ) {
            Some(at) => self.revisions[at].id,
            None => 0,
        };
        Ok(
            PublishedCut {
                watch_id: cut.watch_id,
                sequence: cut.sequence,
                snapshot_id: cut.target_snapshot_id,
                revision_id,
                comparison_id,
                events: load_comparison_events(&self.comparisons, comparison_id),
            },
        )
    }

    /// Asks whether an awaited cut is there.
    pub fn poll_cut_admission(&self, admission: &CutAdmission, now_ns: i64) -> (polled: Result<
        Option<PublishedCut>,
        ManagerError,
    >)
        ensures
            polls_admission(*self, *admission, now_ns, polled),
    {
        let waiting: Admission = match find(&self.admissions, &admission.id) {
            Some(at) => self.admissions[at],
            None => {
                return Err(ManagerError::new("cut admission disappeared"));
            },
        };
        if !same_array(&waiting.operation_id, &admission.reservation.operation_id) || !same_array(
            &waiting.watch_id,
            &admission.reservation.watch_id,
        ) {
            return Err(ManagerError::new("cut admission disappeared"));
        }
        if !same_array(&waiting.requester_session_id, &admission.requester_session_id) {
            return Err(ManagerError::new("cut admission session is stale"));
        }
        if waiting.state == AdmissionState::Abandoned || waiting.expires_ns <= now_ns {
            return Err(ManagerError::new("cut admission expired or was abandoned"));
        }
        if waiting.state == AdmissionState::Waiting {
            return Ok(None);
        }
        match self.load_published_cut(admission.reservation.operation_id) {
            Ok(cut) => Ok(Some(cut)),
            Err(error) => Err(error),
        }
    }

    /// Stops waiting for a cut.
    pub fn abandon_cut_admission(&mut self, admission: &CutAdmission) -> (abandoned: Result<
        (),
        ManagerError,
    >)
        ensures
            abandons_admission(
                *old(self),
                *final(self),
                *admission,
                abandoned,
            ),
            old(self).well_formed() ==> final(self).well_formed(),
    {
        match find(&self.admissions, &admission.id) {
            Some(at) => {
                let waiting: Admission = self.admissions[at];
                if same_array(&waiting.operation_id, &admission.reservation.operation_id)
                    && same_array(&waiting.watch_id, &admission.reservation.watch_id) && same_array(
                    &waiting.requester_session_id,
                    &admission.requester_session_id,
                ) && waiting.state == AdmissionState::Waiting {
                    self.admissions[at].state = AdmissionState::Abandoned;
                    return Ok(());
                }
            },
            None => {},
        }
        Err(none_changed("abandon cut admission"))
    }
}

} // verus!
