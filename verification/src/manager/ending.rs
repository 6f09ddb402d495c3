//! What ends when a grant is taken back, and when a process takes over from another.

use crate::manager::grants::{
    active_grants, retained_on, retained_pins, revokes, triggers_of, undrained, unsettled,
};
use crate::manager::recovery::{
    aborts_planned, cancelled, claimed_pins, cut_freed, cut_in_flight, faced, operations_on,
    orphaned, planned_admissions, planned_delete, planned_delete_of, planned_pins, planned_with,
    recovers, refaced, takes_over, topology_in_flight, PlanChoice,
};
use crate::manager::cutting::lemma_others;
use crate::manager::rows::{
    Admission, AdmissionState, Comparison, ComparisonState, DeleteOperation, DeleteState,
    FsmonitorState, Grant, GrantState, Operation, OperationKind, OperationState, PhysicalState, Pin,
    PinOwner, QueryState, RetentionState, Store, Trigger, Watch, WatchState,
};
use crate::manager::table::{
    changing, law_removing, law_tally_zero, lemma_place, place, removing, row, some, tally,
};
use crate::manager::types::{ManagerError, RecoveryReport};
use vstd::prelude::*;

verus! {

/// Whether some active grant is left on the watch.
pub open spec fn granted(grants: Seq<Grant>, watch_id: [u8; 16]) -> bool {
    exists|i: int|
        0 <= i < grants.len() && (#[trigger] grants[i]).watch_id == watch_id && grants[i].state
            == GrantState::Active
}

/// Whether work under the grant stands in the way of taking it back.
pub open spec fn busy(store: Store, watch_id: [u8; 16], grant_id: [u8; 16]) -> bool {
    ||| exists|i: int|
        0 <= i < store.operations@.len() && (#[trigger] store.operations@[i]).watch_id == watch_id
            && store.operations@[i].authorization_id == grant_id && match store.operations@[i].state
         {
            OperationState::Done | OperationState::Failed => false,
            OperationState::Planned => store.operations@[i].kind == OperationKind::Initialize,
            _ => true,
        }
    ||| exists|i: int|
        0 <= i < store.query_leases@.len() && (#[trigger] store.query_leases@[i]).watch_id
            == watch_id && store.query_leases@[i].authorization_id == grant_id
            && store.query_leases@[i].state == QueryState::Active
}

proof fn lemma_busy(store: Store, watch_id: [u8; 16], grant_id: [u8; 16])
    ensures
        busy(store, watch_id, grant_id) == (some(
            store.operations@,
            unsettled(watch_id, grant_id),
        ) || some(store.query_leases@, undrained(watch_id, grant_id))),
{
    let left = unsettled(watch_id, grant_id);
    let out = undrained(watch_id, grant_id);
    if some(store.operations@, left) {
        let i = choose|i: int|
            0 <= i < store.operations@.len() && left(#[trigger] store.operations@[i]);
        assert(store.operations@[i].watch_id == watch_id);
    }
    if some(store.query_leases@, out) {
        let i = choose|i: int|
            0 <= i < store.query_leases@.len() && out(#[trigger] store.query_leases@[i]);
        assert(store.query_leases@[i].watch_id == watch_id);
    }
    if busy(store, watch_id, grant_id) {
        if exists|i: int|
            0 <= i < store.operations@.len() && left(#[trigger] store.operations@[i]) {
        } else {
            assert forall|i: int| 0 <= i < store.operations@.len() implies !left(
                #[trigger] store.operations@[i],
            ) by {}
            let i = choose|i: int|
                0 <= i < store.query_leases@.len() && (#[trigger] store.query_leases@[i]).watch_id
                    == watch_id && store.query_leases@[i].authorization_id == grant_id
                    && store.query_leases@[i].state == QueryState::Active;
            assert(out(store.query_leases@[i]));
        }
    }
}

/// A grant is taken back once nothing under it is at work, and only where it was
/// active. Its triggers are gone, what it retained is not retained any more, nobody
/// waits under it, the facade that it owned is down, and a watch that no grant is left
/// on is blocked. What others have on the watch stays.
pub proof fn law_revoked_grant(
    before: Store,
    after: Store,
    watch_id: [u8; 16],
    grant_id: [u8; 16],
    now_ns: i64,
    epoch: [u8; 16],
    revoked: Result<(), ManagerError>,
)
    requires
        revokes(before, after, watch_id, grant_id, now_ns, epoch, revoked),
    ensures
        revoked is Err ==> after == before,
        revoked is Ok <==> !busy(before, watch_id, grant_id) && (row(
            before.grants@,
            grant_id,
        ) matches Some(grant) && grant.watch_id == watch_id && grant.state == GrantState::Active),
        revoked is Ok ==> {
            &&& row(after.grants@, grant_id) == Some(
                Grant {
                    state: GrantState::Revoked,
                    revoked_ns: Some(now_ns),
                    ..row(before.grants@, grant_id)->0
                },
            )
            &&& forall|id: [u8; 16]|
                id != grant_id ==> #[trigger] row(after.grants@, id) == row(before.grants@, id)
            &&& forall|trigger: Trigger|
                #[trigger] after.triggers@.contains(trigger) <==> before.triggers@.contains(trigger)
                    && !(trigger.watch_id == watch_id && trigger.owner_grant_id == grant_id)
            &&& after.retention_leases@.len() == before.retention_leases@.len()
            &&& forall|i: int|
                0 <= i < after.retention_leases@.len() ==> {
                    let (old_row, new_row) = (
                        before.retention_leases@[i],
                        #[trigger] after.retention_leases@[i],
                    );
                    if old_row.watch_id == watch_id && old_row.authorization_id == grant_id
                        && old_row.state == RetentionState::Active {
                        new_row.state == RetentionState::Revoked && new_row.id == old_row.id
                            && new_row.lease_fence >= old_row.lease_fence && (old_row.lease_fence
                            < i64::MAX ==> new_row.lease_fence > old_row.lease_fence)
                    } else {
                        new_row == old_row
                    }
                }
            &&& forall|admission: Admission|
                #[trigger] after.admissions@.contains(admission) && admission.watch_id == watch_id
                    && admission.authorization_id == grant_id ==> admission.state
                    != AdmissionState::Waiting
            &&& forall|operation: Operation|
                #[trigger] after.operations@.contains(operation) <==> before.operations@.contains(
                    operation,
                ) && !(operation.watch_id == watch_id && operation.authorization_id == grant_id
                    && operation.state == OperationState::Planned && operation.kind
                    != OperationKind::Initialize)
            &&& after.watches@.len() == before.watches@.len()
            &&& forall|i: int|
                0 <= i < after.watches@.len() ==> watch_without(
                    before.watches@[i],
                    #[trigger] after.watches@[i],
                    watch_id,
                    grant_id,
                    granted(after.grants@, watch_id),
                )
        },
{
    lemma_busy(before, watch_id, grant_id);
    lemma_place(before.grants@, grant_id, 0);
    if revoked is Ok {
        let choice = PlanChoice::Grant(watch_id, grant_id);
        let at = place(before.grants@, grant_id)->0;
        lemma_others(before.grants@, at, after.grants@[at]);
        assert forall|trigger: Trigger|
            #[trigger] after.triggers@.contains(trigger) <==> before.triggers@.contains(trigger)
                && !(trigger.watch_id == watch_id && trigger.owner_grant_id == grant_id) by {
            law_removing(before.triggers@, triggers_of(watch_id, grant_id), trigger);
        }
        assert forall|operation: Operation|
            #[trigger] after.operations@.contains(operation) <==> before.operations@.contains(
                operation,
            ) && !(operation.watch_id == watch_id && operation.authorization_id == grant_id
                && operation.state == OperationState::Planned && operation.kind
                != OperationKind::Initialize) by {
            law_removing(before.operations@, cancelled(choice), operation);
        }
        let turned = changing(
            before.admissions@,
            crate::manager::grants::turned_away(watch_id, grant_id),
        );
        assert forall|admission: Admission|
            #[trigger] after.admissions@.contains(admission) && admission.watch_id == watch_id
                && admission.authorization_id == grant_id implies admission.state
            != AdmissionState::Waiting by {
            law_removing(turned, planned_admissions(before.operations@, choice), admission);
            let i = choose|i: int| 0 <= i < turned.len() && turned[i] == admission;
            assert(turned[i] == admission);
        }
        let active = active_grants(watch_id);
        assert(some(after.grants@, active) == granted(after.grants@, watch_id)) by {
            if some(after.grants@, active) {
                let i = choose|i: int|
                    0 <= i < after.grants@.len() && active(#[trigger] after.grants@[i]);
                assert(after.grants@[i].watch_id == watch_id);
            }
            if granted(after.grants@, watch_id) {
                let i = choose|i: int|
                    0 <= i < after.grants@.len() && (#[trigger] after.grants@[i]).watch_id
                        == watch_id && after.grants@[i].state == GrantState::Active;
                assert(active(after.grants@[i]));
            }
        }
    }
}

/// Taking a grant back lets go of what was kept for its plans and of what it retained, and
/// of nothing else.
pub proof fn law_revoked_grant_keeps_nothing(
    before: Store,
    after: Store,
    watch_id: [u8; 16],
    grant_id: [u8; 16],
    now_ns: i64,
    epoch: [u8; 16],
    pin: Pin,
    i: int,
)
    requires
        revokes(before, after, watch_id, grant_id, now_ns, epoch, Ok(())),
    ensures
        after.pins@.contains(pin) ==> before.pins@.contains(pin),
        before.pins@.contains(pin) && !(pin.owner is Operation) && !(pin.owner is RetentionLease)
            ==> after.pins@.contains(pin),
        0 <= i < before.retention_leases@.len() && before.retention_leases@[i].watch_id == watch_id
            && before.retention_leases@[i].authorization_id == grant_id
            && before.retention_leases@[i].state == RetentionState::Active && pin.owner
            == PinOwner::RetentionLease(before.retention_leases@[i].id) && pin.snapshot_id
            == before.retention_leases@[i].snapshot_id ==> !after.pins@.contains(pin),
        0 <= i < before.operations@.len() && before.operations@[i].watch_id == watch_id
            && before.operations@[i].authorization_id == grant_id && before.operations@[i].state
            == OperationState::Planned && pin.owner == PinOwner::Operation(before.operations@[i].id)
            ==> !after.pins@.contains(pin),
        before.pins@.contains(pin) && (pin.owner matches PinOwner::RetentionLease(id) && forall|
            j: int,
        |
            0 <= j < before.retention_leases@.len() ==> (
            #[trigger] before.retention_leases@[j]).id != id
                || before.retention_leases@[j].authorization_id != grant_id)
            ==> after.pins@.contains(pin),
{
    let choice = PlanChoice::Grant(watch_id, grant_id);
    let unplanned = removing(before.pins@, planned_pins(before.operations@, choice));
    let retained = retained_pins(before.retention_leases@, watch_id, grant_id);
    law_removing(before.pins@, planned_pins(before.operations@, choice), pin);
    law_removing(unplanned, retained, pin);
    if let PinOwner::RetentionLease(id) = pin.owner {
        let picks = retained_on(watch_id, grant_id, id, pin.snapshot_id);
        if 0 <= i < before.retention_leases@.len() && before.retention_leases@[i].id == id {
            assert(picks(before.retention_leases@[i]) == (before.retention_leases@[i].watch_id
                == watch_id && before.retention_leases@[i].authorization_id == grant_id
                && before.retention_leases@[i].state == RetentionState::Active
                && before.retention_leases@[i].snapshot_id == pin.snapshot_id));
        }
        if some(before.retention_leases@, picks) {
            let j = choose|j: int|
                0 <= j < before.retention_leases@.len() && picks(
                    #[trigger] before.retention_leases@[j],
                );
            assert(before.retention_leases@[j].id == id);
        }
    }
    if let PinOwner::Operation(id) = pin.owner {
        let picks = planned_with(choice, id);
        if 0 <= i < before.operations@.len() && before.operations@[i].id == id
            && before.operations@[i].watch_id == watch_id
            && before.operations@[i].authorization_id == grant_id && before.operations@[i].state
            == OperationState::Planned {
            assert(picks(before.operations@[i]));
        }
    }
}

/// Whether the watch is as the one before, without what the grant had on it.
pub open spec fn watch_without(
    old_row: Watch,
    new_row: Watch,
    watch_id: [u8; 16],
    grant_id: [u8; 16],
    granted: bool,
) -> bool {
    &&& new_row.id == old_row.id
    &&& new_row.indexed_revision_id == old_row.indexed_revision_id
    &&& new_row.indexed_seq == old_row.indexed_seq
    &&& new_row.last_cut_seq == old_row.last_cut_seq
    &&& new_row.last_cut_snapshot_id == old_row.last_cut_snapshot_id
    &&& new_row.replay_floor_seq == old_row.replay_floor_seq
    &&& new_row.cut_fence == old_row.cut_fence
    &&& new_row.cut_owner == old_row.cut_owner || new_row.cut_owner is None
    &&& new_row.state == if old_row.id == watch_id && old_row.state == WatchState::Active
        && !granted {
        WatchState::Blocked
    } else {
        old_row.state
    }
    &&& if old_row.id == watch_id && (old_row.view matches Some(view) && view.owner_grant_id
        == grant_id) {
        new_row.view is None && new_row.guard is None && new_row.fsmonitor_state
            == FsmonitorState::Disabled
    } else {
        new_row.view == old_row.view && new_row.guard == old_row.guard && new_row.fsmonitor_state
            == old_row.fsmonitor_state && new_row.clock_epoch == old_row.clock_epoch
    }
}

proof fn lemma_faces(watches: Seq<Watch>, epochs: Seq<[u8; 16]>)
    requires
        tally(watches, faced()) <= epochs.len(),
    ensures
        refaced(watches, epochs).len() == watches.len(),
        forall|i: int|
            0 <= i < watches.len() ==> faceless(watches[i], #[trigger] refaced(watches, epochs)[i]),
        forall|i: int|
            0 <= i < watches.len() && watches[i].fsmonitor_state != FsmonitorState::Disabled
                ==> epochs.contains((#[trigger] refaced(watches, epochs)[i]).clock_epoch),
    decreases watches.len(),
{
    if watches.len() > 0 {
        reveal(Seq::filter);
        let front = watches.drop_last();
        assert(tally(front, faced()) <= tally(watches, faced()));
        lemma_faces(front, epochs);
        let all = refaced(watches, epochs);
        assert forall|i: int| 0 <= i < watches.len() implies faceless(watches[i], #[trigger] all[i])
            && (watches[i].fsmonitor_state != FsmonitorState::Disabled ==> epochs.contains(
            all[i].clock_epoch,
        )) by {
            if i < front.len() {
                assert(all[i] == refaced(front, epochs)[i]);
                assert(front[i] == watches[i]);
            }
        }
    }
}

/// Whether the watch is as the one before, without its facade.
pub open spec fn faceless(old_row: Watch, new_row: Watch) -> bool {
    if old_row.fsmonitor_state == FsmonitorState::Disabled {
        new_row == old_row
    } else {
        new_row == (Watch {
            view: None,
            guard: None,
            fsmonitor_state: FsmonitorState::Disabled,
            clock_epoch: new_row.clock_epoch,
            ..old_row
        })
    }
}

/// A new process ends whatever lived only as long as the old one: no facade is up, no
/// query holds anything, no trigger runs, no comparison of old snapshots is claimed.
/// Who still believes to have one of these is fenced off.
pub proof fn law_new_process_starts_over(
    before: Store,
    after: Store,
    boot_id: [u8; 16],
    epochs: Seq<[u8; 16]>,
    recovered: Result<RecoveryReport, ManagerError>,
)
    requires
        recovers(before, after, boot_id, epochs, recovered),
        tally(before.watches@, faced()) <= epochs.len(),
    ensures
        recovered is Err ==> after == before,
        recovered matches Ok(report) ==> {
            &&& after.last_boot_id == boot_id
            &&& report.boot_changed <==> before.last_boot_id != boot_id
            &&& report.invalidated_facades == 0 <==> after.watches@ == before.watches@
            &&& after.watches@.len() == before.watches@.len()
            &&& forall|i: int|
                0 <= i < after.watches@.len() ==> faceless(
                    before.watches@[i],
                    #[trigger] after.watches@[i],
                )
            &&& after.query_leases@.len() == before.query_leases@.len()
            &&& forall|i: int|
                0 <= i < after.query_leases@.len() ==> (#[trigger] after.query_leases@[i]).state
                    == QueryState::Released && (before.query_leases@[i].state == QueryState::Active
                    && before.query_leases@[i].lease_fence < i64::MAX
                    ==> after.query_leases@[i].lease_fence > before.query_leases@[i].lease_fence)
            &&& after.triggers@.len() == before.triggers@.len()
            &&& forall|i: int|
                0 <= i < after.triggers@.len() ==> {
                    let (old_row, new_row) = (before.triggers@[i], #[trigger] after.triggers@[i]);
                    &&& new_row.run_owner is None
                    &&& new_row.last_evaluated_seq == old_row.last_evaluated_seq
                    &&& new_row.pending_through_seq == old_row.pending_through_seq
                    &&& new_row.state == old_row.state
                    &&& new_row.watch_id == old_row.watch_id
                    &&& new_row.owner_grant_id == old_row.owner_grant_id
                    &&& old_row.run_owner is Some && old_row.run_fence < i64::MAX
                        ==> new_row.run_fence > old_row.run_fence
                    &&& old_row.run_owner is None ==> new_row == old_row
                }
            &&& after.comparisons@.len() == before.comparisons@.len()
            &&& forall|i: int|
                0 <= i < after.comparisons@.len() ==> {
                    let (old_row, new_row) = (
                        before.comparisons@[i],
                        #[trigger] after.comparisons@[i],
                    );
                    &&& !(new_row.algorithm_version == 2 && new_row.state
                        == ComparisonState::Claimed)
                    &&& old_row.algorithm_version == 2 && old_row.state == ComparisonState::Claimed
                        ==> new_row.state == ComparisonState::Failed && new_row.lease_owner is None
                        && (old_row.lease_fence < i64::MAX ==> new_row.lease_fence
                        > old_row.lease_fence)
                    &&& !(old_row.algorithm_version == 2 && old_row.state
                        == ComparisonState::Claimed) ==> new_row == old_row
                }
            &&& forall|pin: Pin|
                #[trigger] after.pins@.contains(pin) ==> before.pins@.contains(pin)
            &&& forall|pin: Pin|
                #[trigger] before.pins@.contains(pin) && !(pin.owner is Comparison)
                    ==> after.pins@.contains(pin)
        },
{
    if let Ok(report) = recovered {
        lemma_faces(before.watches@, epochs);
        law_tally_zero(before.watches@, faced());
        if report.invalidated_facades == 0 {
            assert forall|i: int| 0 <= i < before.watches@.len() implies after.watches@[i]
                == #[trigger] before.watches@[i] by {
                assert(!faced()(before.watches@[i]));
                assert(faceless(before.watches@[i], after.watches@[i]));
            }
            assert(after.watches@ =~= before.watches@);
        } else {
            let i = choose|i: int|
                0 <= i < before.watches@.len() && faced()(#[trigger] before.watches@[i]);
            assert(faceless(before.watches@[i], after.watches@[i]));
            assert(after.watches@[i].fsmonitor_state != before.watches@[i].fsmonitor_state);
        }
        assert forall|pin: Pin| true implies (#[trigger] after.pins@.contains(pin)
            ==> before.pins@.contains(pin)) by {
            law_removing(before.pins@, claimed_pins(before.comparisons@), pin);
        }
        assert forall|pin: Pin| #[trigger]
            before.pins@.contains(pin) && !(pin.owner is Comparison) implies after.pins@.contains(
            pin,
        ) by {
            law_removing(before.pins@, claimed_pins(before.comparisons@), pin);
        }
    }
}

/// Whether an operation began and is not settled.
pub open spec fn begun(operation: Operation) -> bool {
    match operation.state {
        OperationState::FsStarted
        | OperationState::UuidRecorded
        | OperationState::ManifestReady
        | OperationState::AwaitingDestination => true,
        OperationState::Planned | OperationState::Done | OperationState::Failed => false,
    }
}

/// Whether a deletion began and is not settled.
pub open spec fn deletion_begun(operation: DeleteOperation) -> bool {
    match operation.state {
        DeleteState::FsStarted | DeleteState::FsDeleted | DeleteState::DeleteDurable => true,
        DeleteState::Planned | DeleteState::Done | DeleteState::Failed => false,
    }
}

/// A new owner gets exactly what had begun: the operations, the deletions, and with
/// them the cuts and the topologies that the former owners of those had.
pub proof fn law_new_owner_gets_what_had_begun(
    before: Store,
    after: Store,
    new_owner: [u8; 16],
    expires_ns: i64,
    taken: Result<usize, ManagerError>,
)
    requires
        takes_over(before, after, new_owner, expires_ns, taken),
    ensures
        after.operations@.len() == before.operations@.len(),
        forall|i: int|
            0 <= i < after.operations@.len() ==> #[trigger] after.operations@[i] == (if begun(
                before.operations@[i],
            ) {
                Operation {
                    lease_owner: Some(new_owner),
                    lease_expires_ns: Some(expires_ns),
                    ..before.operations@[i]
                }
            } else {
                before.operations@[i]
            }),
        after.delete_operations@.len() == before.delete_operations@.len(),
        forall|i: int|
            0 <= i < after.delete_operations@.len() ==> #[trigger] after.delete_operations@[i] == (
            if deletion_begun(before.delete_operations@[i]) {
                DeleteOperation {
                    lease_owner: Some(new_owner),
                    lease_expires_ns: Some(expires_ns),
                    ..before.delete_operations@[i]
                }
            } else {
                before.delete_operations@[i]
            }),
        after.watches@.len() == before.watches@.len(),
        forall|i: int, j: int|
            #![trigger after.watches@[i], before.operations@[j]]
            0 <= i < after.watches@.len() && 0 <= j < before.operations@.len() && begun(
                before.operations@[j],
            ) && before.operations@[j].kind == OperationKind::Cut && before.operations@[j].watch_id
                == before.watches@[i].id && before.operations@[j].lease_owner is Some
                && before.operations@[j].lease_owner == before.watches@[i].cut_owner
                ==> after.watches@[i] == (Watch {
                cut_owner: Some(new_owner),
                cut_expires_ns: Some(expires_ns),
                ..before.watches@[i]
            }),
        forall|i: int|
            0 <= i < after.watches@.len() && (#[trigger] after.watches@[i]) != before.watches@[i]
                ==> exists|j: int|
                0 <= j < before.operations@.len() && begun(#[trigger] before.operations@[j])
                    && before.operations@[j].watch_id == before.watches@[i].id
                    && before.operations@[j].kind == OperationKind::Cut
                    && before.operations@[j].lease_owner == before.watches@[i].cut_owner,
        after.topology_leases@.len() == before.topology_leases@.len(),
        forall|i: int, j: int|
            #![trigger after.topology_leases@[i], before.operations@[j]]
            0 <= i < after.topology_leases@.len() && 0 <= j < before.operations@.len() && begun(
                before.operations@[j],
            ) && before.operations@[j].kind != OperationKind::Cut
                && before.operations@[j].filesystem_id == before.topology_leases@[i].filesystem_id
                && before.operations@[j].lease_owner is Some && before.operations@[j].lease_owner
                == before.topology_leases@[i].lease_owner ==> after.topology_leases@[i].lease_owner
                == Some(new_owner) && after.topology_leases@[i].lease_expires_ns == Some(expires_ns)
                && after.topology_leases@[i].lease_fence == before.topology_leases@[i].lease_fence,
{
    assert forall|i: int, j: int|
        #![trigger after.watches@[i], before.operations@[j]]
        0 <= i < after.watches@.len() && 0 <= j < before.operations@.len() && begun(
            before.operations@[j],
        ) && before.operations@[j].kind == OperationKind::Cut && before.operations@[j].watch_id
            == before.watches@[i].id && before.operations@[j].lease_owner is Some
            && before.operations@[j].lease_owner == before.watches@[i].cut_owner implies
        after.watches@[i] == (Watch {
            cut_owner: Some(new_owner),
            cut_expires_ns: Some(expires_ns),
            ..before.watches@[i]
        }) by {
        let picks = cut_in_flight(before.watches@[i].id, before.watches@[i].cut_owner->0);
        assert(picks(before.operations@[j]));
    }
    assert forall|i: int|
        0 <= i < after.watches@.len() && (#[trigger] after.watches@[i])
            != before.watches@[i] implies exists|j: int|
        0 <= j < before.operations@.len() && begun(#[trigger] before.operations@[j])
            && before.operations@[j].watch_id == before.watches@[i].id && before.operations@[j].kind
            == OperationKind::Cut && before.operations@[j].lease_owner
            == before.watches@[i].cut_owner by {
        let picks = cut_in_flight(before.watches@[i].id, before.watches@[i].cut_owner->0);
        let j = choose|j: int|
            0 <= j < before.operations@.len() && picks(#[trigger] before.operations@[j]);
        assert(begun(before.operations@[j]));
    }
    assert forall|i: int, j: int|
        #![trigger after.topology_leases@[i], before.operations@[j]]
        0 <= i < after.topology_leases@.len() && 0 <= j < before.operations@.len() && begun(
            before.operations@[j],
        ) && before.operations@[j].kind != OperationKind::Cut && before.operations@[j].filesystem_id
            == before.topology_leases@[i].filesystem_id && before.operations@[j].lease_owner is Some
            && before.operations@[j].lease_owner
            == before.topology_leases@[i].lease_owner implies after.topology_leases@[i].lease_owner
        == Some(new_owner) && after.topology_leases@[i].lease_expires_ns == Some(expires_ns)
        && after.topology_leases@[i].lease_fence == before.topology_leases@[i].lease_fence by {
        let picks = topology_in_flight(
            before.topology_leases@[i].filesystem_id,
            before.topology_leases@[i].lease_owner->0,
        );
        assert(picks(before.operations@[j]));
    }
}

/// Giving up what did not begin leaves no trace of it: no operation and no deletion is
/// planned any more, the snapshots of such deletions are back, nothing is kept for the
/// operations, and no watch waits for an operation that is gone.
pub proof fn law_nothing_planned_is_left(before: Store, after: Store, now_ns: i64)
    requires
        aborts_planned(before, after, now_ns),
    ensures
        forall|operation: Operation|
            #[trigger] after.operations@.contains(operation) <==> before.operations@.contains(
                operation,
            ) && operation.state != OperationState::Planned,
        forall|operation: DeleteOperation|
            #[trigger] after.delete_operations@.contains(operation)
                <==> before.delete_operations@.contains(operation) && operation.state
                != DeleteState::Planned,
        after.snapshots@.len() == before.snapshots@.len(),
        forall|i: int, j: int|
            #![trigger after.snapshots@[i], before.delete_operations@[j]]
            0 <= i < after.snapshots@.len() && 0 <= j < before.delete_operations@.len()
                && before.delete_operations@[j].state == DeleteState::Planned
                && before.delete_operations@[j].snapshot_id == before.snapshots@[i].id
                && before.snapshots@[i].physical_state == PhysicalState::Deleting
                ==> after.snapshots@[i].physical_state == PhysicalState::Present,
        forall|pin: Pin, i: int|
            #![trigger after.pins@.contains(pin), before.operations@[i]]
            0 <= i < before.operations@.len() && before.operations@[i].state
                == OperationState::Planned && pin.owner == PinOwner::Operation(
                before.operations@[i].id,
            ) ==> !after.pins@.contains(pin),
        forall|watch: Watch|
            #[trigger] after.watches@.contains(watch) && watch.state == WatchState::Initializing
                ==> exists|i: int|
                0 <= i < after.operations@.len() && (#[trigger] after.operations@[i]).watch_id
                    == watch.id,
        forall|admission: Admission|
            #[trigger] after.admissions@.contains(admission) && admission.state
                == AdmissionState::Waiting ==> now_ns < admission.expires_ns,
        after.topology_leases@.len() == before.topology_leases@.len(),
        forall|i: int|
            0 <= i < after.topology_leases@.len() ==> {
                let (old_row, new_row) = (
                    before.topology_leases@[i],
                    #[trigger] after.topology_leases@[i],
                );
                &&& new_row.filesystem_id == old_row.filesystem_id
                &&& new_row.lease_fence == old_row.lease_fence
                &&& (old_row.lease_expires_ns matches Some(expires) && expires <= now_ns)
                    ==> new_row.lease_owner is None
                &&& (old_row.lease_expires_ns matches Some(expires) ==> now_ns < expires)
                    ==> new_row == old_row
            },
{
    let choice = PlanChoice::All;
    let held = before.operations@;
    assert forall|operation: Operation|
        #[trigger] after.operations@.contains(operation) <==> before.operations@.contains(operation)
            && operation.state != OperationState::Planned by {
        law_removing(held, cancelled(choice), operation);
    }
    assert forall|operation: DeleteOperation|
        #[trigger] after.delete_operations@.contains(operation)
            <==> before.delete_operations@.contains(operation) && operation.state
            != DeleteState::Planned by {
        law_removing(before.delete_operations@, planned_delete(), operation);
    }
    assert forall|i: int, j: int|
        #![trigger after.snapshots@[i], before.delete_operations@[j]]
        0 <= i < after.snapshots@.len() && 0 <= j < before.delete_operations@.len()
            && before.delete_operations@[j].state == DeleteState::Planned
            && before.delete_operations@[j].snapshot_id == before.snapshots@[i].id
            && before.snapshots@[i].physical_state == PhysicalState::Deleting implies
        after.snapshots@[i].physical_state == PhysicalState::Present by {
        let picks = planned_delete_of(before.snapshots@[i].id);
        assert(picks(before.delete_operations@[j]));
    }
    assert forall|pin: Pin, i: int|
        #![trigger after.pins@.contains(pin), before.operations@[i]]
        0 <= i < held.len() && held[i].state == OperationState::Planned && pin.owner
            == PinOwner::Operation(before.operations@[i].id) implies !after.pins@.contains(pin) by {
        law_removing(before.pins@, planned_pins(held, choice), pin);
        let picks = planned_with(choice, held[i].id);
        assert(picks(held[i]));
    }
    let freed = changing(before.watches@, cut_freed(held, choice));
    assert forall|watch: Watch| #[trigger]
        after.watches@.contains(watch) && watch.state == WatchState::Initializing implies exists|
        i: int,
    | 0 <= i < after.operations@.len() && (#[trigger] after.operations@[i]).watch_id
            == watch.id by {
        law_removing(freed, orphaned(after.operations@), watch);
        let picks = operations_on(watch.id);
        let i = choose|i: int|
            0 <= i < after.operations@.len() && picks(#[trigger] after.operations@[i]);
        assert(after.operations@[i].watch_id == watch.id);
    }
    let waited = changing(before.admissions@, crate::manager::recovery::waited_out(now_ns));
    assert forall|admission: Admission| #[trigger]
        after.admissions@.contains(admission) && admission.state
            == AdmissionState::Waiting implies now_ns < admission.expires_ns by {
        law_removing(waited, planned_admissions(held, choice), admission);
        let i = choose|i: int| 0 <= i < waited.len() && waited[i] == admission;
        assert(waited[i] == admission);
    }
}

} // verus!
