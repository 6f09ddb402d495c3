//! Taking a grant back.

use crate::digest::{drawn, random_id};
use crate::manager::facade::unbound;
use crate::manager::recovery::{
    cancel_planned, cancelled, cut_freed, planned_admissions, planned_pins, planned_worktrees,
    PlanChoice,
};
use crate::manager::rows::{
    find_active_grant, grant_active, none_changed, Admission, AdmissionState, FsmonitorState, Grant,
    GrantState, Operation, OperationKind, OperationState, Pin, PinOwner, QueryLease, QueryState,
    Retention, RetentionState, Store, Trigger, Watch, WatchState,
};
use crate::manager::table::{any, change, changing, place, remove, removing, some};
use crate::manager::types::{fence_after, next_fence, row_count_text, ManagerError};
use crate::text::same_array;
use vstd::prelude::*;

verus! {

/// The operations under a grant that began and are not settled, and the one
/// that initializes its watch.
pub open spec fn unsettled(watch_id: [u8; 16], authorization_id: [u8; 16]) -> spec_fn(
    Operation,
) -> bool {
    |operation: Operation|
        operation.watch_id == watch_id && operation.authorization_id == authorization_id
            && operation.state != OperationState::Done && operation.state != OperationState::Failed
            && (operation.state != OperationState::Planned || operation.kind
            == OperationKind::Initialize)
}

/// The responses under a grant that are not out yet.
pub open spec fn undrained(watch_id: [u8; 16], authorization_id: [u8; 16]) -> spec_fn(
    QueryLease,
) -> bool {
    |lease: QueryLease|
        lease.watch_id == watch_id && lease.authorization_id == authorization_id && lease.state
            == QueryState::Active
}

/// Why a grant cannot be taken back.
pub open spec fn revoke_fault(
    store: Store,
    watch_id: [u8; 16],
    authorization_id: [u8; 16],
) -> Option<Seq<char>> {
    if some(store.operations@, unsettled(watch_id, authorization_id)) {
        Some("grant has an operation which must be reconciled before revocation"@)
    } else if some(store.query_leases@, undrained(watch_id, authorization_id)) {
        Some("grant has a response lease which must drain before revocation"@)
    } else if !grant_active(store.grants@, watch_id, authorization_id) {
        Some(row_count_text("revoke watch grant"@, 0))
    } else {
        None
    }
}

/// Gives up the admissions that wait under a grant.
pub open spec fn turned_away(watch_id: [u8; 16], authorization_id: [u8; 16]) -> spec_fn(
    Admission,
) -> Admission {
    |admission: Admission|
        if admission.authorization_id == authorization_id && admission.watch_id == watch_id
            && admission.state == AdmissionState::Waiting {
            Admission { state: AdmissionState::Abandoned, ..admission }
        } else {
            admission
        }
}

/// The active retention leases under a grant.
pub open spec fn retained_under(watch_id: [u8; 16], authorization_id: [u8; 16]) -> spec_fn(
    Retention,
) -> bool {
    |retention: Retention|
        retention.watch_id == watch_id && retention.authorization_id == authorization_id
            && retention.state == RetentionState::Active
}

/// The active retention lease under a grant with the identifier, on the
/// snapshot.
pub open spec fn retained_on(
    watch_id: [u8; 16],
    authorization_id: [u8; 16],
    id: [u8; 16],
    snapshot_id: i64,
) -> spec_fn(Retention) -> bool {
    |retention: Retention|
        retained_under(watch_id, authorization_id)(retention) && retention.id == id
            && retention.snapshot_id == snapshot_id
}

/// The pins of active retention leases under a grant.
pub open spec fn retained_pins(
    leases: Seq<Retention>,
    watch_id: [u8; 16],
    authorization_id: [u8; 16],
) -> spec_fn(Pin) -> bool {
    |pin: Pin|
        match pin.owner {
            PinOwner::RetentionLease(id) => some(
                leases,
                retained_on(watch_id, authorization_id, id, pin.snapshot_id),
            ),
            _ => false,
        }
}

/// Takes the active retention leases under a grant back.
pub open spec fn taken_back(watch_id: [u8; 16], authorization_id: [u8; 16]) -> spec_fn(
    Retention,
) -> Retention {
    |retention: Retention|
        if retained_under(watch_id, authorization_id)(retention) {
            Retention {
                state: RetentionState::Revoked,
                lease_fence: fence_after(retention.lease_fence),
                ..retention
            }
        } else {
            retention
        }
}

/// The triggers of a grant.
pub open spec fn triggers_of(watch_id: [u8; 16], authorization_id: [u8; 16]) -> spec_fn(
    Trigger,
) -> bool {
    |trigger: Trigger| trigger.watch_id == watch_id && trigger.owner_grant_id == authorization_id
}

/// Takes down the facade that a grant owns.
pub open spec fn disowned(
    watch_id: [u8; 16],
    authorization_id: [u8; 16],
    epoch: [u8; 16],
) -> spec_fn(Watch) -> Watch {
    |watch: Watch|
        if watch.id == watch_id && (watch.view matches Some(view) && view.owner_grant_id
            == authorization_id) {
            unbound(watch, epoch)
        } else {
            watch
        }
}

/// The active grants on a watch.
pub open spec fn active_grants(watch_id: [u8; 16]) -> spec_fn(Grant) -> bool {
    |grant: Grant| grant.watch_id == watch_id && grant.state == GrantState::Active
}

/// Blocks an active watch that no grant is left on.
pub open spec fn closed_off(grants: Seq<Grant>, watch_id: [u8; 16]) -> spec_fn(Watch) -> Watch {
    |watch: Watch|
        if watch.id == watch_id && watch.state == WatchState::Active && !some(
            grants,
            active_grants(watch_id),
        ) {
            Watch { state: WatchState::Blocked, ..watch }
        } else {
            watch
        }
}

/// What taking a grant back with the epoch does.
pub open spec fn revokes(
    before: Store,
    after: Store,
    watch_id: [u8; 16],
    authorization_id: [u8; 16],
    now_ns: i64,
    epoch: [u8; 16],
    revoked: Result<(), ManagerError>,
) -> bool {
    match revoke_fault(before, watch_id, authorization_id) {
        Some(fault) => {
            &&& after == before
            &&& revoked matches Err(error)
            &&& error@ == fault
        },
        None => {
            let choice = PlanChoice::Grant(watch_id, authorization_id);
            let at = place(before.grants@, authorization_id)->0;
            &&& revoked is Ok
            &&& after == (Store {
                watches: after.watches,
                grants: after.grants,
                operations: after.operations,
                pins: after.pins,
                admissions: after.admissions,
                worktrees: after.worktrees,
                retention_leases: after.retention_leases,
                triggers: after.triggers,
                ..before
            })
            &&& after.admissions@ == removing(
                changing(before.admissions@, turned_away(watch_id, authorization_id)),
                planned_admissions(before.operations@, choice),
            )
            &&& after.operations@ == removing(before.operations@, cancelled(choice))
            &&& after.worktrees@ == removing(
                before.worktrees@,
                planned_worktrees(before.operations@, choice),
            )
            &&& after.pins@ == removing(
                removing(before.pins@, planned_pins(before.operations@, choice)),
                retained_pins(before.retention_leases@, watch_id, authorization_id),
            )
            &&& after.retention_leases@ == changing(
                before.retention_leases@,
                taken_back(watch_id, authorization_id),
            )
            &&& after.triggers@ == removing(
                before.triggers@,
                triggers_of(watch_id, authorization_id),
            )
            &&& after.grants@ == before.grants@.update(
                at,
                Grant {
                    state: GrantState::Revoked,
                    revoked_ns: Some(now_ns),
                    ..before.grants@[at]
                },
            )
            &&& after.watches@ == changing(
                changing(
                    changing(before.watches@, cut_freed(before.operations@, choice)),
                    disowned(watch_id, authorization_id, epoch),
                ),
                closed_off(after.grants@, watch_id),
            )
        },
    }
}

fn has_retained_on(
    leases: &Vec<Retention>,
    watch_id: &[u8; 16],
    authorization_id: &[u8; 16],
    id: &[u8; 16],
    snapshot_id: i64,
) -> (found: bool)
    ensures
        found == some(leases@, retained_on(*watch_id, *authorization_id, *id, snapshot_id)),
{
    let test = |retention: &Retention| -> (picked: bool)
        ensures
            picked == retained_on(*watch_id, *authorization_id, *id, snapshot_id)(*retention),
        {
            same_array(&retention.watch_id, watch_id) && same_array(
                &retention.authorization_id,
                authorization_id,
            ) && retention.state == RetentionState::Active && same_array(&retention.id, id)
                && retention.snapshot_id == snapshot_id
        };
    any(leases, test, Ghost(retained_on(*watch_id, *authorization_id, *id, snapshot_id)))
}

impl Store {
    /// Takes a grant back, with the epoch for a facade that goes with it.
    pub fn revoke_grant_as(
        &mut self,
        watch_id: [u8; 16],
        authorization_id: [u8; 16],
        now_ns: i64,
        epoch: [u8; 16],
    ) -> (revoked: Result<(), ManagerError>)
        ensures
            revokes(
                *old(self),
                *final(self),
                watch_id,
                authorization_id,
                now_ns,
                epoch,
                revoked,
            ),
            old(self).well_formed() ==> final(self).well_formed(),
    {
        let test = |operation: &Operation| -> (picked: bool)
            ensures
                picked == unsettled(watch_id, authorization_id)(*operation),
            {
                same_array(&operation.watch_id, &watch_id) && same_array(
                    &operation.authorization_id,
                    &authorization_id,
                ) && operation.state != OperationState::Done && operation.state
                    != OperationState::Failed && (operation.state != OperationState::Planned
                    || operation.kind == OperationKind::Initialize)
            };
        if any(&self.operations, test, Ghost(unsettled(watch_id, authorization_id))) {
            return Err(
                ManagerError::new(
                    "grant has an operation which must be reconciled before revocation",
                ),
            );
        }
        let test = |lease: &QueryLease| -> (picked: bool)
            ensures
                picked == undrained(watch_id, authorization_id)(*lease),
            {
                same_array(&lease.watch_id, &watch_id) && same_array(
                    &lease.authorization_id,
                    &authorization_id,
                ) && lease.state == QueryState::Active
            };
        if any(&self.query_leases, test, Ghost(undrained(watch_id, authorization_id))) {
            return Err(
                ManagerError::new("grant has a response lease which must drain before revocation"),
            );
        }
        let at: usize = match find_active_grant(&self.grants, &watch_id, &authorization_id) {
            Some(at) => at,
            None => {
                return Err(none_changed("revoke watch grant"));
            },
        };
        let apply = |admission: Admission| -> (after: Admission)
            ensures
                after == turned_away(watch_id, authorization_id)(admission),
            {
                if same_array(&admission.authorization_id, &authorization_id) && same_array(
                    &admission.watch_id,
                    &watch_id,
                ) && admission.state == AdmissionState::Waiting {
                    Admission { state: AdmissionState::Abandoned, ..admission }
                } else {
                    admission
                }
            };
        change(&mut self.admissions, apply, Ghost(turned_away(watch_id, authorization_id)));
        cancel_planned(
            &mut self.watches,
            &mut self.pins,
            &mut self.admissions,
            &mut self.worktrees,
            &mut self.operations,
            &PlanChoice::Grant(watch_id, authorization_id),
        );
        let held = &self.retention_leases;
        let test = |pin: &Pin| -> (picked: bool)
            ensures
                picked == retained_pins(held@, watch_id, authorization_id)(*pin),
            {
                match &pin.owner {
                    PinOwner::RetentionLease(id) => has_retained_on(
                        held,
                        &watch_id,
                        &authorization_id,
                        id,
                        pin.snapshot_id,
                    ),
                    _ => false,
                }
            };
        remove(
            &mut self.pins,
            test,
            Ghost(retained_pins(self.retention_leases@, watch_id, authorization_id)),
        );
        let apply = |retention: Retention| -> (after: Retention)
            ensures
                after == taken_back(watch_id, authorization_id)(retention),
            {
                if same_array(&retention.watch_id, &watch_id) && same_array(
                    &retention.authorization_id,
                    &authorization_id,
                ) && retention.state == RetentionState::Active {
                    Retention {
                        state: RetentionState::Revoked,
                        lease_fence: next_fence(retention.lease_fence),
                        ..retention
                    }
                } else {
                    retention
                }
            };
        change(
            &mut self.retention_leases,
            apply,
            Ghost(taken_back(watch_id, authorization_id)),
        );
        let test = |trigger: &Trigger| -> (picked: bool)
            ensures
                picked == triggers_of(watch_id, authorization_id)(*trigger),
            {
                same_array(&trigger.watch_id, &watch_id) && same_array(
                    &trigger.owner_grant_id,
                    &authorization_id,
                )
            };
        remove(&mut self.triggers, test, Ghost(triggers_of(watch_id, authorization_id)));
        self.grants[at].state = GrantState::Revoked;
        self.grants[at].revoked_ns = Some(now_ns);
        assert(self.grants@ =~= old(self).grants@.update(
            at as int,
            Grant {
                state: GrantState::Revoked,
                revoked_ns: Some(now_ns),
                ..old(self).grants@[at as int]
            },
        ));
        let apply = |watch: Watch| -> (after: Watch)
            ensures
                after == disowned(watch_id, authorization_id, epoch)(watch),
            {
                let owned: bool = match &watch.view {
                    Some(view) => same_array(&view.owner_grant_id, &authorization_id),
                    None => false,
                };
                if same_array(&watch.id, &watch_id) && owned {
                    Watch {
                        clock_epoch: epoch,
                        view: None,
                        guard: None,
                        fsmonitor_state: FsmonitorState::Disabled,
                        ..watch
                    }
                } else {
                    watch
                }
            };
        change(
            &mut self.watches,
            apply,
            Ghost(disowned(watch_id, authorization_id, epoch)),
        );
        let test = |grant: &Grant| -> (picked: bool)
            ensures
                picked == active_grants(watch_id)(*grant),
            { same_array(&grant.watch_id, &watch_id) && grant.state == GrantState::Active };
        let left: bool = any(&self.grants, test, Ghost(active_grants(watch_id)));
        let held = &self.grants;
        let apply = |watch: Watch| -> (after: Watch)
            requires
                left == some(held@, active_grants(watch_id)),
            ensures
                after == closed_off(held@, watch_id)(watch),
            {
                if same_array(&watch.id, &watch_id) && watch.state == WatchState::Active && !left {
                    Watch { state: WatchState::Blocked, ..watch }
                } else {
                    watch
                }
            };
        change(&mut self.watches, apply, Ghost(closed_off(self.grants@, watch_id)));
        Ok(())
    }

    /// Takes a grant back: what was planned under it is given up, its leases
    /// and triggers go, and so does its facade. A watch that no grant is left
    /// on is blocked.
    pub fn revoke_grant(
        &mut self,
        watch_id: [u8; 16],
        authorization_id: [u8; 16],
        now_ns: i64,
    ) -> (revoked: Result<(), ManagerError>)
        ensures
            exists|epoch: [u8; 16]|
                drawn(epoch) && #[trigger] revokes(
                    *old(self),
                    *final(self),
                    watch_id,
                    authorization_id,
                    now_ns,
                    epoch,
                    revoked,
                ),
            old(self).well_formed() ==> final(self).well_formed(),
    {
        let epoch: [u8; 16] = random_id();
        self.revoke_grant_as(watch_id, authorization_id, now_ns, epoch)
    }
}

} // verus!
