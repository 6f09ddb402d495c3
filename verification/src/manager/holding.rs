//! What queries and retention leases keep, for how long, and what is deleted once
//! nothing keeps it.

use crate::manager::cutting::lemma_others;
use crate::manager::facade::boundary_at;
use crate::manager::keeping::lemma_place_pushed;
use crate::manager::pins::{pins_for, pins_to};
use crate::manager::queries::{
    begins_query, comparison_pins_for, leads_to, pins_comparison, pins_revision, releases_query,
    revision_pins_for,
};
use crate::manager::retention::{
    cut_touches, deletable, deletable_behind, deleting, expires_leases, finishes_delete,
    lowest_deletable_before, records_delete, releases_retention, reserves_deletes, retains,
    run_out_on, run_out_pins, starts_delete,
};
use crate::manager::rows::{
    ComparisonPin, CutState, DeleteState, GrantState, PhysicalState, Pin, PinOwner, PinReason,
    QueryLease, QueryState, RetentionState, RevisionPin, Snapshot, Store, WatchState,
};
use crate::manager::table::{
    first, gathered, law_removing, law_tally_zero, lemma_first, lemma_place, lemma_slot, numbered,
    place, row, slot, some, tally,
};
use crate::manager::types::{
    FacadeActivation, GuardCursor, ManagerError, QueryLeaseReservation, RetentionLease,
    SnapshotDeleteReservation,
};
use vstd::prelude::*;

verus! {

/// Whether the snapshot was the base or the target of a cut of the watch.
pub open spec fn part_of_history(store: Store, watch_id: [u8; 16], snapshot_id: i64) -> bool {
    exists|i: int|
        0 <= i < store.cuts@.len() && (#[trigger] store.cuts@[i]).watch_id == watch_id && (
        store.cuts@[i].base_snapshot_id == snapshot_id || store.cuts@[i].target_snapshot_id
            == snapshot_id)
}

/// A snapshot is retained for a time to come under a grant that allows it, where it is
/// there and one of the watch's own. It is kept from that time on.
pub proof fn law_retained_snapshot(
    before: Store,
    after: Store,
    watch_id: [u8; 16],
    grant_id: [u8; 16],
    snapshot_id: i64,
    now_ns: i64,
    expires_ns: i64,
    id: [u8; 16],
    retained: Result<RetentionLease, ManagerError>,
)
    requires
        retains(
            before,
            after,
            watch_id,
            grant_id,
            snapshot_id,
            now_ns,
            expires_ns,
            id,
            retained,
        ),
    ensures
        retained is Err ==> after == before,
        retained is Ok <==> {
            &&& now_ns < expires_ns
            &&& row(before.watches@, watch_id) matches Some(watch)
            &&& watch.state == WatchState::Active
            &&& row(before.grants@, grant_id) matches Some(grant)
            &&& grant.watch_id == watch_id
            &&& grant.state == GrantState::Active
            &&& grant.permissions & 16 == 16
            &&& numbered(before.snapshots@, snapshot_id) matches Some(snapshot)
            &&& snapshot.filesystem_id == watch.filesystem_id
            &&& snapshot.physical_state == PhysicalState::Present
            &&& watch.last_cut_snapshot_id == Some(snapshot_id) || part_of_history(
                before,
                watch_id,
                snapshot_id,
            )
            &&& row(before.retention_leases@, id) is None
        },
        retained matches Ok(lease) ==> {
            &&& lease.id == id
            &&& lease.watch_id == watch_id
            &&& lease.authorization_id == grant_id
            &&& lease.snapshot_id == snapshot_id
            &&& lease.expires_ns == expires_ns
            &&& row(after.retention_leases@, id) matches Some(kept)
            &&& kept.watch_id == watch_id
            &&& kept.authorization_id == grant_id
            &&& kept.snapshot_id == snapshot_id
            &&& kept.state == RetentionState::Active
            &&& kept.expires_ns == expires_ns
            &&& kept.created_ns == now_ns
            &&& kept.lease_fence == lease.lease_fence
            &&& after.pins@ == before.pins@.push(
                Pin {
                    snapshot_id,
                    owner: PinOwner::RetentionLease(id),
                    reason: PinReason::CallerRetention,
                },
            )
            &&& after == (Store {
                pins: after.pins,
                retention_leases: after.retention_leases,
                ..before
            })
        },
{
    let touches = cut_touches(watch_id, snapshot_id);
    if some(before.cuts@, touches) {
        let i = choose|i: int| 0 <= i < before.cuts@.len() && touches(#[trigger] before.cuts@[i]);
        assert(before.cuts@[i].watch_id == watch_id);
    }
    if part_of_history(before, watch_id, snapshot_id) {
        let i = choose|i: int|
            0 <= i < before.cuts@.len() && (#[trigger] before.cuts@[i]).watch_id == watch_id && (
            before.cuts@[i].base_snapshot_id == snapshot_id || before.cuts@[i].target_snapshot_id
                == snapshot_id);
        assert(touches(before.cuts@[i]));
    }
    lemma_place(before.retention_leases@, id, 0);
    if retained is Ok {
        lemma_place_pushed(before.retention_leases@, after.retention_leases@.last(), id, 0);
    }
}

/// A retention lease is released by who holds it, and nothing but its own pin goes.
/// Once it is released, it cannot be released again.
pub proof fn law_released_retention(
    before: Store,
    after: Store,
    lease: RetentionLease,
    released: Result<(), ManagerError>,
    again: Result<(), ManagerError>,
    later: Store,
)
    requires
        releases_retention(before, after, lease, released),
        releases_retention(after, later, lease, again),
    ensures
        released is Err ==> after == before,
        released is Ok ==> {
            &&& row(before.retention_leases@, lease.id) matches Some(kept)
            &&& kept.watch_id == lease.watch_id
            &&& kept.authorization_id == lease.authorization_id
            &&& kept.snapshot_id == lease.snapshot_id
            &&& kept.lease_fence == lease.lease_fence
            &&& kept.state == RetentionState::Active
            &&& row(after.retention_leases@, lease.id) matches Some(gone)
            &&& gone.state == RetentionState::Released
            &&& kept.lease_fence < i64::MAX ==> gone.lease_fence > kept.lease_fence
            &&& forall|pin: Pin|
                #[trigger] after.pins@.contains(pin) <==> before.pins@.contains(pin) && !(
                pin.snapshot_id == lease.snapshot_id && pin.owner == PinOwner::RetentionLease(
                    lease.id,
                ) && pin.reason == PinReason::CallerRetention)
            &&& forall|id: [u8; 16]|
                id != lease.id ==> #[trigger] row(after.retention_leases@, id) == row(
                    before.retention_leases@,
                    id,
                )
            &&& again is Err && later == after
        },
{
    lemma_place(before.retention_leases@, lease.id, 0);
    if released is Ok {
        let at = place(before.retention_leases@, lease.id)->0;
        lemma_others(before.retention_leases@, at, after.retention_leases@[at]);
        let gone = pins_for(
            lease.snapshot_id,
            PinOwner::RetentionLease(lease.id),
            PinReason::CallerRetention,
        );
        assert forall|pin: Pin|
            #[trigger] after.pins@.contains(pin) <==> before.pins@.contains(pin) && !(
            pin.snapshot_id == lease.snapshot_id && pin.owner == PinOwner::RetentionLease(lease.id)
                && pin.reason == PinReason::CallerRetention) by {
            law_removing(before.pins@, gone, pin);
        }
    }
}

/// What a caller retained can be released by them, in the store that it was retained
/// in, where nothing else is pinned under the same lease.
pub proof fn law_retained_can_be_released(
    before: Store,
    middle: Store,
    after: Store,
    watch_id: [u8; 16],
    grant_id: [u8; 16],
    snapshot_id: i64,
    now_ns: i64,
    expires_ns: i64,
    id: [u8; 16],
    retained: Result<RetentionLease, ManagerError>,
    released: Result<(), ManagerError>,
)
    requires
        retains(
            before,
            middle,
            watch_id,
            grant_id,
            snapshot_id,
            now_ns,
            expires_ns,
            id,
            retained,
        ),
        retained is Ok,
        releases_retention(middle, after, retained->Ok_0, released),
        forall|i: int|
            0 <= i < before.pins@.len() ==> (#[trigger] before.pins@[i]).owner
                != PinOwner::RetentionLease(id),
    ensures
        released is Ok,
        forall|pin: Pin| #[trigger] after.pins@.contains(pin) <==> before.pins@.contains(pin),
{
    law_retained_snapshot(
        before,
        middle,
        watch_id,
        grant_id,
        snapshot_id,
        now_ns,
        expires_ns,
        id,
        retained,
    );
    lemma_place_pushed(before.retention_leases@, middle.retention_leases@.last(), id, 0);
    let own = pins_for(snapshot_id, PinOwner::RetentionLease(id), PinReason::CallerRetention);
    assert(!some(before.pins@, own));
    law_tally_zero(before.pins@, own);
    reveal(Seq::filter);
    assert(middle.pins@.drop_last() =~= before.pins@);
    assert(tally(middle.pins@, own) == 1);
    assert forall|pin: Pin| #[trigger]
        after.pins@.contains(pin) <==> before.pins@.contains(pin) by {
        law_removing(middle.pins@, own, pin);
        if before.pins@.contains(pin) {
            let i = choose|i: int| 0 <= i < before.pins@.len() && before.pins@[i] == pin;
            assert(middle.pins@[i] == pin);
        }
        if middle.pins@.contains(pin) {
            let i = choose|i: int| 0 <= i < middle.pins@.len() && middle.pins@[i] == pin;
            if i < before.pins@.len() {
                assert(before.pins@[i] == pin);
            }
        }
    }
}

/// Exactly the leases whose time has come end, and with them their pins.
pub proof fn law_expired_retention(
    before: Store,
    after: Store,
    now_ns: i64,
    ended: Result<usize, ManagerError>,
)
    requires
        expires_leases(before, after, now_ns, ended),
    ensures
        ended is Ok,
        after.retention_leases@.len() == before.retention_leases@.len(),
        forall|i: int|
            0 <= i < after.retention_leases@.len() ==> {
                let (old_row, new_row) = (
                    before.retention_leases@[i],
                    #[trigger] after.retention_leases@[i],
                );
                if old_row.state == RetentionState::Active && !(now_ns < old_row.expires_ns) {
                    new_row.state == RetentionState::Expired && new_row.id == old_row.id
                        && new_row.snapshot_id == old_row.snapshot_id && (old_row.lease_fence
                        < i64::MAX ==> new_row.lease_fence > old_row.lease_fence)
                } else {
                    new_row == old_row
                }
            },
        forall|pin: Pin| #[trigger] after.pins@.contains(pin) ==> before.pins@.contains(pin),
        forall|pin: Pin|
            #[trigger] before.pins@.contains(pin) && !after.pins@.contains(pin) ==> exists|i: int|
                0 <= i < before.retention_leases@.len() && pin.owner == PinOwner::RetentionLease(
                    (#[trigger] before.retention_leases@[i]).id,
                ) && pin.snapshot_id == before.retention_leases@[i].snapshot_id
                    && before.retention_leases@[i].state == RetentionState::Active
                    && before.retention_leases@[i].expires_ns <= now_ns,
        forall|pin: Pin, i: int|
            #![trigger after.pins@.contains(pin), before.retention_leases@[i]]
            0 <= i < before.retention_leases@.len() && pin.owner == PinOwner::RetentionLease(
                before.retention_leases@[i].id,
            ) && pin.snapshot_id == before.retention_leases@[i].snapshot_id
                && before.retention_leases@[i].state == RetentionState::Active
                && before.retention_leases@[i].expires_ns <= now_ns ==> !after.pins@.contains(pin),
{
    let gone = run_out_pins(before.retention_leases@, now_ns);
    assert forall|pin: Pin| true implies (#[trigger] after.pins@.contains(pin)
        ==> before.pins@.contains(pin)) by {
        law_removing(before.pins@, gone, pin);
    }
    assert forall|pin: Pin| #[trigger]
        before.pins@.contains(pin) && !after.pins@.contains(pin) implies exists|i: int|
        0 <= i < before.retention_leases@.len() && pin.owner == PinOwner::RetentionLease(
            (#[trigger] before.retention_leases@[i]).id,
        ) && pin.snapshot_id == before.retention_leases@[i].snapshot_id
            && before.retention_leases@[i].state == RetentionState::Active
            && before.retention_leases@[i].expires_ns <= now_ns by {
        law_removing(before.pins@, gone, pin);
        let picks = run_out_on(now_ns, pin.owner->RetentionLease_0, pin.snapshot_id);
        let i = choose|i: int|
            0 <= i < before.retention_leases@.len() && picks(
                #[trigger] before.retention_leases@[i],
            );
        assert(before.retention_leases@[i].id == pin.owner->RetentionLease_0);
    }
    assert forall|pin: Pin, i: int|
        #![trigger after.pins@.contains(pin), before.retention_leases@[i]]
        0 <= i < before.retention_leases@.len() && pin.owner == PinOwner::RetentionLease(
            before.retention_leases@[i].id,
        ) && pin.snapshot_id == before.retention_leases@[i].snapshot_id
            && before.retention_leases@[i].state == RetentionState::Active
            && before.retention_leases@[i].expires_ns <= now_ns implies !after.pins@.contains(
        pin,
    ) by {
        law_removing(before.pins@, gone, pin);
        let picks = run_out_on(now_ns, pin.owner->RetentionLease_0, pin.snapshot_id);
        assert(picks(before.retention_leases@[i]));
    }
}

/// Whether nothing keeps the snapshot, and nobody is at deleting it.
pub open spec fn unkept(store: Store, id: i64) -> bool {
    &&& numbered(store.snapshots@, id) matches Some(snapshot)
    &&& snapshot.physical_state == PhysicalState::Present
    &&& numbered(store.filesystems@, snapshot.filesystem_id) is Some
    &&& forall|i: int| 0 <= i < store.pins@.len() ==> (#[trigger] store.pins@[i]).snapshot_id != id
    &&& forall|i: int|
        0 <= i < store.delete_operations@.len() && (
        #[trigger] store.delete_operations@[i]).snapshot_id == id
            ==> store.delete_operations@[i].state == DeleteState::Done
}

proof fn lemma_unkept(store: Store, id: i64)
    ensures
        deletable(store, id) == unkept(store, id),
{
    let pinned = pins_to(id);
    let at_it = deleting(id);
    if unkept(store, id) {
        assert forall|i: int| 0 <= i < store.pins@.len() implies !pinned(
            #[trigger] store.pins@[i],
        ) by {}
        assert forall|i: int| 0 <= i < store.delete_operations@.len() implies !at_it(
            #[trigger] store.delete_operations@[i],
        ) by {}
    }
    if deletable(store, id) {
        assert forall|i: int| 0 <= i < store.pins@.len() implies (
        #[trigger] store.pins@[i]).snapshot_id != id by {
            assert(!pinned(store.pins@[i]));
        }
        assert forall|i: int|
            0 <= i < store.delete_operations@.len() && (
            #[trigger] store.delete_operations@[i]).snapshot_id == id implies
            store.delete_operations@[i].state == DeleteState::Done by {
            assert(!at_it(store.delete_operations@[i]));
        }
    }
}

proof fn lemma_lowest_unkept(store: Store, after: Option<i64>, n: int)
    requires
        0 <= n <= store.snapshots@.len(),
    ensures
        lowest_deletable_before(store, after, n) matches Some(id) ==> unkept(store, id) && (
        after matches Some(after) ==> id > after),
        forall|i: int|
            0 <= i < n && unkept(store, (#[trigger] store.snapshots@[i]).id) && (
            after matches Some(after) ==> store.snapshots@[i].id > after) ==> (
            lowest_deletable_before(store, after, n) matches Some(id) && id
                <= store.snapshots@[i].id),
    decreases n,
{
    if n > 0 {
        lemma_lowest_unkept(store, after, n - 1);
        lemma_unkept(store, store.snapshots@[n - 1].id);
        if let Some(id) = lowest_deletable_before(store, after, n) {
            lemma_unkept(store, id);
        }
    }
}

proof fn lemma_lowest_all(store: Store, after: Option<i64>, limit: nat)
    ensures
        ({
            let ids = deletable_behind(store, after, limit);
            &&& ids.len() <= limit
            &&& forall|k: int| 0 <= k < ids.len() ==> unkept(store, #[trigger] ids[k])
            &&& forall|k: int|
                0 <= k < ids.len() ==> (after matches Some(after) ==> (#[trigger] ids[k]) > after)
            &&& forall|j: int, k: int|
                0 <= j < k < ids.len() ==> (#[trigger] ids[j]) < (#[trigger] ids[k])
            &&& forall|i: int|
                0 <= i < store.snapshots@.len() && unkept(
                    store,
                    (#[trigger] store.snapshots@[i]).id,
                ) && (after matches Some(after) ==> store.snapshots@[i].id > after) ==> {
                    ||| ids.contains(store.snapshots@[i].id)
                    ||| ids.len() == limit && forall|k: int|
                        0 <= k < ids.len() ==> (#[trigger] ids[k]) < store.snapshots@[i].id
                }
        }),
    decreases limit,
{
    let n = store.snapshots@.len() as int;
    lemma_lowest_unkept(store, after, n);
    if limit > 0 {
        if let Some(id) = lowest_deletable_before(store, after, n) {
            let rest = deletable_behind(store, Some(id), (limit - 1) as nat);
            lemma_lowest_all(store, Some(id), (limit - 1) as nat);
            let ids = deletable_behind(store, after, limit);
            assert(ids == seq![id] + rest);
            assert(ids[0] == id);
            assert forall|k: int| 1 <= k < ids.len() implies #[trigger] ids[k] == rest[k - 1] by {}
            assert forall|i: int|
                0 <= i < n && unkept(store, (#[trigger] store.snapshots@[i]).id) && (
                after matches Some(after) ==> store.snapshots@[i].id > after) implies {
                ||| ids.contains(store.snapshots@[i].id)
                ||| ids.len() == limit && forall|k: int|
                    0 <= k < ids.len() ==> (#[trigger] ids[k]) < store.snapshots@[i].id
            } by {
                let own = store.snapshots@[i].id;
                if own == id {
                    assert(ids.contains(own));
                } else if rest.contains(own) {
                    let k = choose|k: int| 0 <= k < rest.len() && rest[k] == own;
                    assert(ids[k + 1] == own);
                }
            }
        }
    }
}

/// Deletions are reserved for a time to come, of the snapshots that nothing keeps, the
/// smallest numbers first, as many as asked for or all there are. Each reservation
/// says which snapshot is meant, as it is stored.
pub proof fn law_reserved_deletions(
    before: Store,
    after: Store,
    owner: [u8; 16],
    now_ns: i64,
    expires_ns: i64,
    limit: nat,
    ids: Seq<[u8; 16]>,
    reserved: Result<Vec<SnapshotDeleteReservation>, ManagerError>,
)
    requires
        reserves_deletes(before, after, owner, now_ns, expires_ns, limit, ids, reserved),
        ids.len() >= deletable_behind(before, None, limit).len(),
    ensures
        reserved is Err ==> after == before,
        reserved matches Ok(given) ==> {
            let n = before.delete_operations@.len();
            &&& now_ns < expires_ns
            &&& 0 < limit
            &&& given@.len() <= limit
            &&& forall|k: int|
                0 <= k < given@.len() ==> unkept(before, (#[trigger] given@[k]).snapshot_id)
            &&& forall|j: int, k: int|
                0 <= j < k < given@.len() ==> (#[trigger] given@[j]).snapshot_id < (
                #[trigger] given@[k]).snapshot_id
            &&& forall|i: int|
                0 <= i < before.snapshots@.len() && unkept(
                    before,
                    (#[trigger] before.snapshots@[i]).id,
                ) ==> {
                    ||| exists|k: int|
                        0 <= k < given@.len() && (#[trigger] given@[k]).snapshot_id
                            == before.snapshots@[i].id
                    ||| given@.len() == limit && forall|k: int|
                        0 <= k < given@.len() ==> (#[trigger] given@[k]).snapshot_id
                            < before.snapshots@[i].id
                }
            &&& forall|k: int|
                0 <= k < given@.len() ==> names_snapshot(
                    #[trigger] given@[k],
                    numbered(before.snapshots@, given@[k].snapshot_id)->0,
                    before,
                ) && given@[k].operation_id == ids[k]
            &&& after.delete_operations@.len() == n + given@.len()
            &&& forall|k: int|
                0 <= k < given@.len() ==> {
                    let planned = #[trigger] after.delete_operations@[n + k];
                    &&& planned.id == ids[k]
                    &&& planned.snapshot_id == given@[k].snapshot_id
                    &&& planned.state == DeleteState::Planned
                    &&& planned.lease_owner == Some(owner)
                    &&& planned.lease_fence == given@[k].operation_fence
                    &&& planned.lease_expires_ns == Some(expires_ns)
                    &&& planned.updated_ns == now_ns
                }
            &&& after.snapshots@.len() == before.snapshots@.len()
            &&& forall|i: int|
                0 <= i < after.snapshots@.len() ==> (#[trigger] after.snapshots@[i]) == (if exists|
                    k: int,
                |
                    0 <= k < given@.len() && (#[trigger] given@[k]).snapshot_id
                        == before.snapshots@[i].id {
                    Snapshot { physical_state: PhysicalState::Deleting, ..before.snapshots@[i] }
                } else {
                    before.snapshots@[i]
                })
            &&& after.pins == before.pins
        },
{
    if let Ok(given) = reserved {
        let picked = deletable_behind(before, None, limit);
        lemma_lowest_all(before, None, limit);
        assert forall|k: int| 0 <= k < picked.len() implies (
        #[trigger] given@[k]).snapshot_id == picked[k] by {
            assert(unkept(before, picked[k]));
            lemma_slot(before.snapshots@, picked[k], 0);
        }
        assert forall|i: int|
            0 <= i < before.snapshots@.len() && unkept(
                before,
                (#[trigger] before.snapshots@[i]).id,
            ) implies {
            ||| exists|k: int|
                0 <= k < given@.len() && (#[trigger] given@[k]).snapshot_id
                    == before.snapshots@[i].id
            ||| given@.len() == limit && forall|k: int|
                0 <= k < given@.len() ==> (#[trigger] given@[k]).snapshot_id
                    < before.snapshots@[i].id
        } by {
            if picked.contains(before.snapshots@[i].id) {
                let k = choose|k: int|
                    0 <= k < picked.len() && picked[k] == before.snapshots@[i].id;
                assert(given@[k].snapshot_id == before.snapshots@[i].id);
            } else {
                assert forall|k: int| 0 <= k < given@.len() implies (
                #[trigger] given@[k]).snapshot_id < before.snapshots@[i].id by {
                    assert(picked[k] < before.snapshots@[i].id);
                }
            }
        }
        assert forall|j: int, k: int| 0 <= j < k < given@.len() implies (
        #[trigger] given@[j]).snapshot_id < (#[trigger] given@[k]).snapshot_id by {
            assert(picked[j] < picked[k]);
        }
        assert forall|k: int| 0 <= k < given@.len() implies names_snapshot(
            #[trigger] given@[k],
            numbered(before.snapshots@, given@[k].snapshot_id)->0,
            before,
        ) && given@[k].operation_id == ids[k] by {
            lemma_slot(before.snapshots@, picked[k], 0);
        }
        assert forall|i: int| 0 <= i < after.snapshots@.len() implies (
        #[trigger] after.snapshots@[i]) == (if exists|k: int|
            0 <= k < given@.len() && (#[trigger] given@[k]).snapshot_id
                == before.snapshots@[i].id {
            Snapshot { physical_state: PhysicalState::Deleting, ..before.snapshots@[i] }
        } else {
            before.snapshots@[i]
        }) by {
            let own = before.snapshots@[i].id;
            if picked.contains(own) {
                let k = choose|k: int| 0 <= k < picked.len() && picked[k] == own;
                assert(given@[k].snapshot_id == own);
            } else if exists|k: int|
                0 <= k < given@.len() && (#[trigger] given@[k]).snapshot_id == own {
                let k = choose|k: int|
                    0 <= k < given@.len() && (#[trigger] given@[k]).snapshot_id == own;
                assert(picked[k] == own);
            }
        }
    }
}

/// Whether the reservation names the stored snapshot.
pub open spec fn names_snapshot(
    reservation: SnapshotDeleteReservation,
    snapshot: Snapshot,
    store: Store,
) -> bool {
    &&& reservation.filesystem_id == snapshot.filesystem_id
    &&& reservation.identity.subvol_uuid == snapshot.subvol_uuid
    &&& reservation.identity.parent_uuid == snapshot.parent_uuid
    &&& reservation.identity.received_uuid == snapshot.received_uuid
    &&& reservation.identity.root_id == snapshot.root_id
    &&& reservation.identity.ctransid == snapshot.ctransid
    &&& reservation.identity.otransid == snapshot.otransid
    &&& reservation.identity.path@ == snapshot.path@
    &&& reservation.identity.readonly
    &&& snapshot.readonly
    &&& reservation.identity.created_ns == snapshot.created_ns
    &&& numbered(store.filesystems@, snapshot.filesystem_id) matches Some(filesystem)
    &&& reservation.identity.fs_uuid == filesystem.fs_uuid
}

/// Whether the deletion is in the state, and the owner is who works on it.
pub open spec fn deletes(
    store: Store,
    reservation: SnapshotDeleteReservation,
    owner: [u8; 16],
    state: DeleteState,
) -> bool {
    &&& row(store.delete_operations@, reservation.operation_id) matches Some(operation)
    &&& operation.snapshot_id == reservation.snapshot_id
    &&& operation.state == state
    &&& operation.lease_owner == Some(owner)
    &&& operation.lease_fence == reservation.operation_fence
}

/// A deletion goes from being planned over being started and durable to done, each
/// step once, and only by who works on it. Only at the end is the snapshot a
/// tombstone.
pub proof fn law_steps_of_a_deletion(
    before: Store,
    after: Store,
    reservation: SnapshotDeleteReservation,
    owner: [u8; 16],
    now_ns: i64,
    outcome: Result<(), ManagerError>,
)
    ensures
        starts_delete(before, after, reservation, owner, now_ns, outcome) ==> {
            &&& outcome is Ok <==> deletes(before, reservation, owner, DeleteState::Planned)
            &&& outcome is Ok ==> deletes(after, reservation, owner, DeleteState::FsStarted)
                && after.snapshots == before.snapshots
            &&& outcome is Err ==> after == before
        },
        records_delete(before, after, reservation, owner, now_ns, outcome) ==> {
            &&& outcome is Ok <==> deletes(before, reservation, owner, DeleteState::FsStarted)
            &&& outcome is Ok ==> deletes(after, reservation, owner, DeleteState::DeleteDurable)
                && after.snapshots == before.snapshots
            &&& outcome is Err ==> after == before
        },
        finishes_delete(before, after, reservation, owner, now_ns, outcome) ==> {
            &&& outcome is Ok <==> {
                &&& deletes(before, reservation, owner, DeleteState::DeleteDurable)
                &&& numbered(before.snapshots@, reservation.snapshot_id) matches Some(snapshot)
                &&& snapshot.physical_state == PhysicalState::Deleting
                &&& forall|i: int|
                    0 <= i < before.pins@.len() ==> (#[trigger] before.pins@[i]).snapshot_id
                        != reservation.snapshot_id
            }
            &&& outcome is Err ==> after == before
            &&& outcome is Ok ==> {
                let at = slot(before.snapshots@, reservation.snapshot_id)->0;
                &&& row(after.delete_operations@, reservation.operation_id) matches Some(operation)
                &&& operation.state == DeleteState::Done
                &&& operation.lease_owner is None
                &&& after.snapshots@[at] == (Snapshot {
                    physical_state: PhysicalState::Deleted,
                    deleted_ns: Some(now_ns),
                    ..before.snapshots@[at]
                })
                &&& forall|i: int|
                    0 <= i < before.snapshots@.len() && i != at ==> #[trigger] after.snapshots@[i]
                        == before.snapshots@[i]
            }
        },
{
    lemma_place(before.delete_operations@, reservation.operation_id, 0);
    lemma_slot(before.snapshots@, reservation.snapshot_id, 0);
    let pinned = pins_to(reservation.snapshot_id);
    if !some(before.pins@, pinned) {
        assert forall|i: int| 0 <= i < before.pins@.len() implies (
        #[trigger] before.pins@[i]).snapshot_id != reservation.snapshot_id by {
            assert(!pinned(before.pins@[i]));
        }
    } else {
        let i = choose|i: int| 0 <= i < before.pins@.len() && pinned(#[trigger] before.pins@[i]);
        assert(before.pins@[i].snapshot_id == reservation.snapshot_id);
    }
    if place(before.delete_operations@, reservation.operation_id) is Some {
        let at = place(before.delete_operations@, reservation.operation_id)->0;
        if after.delete_operations@.len() == before.delete_operations@.len()
            && after.delete_operations@[at].id == before.delete_operations@[at].id {
            lemma_others(before.delete_operations@, at, after.delete_operations@[at]);
        }
    }
}

proof fn lemma_gathered<T, U>(rows: Seq<T>, image: spec_fn(T) -> Option<U>, item: U)
    ensures
        gathered(rows, image).contains(item) <==> exists|i: int|
            0 <= i < rows.len() && image(#[trigger] rows[i]) == Some(item),
    decreases rows.len(),
{
    if rows.len() > 0 {
        let front = rows.drop_last();
        lemma_gathered(front, image, item);
        let earlier = gathered(front, image);
        let all = gathered(rows, image);
        if all.contains(item) {
            let k = choose|k: int| 0 <= k < all.len() && all[k] == item;
            if k < earlier.len() {
                assert(earlier[k] == item);
                let i = choose|i: int| 0 <= i < front.len() && image(#[trigger] front[i]) == Some(item);
                assert(image(rows[i]) == Some(item));
            } else {
                assert(image(rows[rows.len() - 1]) == Some(item));
            }
        }
        if exists|i: int| 0 <= i < rows.len() && image(#[trigger] rows[i]) == Some(item) {
            let i = choose|i: int| 0 <= i < rows.len() && image(#[trigger] rows[i]) == Some(item);
            if i < front.len() {
                assert(image(front[i]) == Some(item));
                let k = choose|k: int| 0 <= k < earlier.len() && earlier[k] == item;
                assert(all[k] == item);
            } else {
                assert(all[earlier.len() as int] == item);
            }
        }
    } else {
        assert(gathered(rows, image).len() == 0);
    }
}

/// Whether the watch has a boundary of the epoch at the sequence.
pub open spec fn bounded(
    store: Store,
    watch_id: [u8; 16],
    sequence: i64,
    epoch: [u8; 16],
) -> bool {
    exists|i: int|
        0 <= i < store.boundaries@.len() && (#[trigger] store.boundaries@[i]).watch_id == watch_id
            && store.boundaries@[i].cut_sequence == sequence && store.boundaries@[i].clock_epoch
            == epoch
}

/// Whether the query holds the comparison: that of a ready cut behind the sequence
/// that it starts from, up to the one that it ends at.
pub open spec fn reads_comparison(
    store: Store,
    watch_id: [u8; 16],
    from: i64,
    to: i64,
    comparison_id: i64,
) -> bool {
    exists|i: int|
        0 <= i < store.cuts@.len() && (#[trigger] store.cuts@[i]).watch_id == watch_id && from
            < store.cuts@[i].sequence && store.cuts@[i].sequence <= to && store.cuts@[i].state
            == CutState::Ready && store.cuts@[i].comparison_id == Some(comparison_id)
}

/// Whether the query holds the revision: one of the snapshot that a boundary in its
/// range leads to.
pub open spec fn reads_revision(
    store: Store,
    watch_id: [u8; 16],
    from: i64,
    to: i64,
    epoch: [u8; 16],
    revision_id: i64,
) -> bool {
    exists|i: int, j: int|
        #![trigger store.revisions@[i], store.boundaries@[j]]
        0 <= i < store.revisions@.len() && 0 <= j < store.boundaries@.len()
            && store.revisions@[i].id == revision_id && store.boundaries@[j].target_snapshot_id
            == store.revisions@[i].snapshot_id && store.boundaries@[j].watch_id == watch_id && from
            <= store.boundaries@[j].cut_sequence && store.boundaries@[j].cut_sequence <= to
            && store.boundaries@[j].clock_epoch == epoch
}

/// A query is leased between boundaries of the facade that it comes through, in order,
/// under a grant that allows reading and cutting. It holds every comparison and every
/// revision in its range, and no other.
pub proof fn law_leased_query(
    before: Store,
    after: Store,
    activation: FacadeActivation,
    from: Option<i64>,
    to: i64,
    owner: [u8; 16],
    expires_ns: i64,
    id: [u8; 16],
    leased: Result<QueryLeaseReservation, ManagerError>,
)
    requires
        begins_query(before, after, activation, from, to, owner, expires_ns, id, leased),
    ensures
        leased is Err ==> after == before,
        leased matches Ok(lease) ==> {
            let lower = if from is Some { from->0 } else { to };
            &&& 0 < to && 0 < expires_ns
            &&& from matches Some(start) ==> 0 <= start <= to && bounded(
                before,
                activation.watch_id,
                start,
                activation.clock_epoch,
            )
            &&& bounded(before, activation.watch_id, to, activation.clock_epoch)
            &&& row(before.watches@, activation.watch_id) matches Some(watch)
            &&& watch.state == WatchState::Active
            &&& watch.clock_epoch == activation.clock_epoch
            &&& watch.view matches Some(view)
            &&& view.owner_grant_id == activation.authorization_id
            &&& view.monitor_session_id == activation.monitor_session_id
            &&& row(before.grants@, activation.authorization_id) matches Some(grant)
            &&& grant.watch_id == activation.watch_id
            &&& grant.state == GrantState::Active
            &&& grant.permissions & 3 == 3
            &&& row(before.query_leases@, id) is None
            &&& lease.id == id
            &&& lease.watch_id == activation.watch_id
            &&& lease.authorization_id == activation.authorization_id
            &&& lease.clock_epoch == activation.clock_epoch
            &&& lease.from_sequence == from
            &&& lease.to_sequence == to
            &&& lease.lease_owner == owner
            &&& row(after.query_leases@, id) matches Some(query)
            &&& query.watch_id == activation.watch_id
            &&& query.authorization_id == activation.authorization_id
            &&& query.clock_epoch == activation.clock_epoch
            &&& query.from_cut_sequence == from
            &&& query.to_cut_sequence == to
            &&& query.guard == lease.guard
            &&& query.lease_owner == owner
            &&& query.lease_fence == lease.lease_fence
            &&& query.lease_expires_ns == expires_ns
            &&& query.state == QueryState::Active
            &&& lease.guard matches Some((epoch, start, end)) ==> {
                &&& from is Some
                &&& watch.guard matches Some(journal)
                &&& journal.epoch == epoch
                &&& journal.replay_floor_seq <= start <= end
            }
            &&& forall|pin: ComparisonPin|
                #[trigger] after.comparison_pins@.contains(pin) <==> before.comparison_pins@.contains(
                    pin,
                ) || (pin.query_id == id && reads_comparison(
                    before,
                    activation.watch_id,
                    lower,
                    to,
                    pin.comparison_id,
                ))
            &&& forall|pin: RevisionPin|
                #[trigger] after.revision_pins@.contains(pin) <==> before.revision_pins@.contains(
                    pin,
                ) || (pin.query_id == id && reads_revision(
                    before,
                    activation.watch_id,
                    lower,
                    to,
                    activation.clock_epoch,
                    pin.revision_id,
                ))
        },
{
    lemma_place(before.query_leases@, id, 0);
    lemma_first(before.boundaries@, boundary_at(activation.watch_id, to), 0);
    if let Some(start) = from {
        lemma_first(before.boundaries@, boundary_at(activation.watch_id, start), 0);
    }
    if let Ok(lease) = leased {
        let lower = if from is Some { from->0 } else { to };
        let watch_id = activation.watch_id;
        let epoch = activation.clock_epoch;
        lemma_place_pushed(before.query_leases@, after.query_leases@.last(), id, 0);
        let end = first(before.boundaries@, boundary_at(watch_id, to))->0;
        assert(before.boundaries@[end].cut_sequence == to);
        if let Some(start) = from {
            let begin = first(before.boundaries@, boundary_at(watch_id, start))->0;
            assert(before.boundaries@[begin].cut_sequence == start);
        }
        let added = gathered(before.cuts@, pins_comparison(id, watch_id, lower, to));
        assert forall|pin: ComparisonPin|
            #[trigger] after.comparison_pins@.contains(pin) <==> before.comparison_pins@.contains(
                pin,
            ) || (pin.query_id == id && reads_comparison(
                before,
                watch_id,
                lower,
                to,
                pin.comparison_id,
            )) by {
            lemma_gathered(before.cuts@, pins_comparison(id, watch_id, lower, to), pin);
            lemma_joined(before.comparison_pins@, added, pin);
            let image = pins_comparison(id, watch_id, lower, to);
            if added.contains(pin) {
                let i = choose|i: int|
                    0 <= i < before.cuts@.len() && image(#[trigger] before.cuts@[i]) == Some(pin);
                assert(before.cuts@[i].watch_id == watch_id);
            }
            if pin.query_id == id && reads_comparison(
                before,
                watch_id,
                lower,
                to,
                pin.comparison_id,
            ) {
                let i = choose|i: int|
                    0 <= i < before.cuts@.len() && (#[trigger] before.cuts@[i]).watch_id == watch_id
                        && lower < before.cuts@[i].sequence && before.cuts@[i].sequence <= to
                        && before.cuts@[i].state == CutState::Ready && before.cuts@[i].comparison_id
                        == Some(pin.comparison_id);
                assert(image(before.cuts@[i]) == Some(pin));
            }
        }
        let image = pins_revision(before.boundaries@, id, watch_id, lower, to, epoch);
        let found = gathered(before.revisions@, image);
        assert forall|pin: RevisionPin|
            #[trigger] after.revision_pins@.contains(pin) <==> before.revision_pins@.contains(pin)
                || (pin.query_id == id && reads_revision(
                before,
                watch_id,
                lower,
                to,
                epoch,
                pin.revision_id,
            )) by {
            lemma_gathered(before.revisions@, image, pin);
            lemma_joined(before.revision_pins@, found, pin);
            if found.contains(pin) {
                let i = choose|i: int|
                    0 <= i < before.revisions@.len() && image(#[trigger] before.revisions@[i])
                        == Some(pin);
                let leads = leads_to(before.revisions@[i].snapshot_id, watch_id, lower, to, epoch);
                let j = choose|j: int|
                    0 <= j < before.boundaries@.len() && leads(#[trigger] before.boundaries@[j]);
                assert(before.revisions@[i].id == pin.revision_id);
            }
            if pin.query_id == id && reads_revision(
                before,
                watch_id,
                lower,
                to,
                epoch,
                pin.revision_id,
            ) {
                let (i, j) = choose|i: int, j: int|
                    #![trigger before.revisions@[i], before.boundaries@[j]]
                    0 <= i < before.revisions@.len() && 0 <= j < before.boundaries@.len()
                        && before.revisions@[i].id == pin.revision_id
                        && before.boundaries@[j].target_snapshot_id
                        == before.revisions@[i].snapshot_id && before.boundaries@[j].watch_id
                        == watch_id && lower <= before.boundaries@[j].cut_sequence
                        && before.boundaries@[j].cut_sequence <= to
                        && before.boundaries@[j].clock_epoch == epoch;
                let leads = leads_to(before.revisions@[i].snapshot_id, watch_id, lower, to, epoch);
                assert(leads(before.boundaries@[j]));
                assert(image(before.revisions@[i]) == Some(pin));
            }
        }
    }
}

/// Whether the boundary in the place is the only one of the watch at the sequence.
pub open spec fn only_boundary(
    store: Store,
    watch_id: [u8; 16],
    sequence: i64,
    i: int,
) -> bool {
    &&& 0 <= i < store.boundaries@.len()
    &&& store.boundaries@[i].watch_id == watch_id
    &&& store.boundaries@[i].cut_sequence == sequence
    &&& forall|j: int|
        0 <= j < store.boundaries@.len() && j != i ==> !((
        #[trigger] store.boundaries@[j]).watch_id == watch_id && store.boundaries@[j].cut_sequence
            == sequence)
}

pub(crate) proof fn lemma_only_boundary(store: Store, watch_id: [u8; 16], sequence: i64, i: int)
    requires
        only_boundary(store, watch_id, sequence, i),
    ensures
        first(store.boundaries@, boundary_at(watch_id, sequence)) == Some(i),
{
    let picks = boundary_at(watch_id, sequence);
    lemma_first(store.boundaries@, picks, 0);
    assert(picks(store.boundaries@[i]));
    assert forall|j: int| 0 <= j < store.boundaries@.len() && j != i implies !picks(
        #[trigger] store.boundaries@[j],
    ) by {}
}

/// A query between two boundaries is leased the part of the journal that lies between them,
/// exactly where the journal is complete at both, is still the same, and still holds it.
pub proof fn law_leased_journal(
    before: Store,
    after: Store,
    activation: FacadeActivation,
    from: i64,
    to: i64,
    owner: [u8; 16],
    expires_ns: i64,
    id: [u8; 16],
    lease: QueryLeaseReservation,
    i: int,
    j: int,
)
    requires
        begins_query(
            before,
            after,
            activation,
            Some(from),
            to,
            owner,
            expires_ns,
            id,
            Ok(lease),
        ),
        only_boundary(before, activation.watch_id, from, i),
        only_boundary(before, activation.watch_id, to, j),
    ensures
        lease.guard matches Some((epoch, start, end)) ==> before.boundaries@[i].guard == Some(
            GuardCursor { epoch, sequence: start },
        ) && before.boundaries@[j].guard == Some(GuardCursor { epoch, sequence: end }),
        (before.boundaries@[i].guard matches Some(start)
            && before.boundaries@[j].guard matches Some(end) && start.epoch == end.epoch
            && start.sequence <= end.sequence && (row(
            before.watches@,
            activation.watch_id,
        ) matches Some(watch) && watch.guard matches Some(journal) && journal.epoch == start.epoch
            && journal.replay_floor_seq <= start.sequence)) ==> lease.guard is Some,
{
    lemma_only_boundary(before, activation.watch_id, from, i);
    lemma_only_boundary(before, activation.watch_id, to, j);
}

proof fn lemma_joined<T>(left: Seq<T>, right: Seq<T>, item: T)
    ensures
        (left + right).contains(item) <==> left.contains(item) || right.contains(item),
{
    let all = left + right;
    if left.contains(item) {
        let i = choose|i: int| 0 <= i < left.len() && left[i] == item;
        assert(all[i] == item);
    }
    if right.contains(item) {
        let i = choose|i: int| 0 <= i < right.len() && right[i] == item;
        assert(all[left.len() + i] == item);
    }
    if all.contains(item) {
        let i = choose|i: int| 0 <= i < all.len() && all[i] == item;
        if i < left.len() {
            assert(left[i] == item);
        } else {
            assert(right[i - left.len()] == item);
        }
    }
}

/// A query is released by who leased it, while the facade that it came through stands,
/// and holds nothing any more. A second release is refused.
pub proof fn law_released_query(
    before: Store,
    after: Store,
    lease: QueryLeaseReservation,
    activation: FacadeActivation,
    released: Result<(), ManagerError>,
    later: Store,
    again: Result<(), ManagerError>,
)
    requires
        releases_query(before, after, lease, activation, released),
        releases_query(after, later, lease, activation, again),
    ensures
        released is Err ==> after == before,
        released is Ok <==> {
            &&& row(before.query_leases@, lease.id) matches Some(query)
            &&& query.state == QueryState::Active
            &&& query.watch_id == lease.watch_id
            &&& query.authorization_id == lease.authorization_id
            &&& query.clock_epoch == lease.clock_epoch
            &&& query.lease_owner == lease.lease_owner
            &&& query.lease_fence == lease.lease_fence
            &&& row(before.watches@, lease.watch_id) matches Some(watch)
            &&& watch.state == WatchState::Active
            &&& watch.clock_epoch == lease.clock_epoch
            &&& watch.view matches Some(view)
            &&& view.monitor_session_id == activation.monitor_session_id
            &&& row(before.grants@, lease.authorization_id) matches Some(grant)
            &&& grant.state == GrantState::Active
        },
        released is Ok ==> {
            &&& row(after.query_leases@, lease.id) == Some(
                QueryLease {
                    state: QueryState::Released,
                    ..row(before.query_leases@, lease.id)->0
                },
            )
            &&& forall|id: [u8; 16]|
                id != lease.id ==> #[trigger] row(after.query_leases@, id) == row(
                    before.query_leases@,
                    id,
                )
            &&& forall|pin: RevisionPin|
                #[trigger] after.revision_pins@.contains(pin) <==> before.revision_pins@.contains(
                    pin,
                ) && pin.query_id != lease.id
            &&& forall|pin: ComparisonPin|
                #[trigger] after.comparison_pins@.contains(pin) <==> before.comparison_pins@.contains(
                    pin,
                ) && pin.query_id != lease.id
            &&& again is Err && later == after
        },
{
    lemma_place(before.query_leases@, lease.id, 0);
    if released is Ok {
        let at = place(before.query_leases@, lease.id)->0;
        lemma_others(before.query_leases@, at, after.query_leases@[at]);
        assert forall|pin: RevisionPin|
            #[trigger] after.revision_pins@.contains(pin) <==> before.revision_pins@.contains(pin)
                && pin.query_id != lease.id by {
            law_removing(before.revision_pins@, revision_pins_for(lease.id), pin);
        }
        assert forall|pin: ComparisonPin|
            #[trigger] after.comparison_pins@.contains(pin) <==> before.comparison_pins@.contains(
                pin,
            ) && pin.query_id != lease.id by {
            law_removing(before.comparison_pins@, comparison_pins_for(lease.id), pin);
        }
    }
}

} // verus!
