//! What leases, fences, grants and pins guarantee across the manager's
//! operations.

use crate::manager::cuts::{
    admits_cut, earliest_planned_before, is_planned_cut, records_cut, reserves_cut, starts_cut,
};
use crate::manager::facade::{
    appends_events, facade_is, gaps_guard, guard_runs, invalidates_facade,
};
use crate::manager::grants::revokes;
use crate::manager::history::events_from;
use crate::manager::initialize::{records_initialize, starts_initialize};
use crate::manager::pins::pins_to;
use crate::manager::recovery::{
    aborts_operations, cancelled, in_flight, takes_over, PlanChoice,
};
use crate::manager::retention::{
    deletable, deletable_behind, finishes_delete, lowest_deletable_before, reserves_deletes,
    retains, starts_delete,
};
use crate::manager::rows::{grant_allows, MutationEvent, Operation, OperationState, Store};
use crate::manager::table::{
    law_removing, lemma_place, lemma_slot, place, place_from, row, slot, slot_from, some,
    Identified, Numbered,
};
use crate::manager::types::{
    CutAdmission, CutRequest, CutReservation, FacadeActivation, GuardCursor,
    InitializeReservation, ManagerError, MutationHint, RecordedSnapshot, RetentionLease,
    SnapshotDeleteReservation, SnapshotIdentity, WorktreeReservation,
};
use crate::manager::worktrees::{prepares_publication, records_worktree, starts_worktree};
use vstd::prelude::*;

verus! {

pub(crate) proof fn lemma_place_kept<T: Identified>(
    before: Seq<T>,
    after: Seq<T>,
    id: [u8; 16],
    from: int,
)
    requires
        0 <= from,
        before.len() == after.len(),
        forall|i: int|
            0 <= i < before.len() ==> (#[trigger] before[i]).ident() == after[i].ident(),
    ensures
        place_from(after, id, from) == place_from(before, id, from),
    decreases before.len() - from,
{
    if from < before.len() {
        assert(before[from].ident() == after[from].ident());
        lemma_place_kept(before, after, id, from + 1);
    }
}

/// A row that changes while it keeps its identifier is found where it was, and
/// so is every other row.
pub proof fn law_changed_row_is_found<T: Identified>(
    rows: Seq<T>,
    at: int,
    changed: T,
    id: [u8; 16],
)
    requires
        0 <= at < rows.len(),
        changed.ident() == rows[at].ident(),
    ensures
        place(rows.update(at, changed), id) == place(rows, id),
        row(rows.update(at, changed), id) == match place(rows, id) {
            Some(other) => if other == at {
                Some(changed)
            } else {
                Some(rows[other])
            },
            None => None,
        },
{
    lemma_place_kept(rows, rows.update(at, changed), id, 0);
    lemma_place(rows, id, 0);
}

/// The effect of a cut is started at most once.
pub proof fn law_cut_starts_once(
    before: Store,
    middle: Store,
    after: Store,
    reservation: CutReservation,
    lease_owner: [u8; 16],
    now_ns: i64,
    other_owner: [u8; 16],
    later_ns: i64,
    started: Result<(), ManagerError>,
    again: Result<(), ManagerError>,
)
    requires
        starts_cut(before, middle, reservation, lease_owner, now_ns, started),
        started is Ok,
        starts_cut(middle, after, reservation, other_owner, later_ns, again),
    ensures
        again is Err,
        after == middle,
{
    let at = place(before.operations@, reservation.operation_id)->0;
    lemma_place(before.operations@, reservation.operation_id, 0);
    law_changed_row_is_found(
        before.operations@,
        at,
        middle.operations@[at],
        reservation.operation_id,
    );
}

/// The effect of an initialization is started at most once.
pub proof fn law_initialize_starts_once(
    before: Store,
    middle: Store,
    after: Store,
    reservation: InitializeReservation,
    lease_owner: [u8; 16],
    now_ns: i64,
    other_owner: [u8; 16],
    later_ns: i64,
    started: Result<(), ManagerError>,
    again: Result<(), ManagerError>,
)
    requires
        starts_initialize(before, middle, reservation, lease_owner, now_ns, started),
        started is Ok,
        starts_initialize(middle, after, reservation, other_owner, later_ns, again),
    ensures
        again is Err,
        after == middle,
{
    let at = place(before.operations@, reservation.operation_id)->0;
    lemma_place(before.operations@, reservation.operation_id, 0);
    law_changed_row_is_found(
        before.operations@,
        at,
        middle.operations@[at],
        reservation.operation_id,
    );
}

/// The effect of a worktree is started at most once.
pub proof fn law_worktree_starts_once(
    before: Store,
    middle: Store,
    after: Store,
    reservation: WorktreeReservation,
    lease_owner: [u8; 16],
    now_ns: i64,
    other_owner: [u8; 16],
    later_ns: i64,
    started: Result<(), ManagerError>,
    again: Result<(), ManagerError>,
)
    requires
        starts_worktree(before, middle, reservation, lease_owner, now_ns, started),
        started is Ok,
        starts_worktree(middle, after, reservation, other_owner, later_ns, again),
    ensures
        again is Err,
        after == middle,
{
    let at = place(before.operations@, reservation.operation_id)->0;
    lemma_place(before.operations@, reservation.operation_id, 0);
    law_changed_row_is_found(
        before.operations@,
        at,
        middle.operations@[at],
        reservation.operation_id,
    );
}

/// A deletion is started at most once.
pub proof fn law_delete_starts_once(
    before: Store,
    middle: Store,
    after: Store,
    reservation: SnapshotDeleteReservation,
    lease_owner: [u8; 16],
    now_ns: i64,
    other_owner: [u8; 16],
    later_ns: i64,
    started: Result<(), ManagerError>,
    again: Result<(), ManagerError>,
)
    requires
        starts_delete(before, middle, reservation, lease_owner, now_ns, started),
        started is Ok,
        starts_delete(middle, after, reservation, other_owner, later_ns, again),
    ensures
        again is Err,
        after == middle,
{
    let at = place(before.delete_operations@, reservation.operation_id)->0;
    lemma_place(before.delete_operations@, reservation.operation_id, 0);
    law_changed_row_is_found(
        before.delete_operations@,
        at,
        middle.delete_operations@[at],
        reservation.operation_id,
    );
}

/// Taking over hands every operation that began to the new owner and changes
/// nothing else of it, its fence least of all.
pub proof fn law_takeover_keeps_fences(
    before: Store,
    after: Store,
    new_owner: [u8; 16],
    lease_expires_ns: i64,
    taken: Result<usize, ManagerError>,
    id: [u8; 16],
)
    requires
        takes_over(before, after, new_owner, lease_expires_ns, taken),
    ensures
        match (row(before.operations@, id), row(after.operations@, id)) {
            (Some(old_row), Some(new_row)) => if in_flight()(old_row) {
                new_row == (Operation {
                    lease_owner: Some(new_owner),
                    lease_expires_ns: Some(lease_expires_ns),
                    ..old_row
                })
            } else {
                new_row == old_row
            },
            (None, None) => true,
            _ => false,
        },
{
    lemma_place_kept(before.operations@, after.operations@, id, 0);
    lemma_place(before.operations@, id, 0);
}

/// Once a new owner took over, the old one can record and start nothing that
/// had begun: the store is left as it is.
pub proof fn law_takeover_fences_the_old_owner(
    before: Store,
    middle: Store,
    after: Store,
    new_owner: [u8; 16],
    lease_expires_ns: i64,
    taken: Result<usize, ManagerError>,
    old_owner: [u8; 16],
    cut: CutReservation,
    initialize: InitializeReservation,
    worktree: WorktreeReservation,
    snapshot: SnapshotIdentity,
    parent_uuid: Option<[u8; 16]>,
    now_ns: i64,
    recorded: Result<RecordedSnapshot, ManagerError>,
    cloned: Result<(), ManagerError>,
)
    requires
        takes_over(before, middle, new_owner, lease_expires_ns, taken),
        old_owner != new_owner,
    ensures
        (row(before.operations@, cut.operation_id) matches Some(operation) && in_flight()(
            operation,
        ) && records_cut(middle, after, cut, old_owner, snapshot, now_ns, recorded)) ==> recorded
            is Err && after == middle,
        (row(before.operations@, initialize.operation_id) matches Some(operation) && in_flight()(
            operation,
        ) && records_initialize(
            middle,
            after,
            initialize,
            old_owner,
            snapshot,
            now_ns,
            recorded,
        )) ==> recorded is Err && after == middle,
        (row(before.operations@, worktree.operation_id) matches Some(operation) && in_flight()(
            operation,
        ) && records_worktree(
            middle,
            after,
            worktree,
            old_owner,
            snapshot.subvol_uuid,
            parent_uuid,
            now_ns,
            cloned,
        )) ==> cloned is Err && after == middle,
{
    law_takeover_keeps_fences(
        before,
        middle,
        new_owner,
        lease_expires_ns,
        taken,
        cut.operation_id,
    );
    law_takeover_keeps_fences(
        before,
        middle,
        new_owner,
        lease_expires_ns,
        taken,
        initialize.operation_id,
    );
    law_takeover_keeps_fences(
        before,
        middle,
        new_owner,
        lease_expires_ns,
        taken,
        worktree.operation_id,
    );
}

/// A new process gives up exactly the operations whose effect did not begin:
/// none of those is left, and every other stays as it was.
pub proof fn law_only_planned_operations_are_given_up(
    before: Store,
    after: Store,
    now_ns: i64,
    aborted: Result<usize, ManagerError>,
    operation: Operation,
)
    requires
        aborts_operations(before, after, now_ns, aborted),
    ensures
        after.operations@.contains(operation) <==> before.operations@.contains(operation)
            && operation.state != OperationState::Planned,
{
    law_removing(
        before.operations@,
        cancelled(PlanChoice::All),
        operation,
    );
}

/// A caller only ever joins a cut that did not start.
pub proof fn law_only_planned_cuts_are_joined(
    before: Store,
    after: Store,
    watch_id: [u8; 16],
    authorization_id: [u8; 16],
    requester_session_id: [u8; 16],
    request_kind: Seq<char>,
    now_ns: i64,
    expires_ns: i64,
    id: [u8; 16],
    admitted: Result<Option<CutAdmission>, ManagerError>,
)
    requires
        admits_cut(
            before,
            after,
            watch_id,
            authorization_id,
            requester_session_id,
            request_kind,
            now_ns,
            expires_ns,
            id,
            admitted,
        ),
    ensures
        admitted matches Ok(Some(admission)) ==> exists|i: int|
            0 <= i < before.operations@.len() && (#[trigger] before.operations@[i]).id
                == admission.reservation.operation_id && is_planned_cut(
                before.operations@[i],
                watch_id,
            ),
{
    lemma_earliest_planned(before.operations@, watch_id, before.operations@.len() as int);
}

proof fn lemma_earliest_planned(operations: Seq<Operation>, watch_id: [u8; 16], n: int)
    requires
        0 <= n <= operations.len(),
    ensures
        earliest_planned_before(operations, watch_id, n) matches Some(at) ==> 0 <= at < n
            && is_planned_cut(operations[at], watch_id),
    decreases n,
{
    if n > 0 {
        lemma_earliest_planned(operations, watch_id, n - 1);
    }
}

proof fn lemma_deletable(store: Store, after: Option<i64>, n: int)
    requires
        0 <= n <= store.snapshots@.len(),
    ensures
        lowest_deletable_before(store, after, n) matches Some(id) ==> deletable(store, id),
    decreases n,
{
    if n > 0 {
        lemma_deletable(store, after, n - 1);
    }
}

proof fn lemma_all_deletable(store: Store, after: Option<i64>, limit: nat)
    ensures
        forall|i: int|
            0 <= i < deletable_behind(store, after, limit).len() ==> deletable(
                store,
                #[trigger] deletable_behind(store, after, limit)[i],
            ),
        deletable_behind(store, after, limit).len() <= limit,
    decreases limit,
{
    if limit > 0 {
        lemma_deletable(store, after, store.snapshots@.len() as int);
        if let Some(id) = lowest_deletable_before(store, after, store.snapshots@.len() as int) {
            let rest = deletable_behind(store, Some(id), (limit - 1) as nat);
            lemma_all_deletable(store, Some(id), (limit - 1) as nat);
            let all = deletable_behind(store, after, limit);
            assert(all == seq![id] + rest);
            assert forall|i: int| 0 <= i < all.len() implies deletable(
                store,
                #[trigger] all[i],
            ) by {
                if i > 0 {
                    assert(all[i] == rest[i - 1]);
                }
            }
        }
    }
}

/// Only snapshots that nothing keeps are ever reserved for deletion, and never
/// more than were asked for.
pub proof fn law_kept_snapshots_are_not_collected(
    before: Store,
    after: Store,
    lease_owner: [u8; 16],
    now_ns: i64,
    lease_expires_ns: i64,
    limit: nat,
    ids: Seq<[u8; 16]>,
    reserved: Result<Vec<SnapshotDeleteReservation>, ManagerError>,
)
    requires
        reserves_deletes(
            before,
            after,
            lease_owner,
            now_ns,
            lease_expires_ns,
            limit,
            ids,
            reserved,
        ),
    ensures
        reserved matches Ok(reserved) ==> {
            &&& reserved@.len() <= limit
            &&& forall|i: int|
                0 <= i < reserved@.len() ==> !some(
                    before.pins@,
                    pins_to((#[trigger] reserved@[i]).snapshot_id),
                )
        },
{
    lemma_all_deletable(before, None, limit);
    if let Ok(reservations) = reserved {
        let snapshots = deletable_behind(before, None, limit);
        assert forall|i: int| 0 <= i < reservations@.len() implies !some(
            before.pins@,
            pins_to((#[trigger] reservations@[i]).snapshot_id),
        ) by {
            assert(deletable(before, snapshots[i]));
            lemma_slot(before.snapshots@, snapshots[i], 0);
        }
    }
}

/// A snapshot only becomes a tombstone while nothing keeps it.
pub proof fn law_tombstones_are_unkept(
    before: Store,
    after: Store,
    reservation: SnapshotDeleteReservation,
    lease_owner: [u8; 16],
    now_ns: i64,
    finished: Result<(), ManagerError>,
)
    requires
        finishes_delete(before, after, reservation, lease_owner, now_ns, finished),
    ensures
        finished is Ok ==> !some(after.pins@, pins_to(reservation.snapshot_id)),
        finished is Err ==> after == before,
{
}

/// A retained snapshot is kept: it cannot be reserved for deletion.
pub proof fn law_retained_snapshot_is_kept(
    before: Store,
    after: Store,
    watch_id: [u8; 16],
    authorization_id: [u8; 16],
    snapshot_id: i64,
    now_ns: i64,
    expires_ns: i64,
    id: [u8; 16],
    retained: Result<RetentionLease, ManagerError>,
)
    requires
        retains(
            before,
            after,
            watch_id,
            authorization_id,
            snapshot_id,
            now_ns,
            expires_ns,
            id,
            retained,
        ),
    ensures
        retained is Ok ==> some(after.pins@, pins_to(snapshot_id)) && !deletable(
            after,
            snapshot_id,
        ),
{
    if retained is Ok {
        let last = after.pins@.len() - 1;
        assert(pins_to(snapshot_id)(after.pins@[last]));
    }
}

/// A grant that was taken back allows nothing any more: no cut can be
/// reserved or joined and no snapshot retained under it.
pub proof fn law_revoked_grant_allows_nothing(
    before: Store,
    middle: Store,
    after: Store,
    watch_id: [u8; 16],
    authorization_id: [u8; 16],
    now_ns: i64,
    epoch: [u8; 16],
    revoked: Result<(), ManagerError>,
    other_watch: [u8; 16],
    required: u8,
    request: CutRequest,
    id: [u8; 16],
    reserved: Result<CutReservation, ManagerError>,
)
    requires
        revokes(before, middle, watch_id, authorization_id, now_ns, epoch, revoked),
        revoked is Ok,
    ensures
        !grant_allows(middle.grants@, other_watch, authorization_id, required),
        (request.authorization_id == authorization_id && reserves_cut(
            middle,
            after,
            request,
            id,
            reserved,
        )) ==> reserved is Err && after == middle,
{
    let at = place(before.grants@, authorization_id)->0;
    lemma_place(before.grants@, authorization_id, 0);
    law_changed_row_is_found(before.grants@, at, middle.grants@[at], authorization_id);
}

/// A journal that was given up takes no more events.
pub proof fn law_gapped_journal_takes_no_events(
    before: Store,
    middle: Store,
    after: Store,
    activation: FacadeActivation,
    epoch: [u8; 16],
    gapped: Result<(), ManagerError>,
    events: Seq<MutationHint>,
    observed_ns: i64,
    appended: Result<GuardCursor, ManagerError>,
)
    requires
        gaps_guard(before, middle, activation, epoch, gapped),
        gapped is Ok,
        appends_events(middle, after, activation, epoch, events, observed_ns, appended),
    ensures
        appended is Err,
        after == middle,
{
    let at = place(before.watches@, activation.watch_id)->0;
    lemma_place(before.watches@, activation.watch_id, 0);
    law_changed_row_is_found(
        before.watches@,
        at,
        middle.watches@[at],
        activation.watch_id,
    );
    assert(!guard_runs(middle, activation, epoch));
}

/// Giving a journal up leaves the facade as it is.
pub proof fn law_gap_leaves_the_facade(
    before: Store,
    after: Store,
    activation: FacadeActivation,
    epoch: [u8; 16],
    gapped: Result<(), ManagerError>,
)
    requires
        gaps_guard(before, after, activation, epoch, gapped),
        gapped is Ok,
    ensures
        row(after.watches@, activation.watch_id) matches Some(watch) && facade_is(
            watch,
            activation,
        ) && watch.view == row(before.watches@, activation.watch_id)->0.view,
{
    let at = place(before.watches@, activation.watch_id)->0;
    lemma_place(before.watches@, activation.watch_id, 0);
    law_changed_row_is_found(
        before.watches@,
        at,
        after.watches@[at],
        activation.watch_id,
    );
}

/// Whether the journal of an epoch holds every event up to the sequence, once
/// each.
pub open spec fn journal_complete(
    events: Seq<MutationEvent>,
    watch_id: [u8; 16],
    epoch: [u8; 16],
    floor: int,
    head: int,
) -> bool {
    &&& forall|i: int|
        0 <= i < events.len() && of_journal(#[trigger] events[i], watch_id, epoch) ==> floor
            < events[i].sequence <= head
    &&& forall|sequence: int|
        floor < sequence <= head ==> #[trigger] has_event(events, watch_id, epoch, sequence)
    &&& forall|i: int, j: int|
        0 <= i < j < events.len() && of_journal(#[trigger] events[i], watch_id, epoch)
            && of_journal(#[trigger] events[j], watch_id, epoch) ==> events[i].sequence
            != events[j].sequence
}

/// Whether the event belongs to the journal.
pub open spec fn of_journal(event: MutationEvent, watch_id: [u8; 16], epoch: [u8; 16]) -> bool {
    event.watch_id == watch_id && event.guard_epoch == epoch
}

/// Whether the journal holds the event with the sequence.
pub open spec fn has_event(
    events: Seq<MutationEvent>,
    watch_id: [u8; 16],
    epoch: [u8; 16],
    sequence: int,
) -> bool {
    exists|i: int|
        0 <= i < events.len() && of_journal(#[trigger] events[i], watch_id, epoch)
            && events[i].sequence == sequence
}

/// The events of a journal and its head advance together: what was complete up
/// to the head is complete up to the new head.
pub proof fn law_journal_grows_with_its_head(
    before: Store,
    after: Store,
    activation: FacadeActivation,
    epoch: [u8; 16],
    events: Seq<MutationHint>,
    observed_ns: i64,
    appended: Result<GuardCursor, ManagerError>,
    floor: int,
)
    requires
        appends_events(before, after, activation, epoch, events, observed_ns, appended),
        appended is Ok,
        floor <= row(before.watches@, activation.watch_id)->0.guard->0.head_seq,
        journal_complete(
            before.mutation_events@,
            activation.watch_id,
            epoch,
            floor,
            row(before.watches@, activation.watch_id)->0.guard->0.head_seq as int,
        ),
    ensures
        journal_complete(
            after.mutation_events@,
            activation.watch_id,
            epoch,
            floor,
            appended->Ok_0.sequence as int,
        ),
        row(after.watches@, activation.watch_id)->0.guard->0.head_seq
            == appended->Ok_0.sequence,
{
    let watch_id = activation.watch_id;
    let at = place(before.watches@, watch_id)->0;
    lemma_place(before.watches@, watch_id, 0);
    law_changed_row_is_found(before.watches@, at, after.watches@[at], watch_id);
    let head = before.watches@[at].guard->0.head_seq as int;
    let count = before.mutation_events@.len() as int;
    let old_rows = before.mutation_events@;
    let rows = after.mutation_events@;
    let added = rows.skip(count);
    assert(rows.take(count) == old_rows);
    assert forall|i: int| 0 <= i < count implies #[trigger] rows[i] == old_rows[i] by {
        assert(rows.take(count)[i] == rows[i]);
    }
    assert forall|i: int| count <= i < rows.len() implies (#[trigger] rows[i]).sequence == head + 1
        + (i - count) && of_journal(rows[i], watch_id, epoch) by {
        assert(added[i - count] == rows[i]);
    }
    assert forall|sequence: int|
        floor < sequence <= appended->Ok_0.sequence implies #[trigger] has_event(
        rows,
        watch_id,
        epoch,
        sequence,
    ) by {
        if sequence <= head {
            assert(has_event(old_rows, watch_id, epoch, sequence));
            let i = choose|i: int|
                0 <= i < old_rows.len() && of_journal(#[trigger] old_rows[i], watch_id, epoch)
                    && old_rows[i].sequence == sequence;
            assert(of_journal(rows[i], watch_id, epoch) && rows[i].sequence == sequence);
        } else {
            let i = count + sequence - head - 1;
            assert(of_journal(rows[i], watch_id, epoch) && rows[i].sequence == sequence);
        }
    }
}

/// A facade that was taken down is not the one that its clients knew, where
/// the epoch is a new one.
pub proof fn law_taken_down_facade_is_refused(
    before: Store,
    after: Store,
    activation: FacadeActivation,
    epoch: [u8; 16],
    invalidated: Result<(), ManagerError>,
)
    requires
        invalidates_facade(before, after, activation, epoch, invalidated),
        invalidated is Ok,
    ensures
        row(after.watches@, activation.watch_id) matches Some(watch) && !facade_is(
            watch,
            activation,
        ),
{
    let at = place(before.watches@, activation.watch_id)->0;
    lemma_place(before.watches@, activation.watch_id, 0);
    law_changed_row_is_found(
        before.watches@,
        at,
        after.watches@[at],
        activation.watch_id,
    );
}

/// History that is replayed in two parts is the history replayed as a whole.
pub proof fn law_replay_is_a_concatenation(
    store: Store,
    watch_id: [u8; 16],
    from: int,
    between: int,
    to: int,
)
    requires
        from <= between + 1,
        between <= to,
    ensures
        events_from(store, watch_id, from, to) == events_from(store, watch_id, from, between)
            + events_from(store, watch_id, between + 1, to),
    decreases between - from + 1,
{
    if from > between {
        assert(events_from(store, watch_id, from, between).len() == 0);
        assert(events_from(store, watch_id, from, between) + events_from(
            store,
            watch_id,
            between + 1,
            to,
        ) =~= events_from(store, watch_id, from, to));
    } else {
        law_replay_is_a_concatenation(store, watch_id, from + 1, between, to);
        let rest = events_from(store, watch_id, from + 1, between);
        let far = events_from(store, watch_id, between + 1, to);
        assert(events_from(store, watch_id, from, to) =~= events_from(
            store,
            watch_id,
            from,
            between,
        ) + far);
    }
}

/// While one owner holds the topology of a filesystem, no other can claim it.
pub proof fn law_topology_is_exclusive(
    before: Store,
    middle: Store,
    after: Store,
    reservation: WorktreeReservation,
    lease_owner: [u8; 16],
    final_path: Seq<u8>,
    now_ns: i64,
    lease_expires_ns: i64,
    prepared: Result<i64, ManagerError>,
    other: WorktreeReservation,
    other_owner: [u8; 16],
    other_path: Seq<u8>,
    later_ns: i64,
    other_expires_ns: i64,
    refused: Result<i64, ManagerError>,
)
    requires
        prepares_publication(
            before,
            middle,
            reservation,
            lease_owner,
            final_path,
            now_ns,
            lease_expires_ns,
            prepared,
        ),
        prepared is Ok,
        prepares_publication(
            middle,
            after,
            other,
            other_owner,
            other_path,
            later_ns,
            other_expires_ns,
            refused,
        ),
        other.filesystem_id == reservation.filesystem_id,
        other_owner != lease_owner,
        later_ns < lease_expires_ns,
    ensures
        refused is Err,
        after == middle,
{
    let leases = before.topology_leases@;
    let at = slot(leases, reservation.filesystem_id)->0;
    lemma_slot(leases, reservation.filesystem_id, 0);
    lemma_slot_kept_at(leases, at, middle.topology_leases@[at], reservation.filesystem_id, 0);
}

proof fn lemma_slot_kept_at<T: Numbered>(
    rows: Seq<T>,
    at: int,
    changed: T,
    number: i64,
    from: int,
)
    requires
        0 <= from,
        0 <= at < rows.len(),
        changed.num() == rows[at].num(),
    ensures
        slot_from(rows.update(at, changed), number, from)
            == slot_from(rows, number, from),
    decreases rows.len() - from,
{
    if from < rows.len() {
        lemma_slot_kept_at(rows, at, changed, number, from + 1);
    }
}

} // verus!
