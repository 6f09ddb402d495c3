//! What goes and what stays when the floor of a history moves.

use crate::manager::compact::RevisionReport;
use crate::manager::facade::boundary_at;
use crate::manager::floor::{
    admissions_below, bounds_journal, boundaries_below, comparisons_unneeded, compacts,
    cut_below_by, cut_spends, cut_stays, cuts_below, journal_floor, journal_unneeded, journal_upto,
    moves_floor, operations_below, protecting, query_pins, thinned, truncates,
};
use crate::manager::rows::{
    Admission, Boundary, MutationEvent, Operation, OperationKind, OperationState, QueryLease,
    QueryState, Store, WatchCut, WatchState,
};
use crate::manager::table::{first, law_removing, lemma_first, removing, row, some};
use crate::manager::types::ManagerError;
use vstd::prelude::*;

verus! {

/// Whether the cut lies below the floor of the watch.
pub open spec fn lies_below(cut: WatchCut, watch_id: [u8; 16], floor: i64) -> bool {
    cut.watch_id == watch_id && cut.sequence < floor
}

/// Whether the lease keeps history of the watch below the floor at the time.
pub open spec fn keeps_below(
    lease: QueryLease,
    watch_id: [u8; 16],
    floor: i64,
    now_ns: i64,
) -> bool {
    &&& lease.watch_id == watch_id
    &&& lease.state == QueryState::Active
    &&& now_ns < lease.lease_expires_ns
    &&& lease.from_cut_sequence matches Some(from)
    &&& from < floor
}

/// Whether the event may go: it is of the watch, and either nothing that stays lies in its
/// journal, or it lies at or before what the boundary at the floor has of the journal.
pub open spec fn event_may_go(
    store: Store,
    event: MutationEvent,
    watch_id: [u8; 16],
    floor: i64,
) -> bool {
    &&& event.watch_id == watch_id
    &&& ({
        ||| forall|i: int|
            0 <= i < store.boundaries@.len() && (#[trigger] store.boundaries@[i]).watch_id
                == watch_id ==> (store.boundaries@[i].guard matches Some(cursor) ==> cursor.epoch
                != event.guard_epoch)
        ||| exists|i: int|
            0 <= i < store.boundaries@.len() && (#[trigger] store.boundaries@[i]).watch_id
                == watch_id && store.boundaries@[i].cut_sequence == floor && (
            store.boundaries@[i].guard matches Some(cursor) && cursor.epoch == event.guard_epoch
                && event.sequence <= cursor.sequence)
    })
}

/// Moving the floor of a history lets go of the cuts, boundaries and finished operations
/// below it, and of no others. It never goes back, nor beyond what the watch is indexed
/// to, nor past what a query still reads.
pub proof fn law_floor_lets_go_of_what_is_below(
    before: Store,
    after: Store,
    watch_id: [u8; 16],
    new_floor: i64,
    now_ns: i64,
    owner: [u8; 16],
    report: RevisionReport,
    reclaimed: Result<usize, ManagerError>,
)
    requires
        moves_floor(before, after, watch_id, new_floor, now_ns, owner, report, reclaimed),
        reclaimed is Ok,
    ensures
        row(before.watches@, watch_id) matches Some(watch) && (watch.state == WatchState::Active
            || watch.state == WatchState::Blocked) && (watch.replay_floor_seq matches Some(floor)
            && floor <= new_floor) && (watch.indexed_seq matches Some(indexed) && new_floor
            <= indexed),
        row(before.watches@, watch_id)->0.replay_floor_seq == Some(new_floor) ==> after == before,
        row(before.watches@, watch_id)->0.replay_floor_seq != Some(new_floor) ==> {
            &&& forall|i: int|
                0 <= i < before.query_leases@.len() ==> !keeps_below(
                    #[trigger] before.query_leases@[i],
                    watch_id,
                    new_floor,
                    now_ns,
                )
            &&& forall|cut: WatchCut|
                #[trigger] after.cuts@.contains(cut) <==> before.cuts@.contains(cut) && !lies_below(
                    cut,
                    watch_id,
                    new_floor,
                )
            &&& forall|boundary: Boundary|
                #[trigger] after.boundaries@.contains(boundary) <==> before.boundaries@.contains(
                    boundary,
                ) && !(boundary.watch_id == watch_id && boundary.cut_sequence < new_floor)
            &&& forall|operation: Operation|
                #[trigger] after.operations@.contains(operation) <==> before.operations@.contains(
                    operation,
                ) && !(operation.watch_id == watch_id && operation.kind == OperationKind::Cut
                    && operation.state == OperationState::Done && (
                operation.sequence matches Some(sequence) && sequence < new_floor))
            &&& forall|admission: Admission|
                #[trigger] after.admissions@.contains(admission) <==> before.admissions@.contains(
                    admission,
                ) && forall|i: int|
                    0 <= i < before.cuts@.len() && lies_below(
                        #[trigger] before.cuts@[i],
                        watch_id,
                        new_floor,
                    ) ==> before.cuts@[i].operation_id != admission.operation_id
            &&& after.query_leases@.len() == before.query_leases@.len()
            &&& forall|i: int|
                0 <= i < after.query_leases@.len() ==> {
                    let (old_row, new_row) = (
                        before.query_leases@[i],
                        #[trigger] after.query_leases@[i],
                    );
                    if old_row.state == QueryState::Active && !(now_ns < old_row.lease_expires_ns) {
                        new_row.state == QueryState::Released
                    } else {
                        new_row == old_row
                    }
                }
            &&& after.pins == before.pins
            &&& after.snapshots == before.snapshots
            &&& after.grants == before.grants
            &&& after.triggers == before.triggers
        },
{
    if row(before.watches@, watch_id)->0.replay_floor_seq != Some(new_floor) {
        let revision_id = row(before.watches@, watch_id)->0.indexed_revision_id->0;
        let middle = choose|middle: Store| #[trigger]
            compacts(before, middle, revision_id, owner, report.digest->Ok_0) && truncates(
                middle,
                after,
                watch_id,
                new_floor,
                now_ns,
            );
        let guards = protecting(watch_id, new_floor, now_ns);
        assert forall|i: int| 0 <= i < before.query_leases@.len() implies !keeps_below(
            #[trigger] before.query_leases@[i],
            watch_id,
            new_floor,
            now_ns,
        ) by {
            assert(!guards(before.query_leases@[i]));
        }
        assert forall|cut: WatchCut|
            #[trigger] after.cuts@.contains(cut) <==> before.cuts@.contains(cut) && !lies_below(
                cut,
                watch_id,
                new_floor,
            ) by {
            law_removing(before.cuts@, cuts_below(watch_id, new_floor), cut);
        }
        assert forall|boundary: Boundary|
            #[trigger] after.boundaries@.contains(boundary) <==> before.boundaries@.contains(
                boundary,
            ) && !(boundary.watch_id == watch_id && boundary.cut_sequence < new_floor) by {
            law_removing(before.boundaries@, boundaries_below(watch_id, new_floor), boundary);
        }
        assert forall|operation: Operation|
            #[trigger] after.operations@.contains(operation) <==> before.operations@.contains(
                operation,
            ) && !(operation.watch_id == watch_id && operation.kind == OperationKind::Cut
                && operation.state == OperationState::Done && (
            operation.sequence matches Some(sequence) && sequence < new_floor)) by {
            law_removing(before.operations@, operations_below(watch_id, new_floor), operation);
        }
        assert forall|admission: Admission|
            #[trigger] after.admissions@.contains(admission) <==> before.admissions@.contains(
                admission,
            ) && forall|i: int|
                0 <= i < before.cuts@.len() && lies_below(
                    #[trigger] before.cuts@[i],
                    watch_id,
                    new_floor,
                ) ==> before.cuts@[i].operation_id != admission.operation_id by {
            law_removing(
                before.admissions@,
                admissions_below(before.cuts@, watch_id, new_floor),
                admission,
            );
            let picks = cut_below_by(watch_id, new_floor, admission.operation_id);
            if some(before.cuts@, picks) {
                let i = choose|i: int|
                    0 <= i < before.cuts@.len() && picks(#[trigger] before.cuts@[i]);
                assert(lies_below(before.cuts@[i], watch_id, new_floor));
            } else {
                assert forall|i: int|
                    0 <= i < before.cuts@.len() && lies_below(
                        #[trigger] before.cuts@[i],
                        watch_id,
                        new_floor,
                    ) implies before.cuts@[i].operation_id != admission.operation_id by {
                    assert(!picks(before.cuts@[i]));
                }
            }
        }
    }
}

/// What a cut that stays was compared with stays, as long as no cut at or below the floor
/// has the same comparison; and what a query still holds stays as it is.
pub proof fn law_floor_keeps_what_is_told(
    before: Store,
    after: Store,
    watch_id: [u8; 16],
    new_floor: i64,
    now_ns: i64,
    owner: [u8; 16],
    report: RevisionReport,
    reclaimed: Result<usize, ManagerError>,
    i: int,
)
    requires
        moves_floor(before, after, watch_id, new_floor, now_ns, owner, report, reclaimed),
        reclaimed is Ok,
        0 <= i < before.comparisons@.len(),
    ensures
        ({
            let id = before.comparisons@[i].id;
            let held = exists|k: int|
                0 <= k < after.comparison_pins@.len() && (
                #[trigger] after.comparison_pins@[k]).comparison_id == id;
            let stays = exists|k: int|
                0 <= k < before.cuts@.len() && (#[trigger] before.cuts@[k]).comparison_id == Some(
                    id,
                ) && !lies_below(before.cuts@[k], watch_id, new_floor);
            let below = exists|k: int|
                0 <= k < before.cuts@.len() && (#[trigger] before.cuts@[k]).comparison_id == Some(
                    id,
                ) && before.cuts@[k].watch_id == watch_id && before.cuts@[k].sequence <= new_floor;
            held || (stays && !below) ==> after.comparisons@.contains(before.comparisons@[i])
        }),
{
    if row(before.watches@, watch_id)->0.replay_floor_seq == Some(new_floor) {
        assert(after.comparisons@[i] == before.comparisons@[i]);
    } else {
        let revision_id = row(before.watches@, watch_id)->0.indexed_revision_id->0;
        let middle = choose|middle: Store| #[trigger]
            compacts(before, middle, revision_id, owner, report.digest->Ok_0) && truncates(
                middle,
                after,
                watch_id,
                new_floor,
                now_ns,
            );
        let comparison = before.comparisons@[i];
        let id = comparison.id;
        let gone = comparisons_unneeded(
            after.revisions@,
            before.cuts@,
            after.comparison_pins@,
            watch_id,
            new_floor,
        );
        let kept = removing(before.comparisons@, gone);
        law_removing(before.comparisons@, gone, comparison);
        assert(before.comparisons@.contains(comparison));
        let pins = query_pins(id);
        let staying = cut_stays(watch_id, new_floor, id);
        let spending = cut_spends(watch_id, new_floor, id);
        if exists|k: int|
            0 <= k < after.comparison_pins@.len() && (
            #[trigger] after.comparison_pins@[k]).comparison_id == id {
            let k = choose|k: int|
                0 <= k < after.comparison_pins@.len() && (
                #[trigger] after.comparison_pins@[k]).comparison_id == id;
            assert(pins(after.comparison_pins@[k]));
        }
        if exists|k: int|
            0 <= k < before.cuts@.len() && (#[trigger] before.cuts@[k]).comparison_id == Some(id)
                && !lies_below(before.cuts@[k], watch_id, new_floor) {
            let k = choose|k: int|
                0 <= k < before.cuts@.len() && (#[trigger] before.cuts@[k]).comparison_id == Some(
                    id,
                ) && !lies_below(before.cuts@[k], watch_id, new_floor);
            assert(staying(before.cuts@[k]));
        }
        if some(before.cuts@, spending) {
            let k = choose|k: int|
                0 <= k < before.cuts@.len() && spending(#[trigger] before.cuts@[k]);
            assert(before.cuts@[k].comparison_id == Some(id));
        }
        if kept.contains(comparison) {
            let k = choose|k: int| 0 <= k < kept.len() && kept[k] == comparison;
            assert(thinned(
                kept[k],
                after.comparisons@[k],
                crate::manager::floor::spent(
                    middle.cuts@,
                    after.comparison_pins@,
                    watch_id,
                    new_floor,
                    kept[k].id,
                ),
            ));
        }
    }
}

/// Events of the journal only go where nothing that stays needs them.
pub proof fn law_floor_keeps_needed_events(
    before: Store,
    after: Store,
    watch_id: [u8; 16],
    new_floor: i64,
    now_ns: i64,
    owner: [u8; 16],
    report: RevisionReport,
    reclaimed: Result<usize, ManagerError>,
    event: MutationEvent,
)
    requires
        moves_floor(before, after, watch_id, new_floor, now_ns, owner, report, reclaimed),
        reclaimed is Ok,
        row(before.watches@, watch_id) matches Some(watch) && watch.id == watch_id,
    ensures
        after.mutation_events@.contains(event) ==> before.mutation_events@.contains(event),
        before.mutation_events@.contains(event) && !after.mutation_events@.contains(event)
            ==> event_may_go(after, event, watch_id, new_floor),
{
    if row(before.watches@, watch_id)->0.replay_floor_seq != Some(new_floor) {
        let watch = row(before.watches@, watch_id)->0;
        let revision_id = watch.indexed_revision_id->0;
        let middle = choose|middle: Store| #[trigger]
            compacts(before, middle, revision_id, owner, report.digest->Ok_0) && truncates(
                middle,
                after,
                watch_id,
                new_floor,
                now_ns,
            );
        let unneeded = journal_unneeded(after.boundaries@, after.query_leases@, watch_id);
        let floor = journal_floor(middle.boundaries@, after.query_leases@, watch, new_floor);
        let left = match floor {
            Some(cursor) => removing(before.mutation_events@, journal_upto(watch_id, cursor)),
            None => before.mutation_events@,
        };
        law_removing(left, unneeded, event);
        if let Some(cursor) = floor {
            law_removing(before.mutation_events@, journal_upto(watch_id, cursor), event);
            let there = boundary_at(watch_id, new_floor);
            lemma_first(before.boundaries@, there, 0);
            let at = first(before.boundaries@, there)->0;
            let boundary = before.boundaries@[at];
            law_removing(before.boundaries@, boundaries_below(watch_id, new_floor), boundary);
            assert(before.boundaries@.contains(boundary));
            let i = choose|i: int|
                0 <= i < after.boundaries@.len() && after.boundaries@[i] == boundary;
            assert(after.boundaries@[i].cut_sequence == new_floor);
        }
        let bounding = bounds_journal(watch_id, event.guard_epoch);
        if unneeded(event) {
            assert forall|i: int|
                0 <= i < after.boundaries@.len() && (#[trigger] after.boundaries@[i]).watch_id
                    == watch_id implies (after.boundaries@[i].guard matches Some(cursor)
                ==> cursor.epoch != event.guard_epoch) by {
                assert(!bounding(after.boundaries@[i]));
            }
        }
    }
}

} // verus!
