//! What goes with a query that ends, and with a plan that is given up.

use crate::manager::compact::RevisionReport;
use crate::manager::facade::invalidates_facade;
use crate::manager::floor::{compacts, moves_floor, truncates};
use crate::manager::queries::{
    chosen_with, comparison_pins_of, revision_pins_of, QueryChoice,
};
use crate::manager::recovery::{
    aborts_planned, cancelled, cut_freed, orphaned, orphaned_grants, planned_cut, planned_worktree,
    planned_worktrees, recovers, PlanChoice,
};
use crate::manager::rows::{
    ComparisonPin, Grant, OperationKind, OperationState, QueryLease, QueryState, RevisionPin, Store,
    Watch, Worktree, WorktreeState,
};
use crate::manager::table::{changing, law_removing, removing, row, some};
use crate::manager::types::{FacadeActivation, RecoveryReport};
use vstd::prelude::*;

verus! {

/// Whether a query with the identifier ends that is active and so.
pub open spec fn ends(
    leases: Seq<QueryLease>,
    id: [u8; 16],
    so: spec_fn(QueryLease) -> bool,
) -> bool {
    exists|i: int|
        0 <= i < leases.len() && (#[trigger] leases[i]).id == id && leases[i].state
            == QueryState::Active && so(leases[i])
}

/// Whether just what the ending queries held went.
pub open spec fn lets_go(before: Store, after: Store, so: spec_fn(QueryLease) -> bool) -> bool {
    &&& forall|pin: RevisionPin|
        #[trigger] after.revision_pins@.contains(pin) <==> before.revision_pins@.contains(pin)
            && !ends(before.query_leases@, pin.query_id, so)
    &&& forall|pin: ComparisonPin|
        #[trigger] after.comparison_pins@.contains(pin) <==> before.comparison_pins@.contains(pin)
            && !ends(before.query_leases@, pin.query_id, so)
}

proof fn lemma_ends(
    leases: Seq<QueryLease>,
    choice: QueryChoice,
    so: spec_fn(QueryLease) -> bool,
    id: [u8; 16],
)
    requires
        forall|lease: QueryLease|
            #[trigger] so(lease) == match choice {
                QueryChoice::All => true,
                QueryChoice::Lapsed(now_ns) => lease.lease_expires_ns <= now_ns,
                QueryChoice::Facade(watch_id, epoch) => lease.watch_id == watch_id
                    && lease.clock_epoch == epoch,
            },
    ensures
        some(leases, chosen_with(choice, id)) == ends(leases, id, so),
{
    let picks = chosen_with(choice, id);
    if some(leases, picks) {
        let i = choose|i: int| 0 <= i < leases.len() && picks(#[trigger] leases[i]);
        assert(leases[i].id == id && so(leases[i]));
    }
    if ends(leases, id, so) {
        let i = choose|i: int|
            0 <= i < leases.len() && (#[trigger] leases[i]).id == id && leases[i].state
                == QueryState::Active && so(leases[i]);
        assert(picks(leases[i]));
    }
}

proof fn lemma_lets_go(
    before: Store,
    after: Store,
    choice: QueryChoice,
    so: spec_fn(QueryLease) -> bool,
)
    requires
        forall|lease: QueryLease|
            #[trigger] so(lease) == match choice {
                QueryChoice::All => true,
                QueryChoice::Lapsed(now_ns) => lease.lease_expires_ns <= now_ns,
                QueryChoice::Facade(watch_id, epoch) => lease.watch_id == watch_id
                    && lease.clock_epoch == epoch,
            },
        after.revision_pins@ == removing(
            before.revision_pins@,
            revision_pins_of(before.query_leases@, choice),
        ),
        after.comparison_pins@ == removing(
            before.comparison_pins@,
            comparison_pins_of(before.query_leases@, choice),
        ),
    ensures
        lets_go(before, after, so),
{
    let leases = before.query_leases@;
    assert forall|pin: RevisionPin|
        #[trigger] after.revision_pins@.contains(pin) <==> before.revision_pins@.contains(pin)
            && !ends(leases, pin.query_id, so) by {
        law_removing(before.revision_pins@, revision_pins_of(leases, choice), pin);
        lemma_ends(leases, choice, so, pin.query_id);
    }
    assert forall|pin: ComparisonPin|
        #[trigger] after.comparison_pins@.contains(pin) <==> before.comparison_pins@.contains(pin)
            && !ends(leases, pin.query_id, so) by {
        law_removing(before.comparison_pins@, comparison_pins_of(leases, choice), pin);
        lemma_ends(leases, choice, so, pin.query_id);
    }
}

/// With every query that ends goes just what it held: all of them with the process, those of a
/// facade with the facade, and those whose time has come with the history below a floor.
pub proof fn law_ended_queries_let_go(
    before: Store,
    after: Store,
    activation: FacadeActivation,
    epoch: [u8; 16],
    boot_id: [u8; 16],
    epochs: Seq<[u8; 16]>,
    recovered: RecoveryReport,
)
    ensures
        recovers(before, after, boot_id, epochs, Ok(recovered)) ==> lets_go(
            before,
            after,
            |lease: QueryLease| true,
        ),
        invalidates_facade(before, after, activation, epoch, Ok(())) ==> lets_go(
            before,
            after,
            |lease: QueryLease|
                lease.watch_id == activation.watch_id && lease.clock_epoch
                    == activation.clock_epoch,
        ),
{
    if recovers(before, after, boot_id, epochs, Ok(recovered)) {
        lemma_lets_go(before, after, QueryChoice::All, |lease: QueryLease| true);
    }
    if invalidates_facade(before, after, activation, epoch, Ok(())) {
        lemma_lets_go(
            before,
            after,
            QueryChoice::Facade(activation.watch_id, activation.clock_epoch),
            |lease: QueryLease|
                lease.watch_id == activation.watch_id && lease.clock_epoch
                    == activation.clock_epoch,
        );
    }
}

/// Where a floor moves, just the queries whose time has come let go of what they held.
pub proof fn law_late_queries_let_go(
    before: Store,
    after: Store,
    watch_id: [u8; 16],
    new_floor: i64,
    now_ns: i64,
    owner: [u8; 16],
    report: RevisionReport,
    number: usize,
)
    requires
        moves_floor(before, after, watch_id, new_floor, now_ns, owner, report, Ok(number)),
        row(before.watches@, watch_id)->0.replay_floor_seq != Some(new_floor),
    ensures
        lets_go(before, after, |lease: QueryLease| lease.lease_expires_ns <= now_ns),
{
    let revision_id = row(before.watches@, watch_id)->0.indexed_revision_id->0;
    let middle = choose|middle: Store| #[trigger]
        compacts(before, middle, revision_id, owner, report.digest->Ok_0) && truncates(
            middle,
            after,
            watch_id,
            new_floor,
            now_ns,
        );
    lemma_lets_go(
        middle,
        after,
        QueryChoice::Lapsed(now_ns),
        |lease: QueryLease| lease.lease_expires_ns <= now_ns,
    );
}

/// With the plans that are given up go the worktrees that were only to be made by them and the
/// grants of watches that nothing opens any more; and a watch that a given up cut was about to
/// cut is free again.
pub proof fn law_given_up_plans_leave_nothing(
    before: Store,
    after: Store,
    now_ns: i64,
    worktree: Worktree,
    i: int,
    j: int,
)
    requires
        aborts_planned(before, after, now_ns),
    ensures
        after.worktrees@.contains(worktree) ==> before.worktrees@.contains(worktree),
        before.worktrees@.contains(worktree) && worktree.state != WorktreeState::Creating
            ==> after.worktrees@.contains(worktree),
        0 <= i < before.operations@.len() && before.operations@[i].state == OperationState::Planned
            && before.operations@[i].kind == OperationKind::Worktree && worktree.operation_id
            == before.operations@[i].id && worktree.state == WorktreeState::Creating
            ==> !after.worktrees@.contains(worktree),
        forall|grant: Grant|
            #[trigger] after.grants@.contains(grant) ==> before.grants@.contains(grant),
        forall|watch: Watch|
            #[trigger] after.watches@.contains(watch) && 0 <= i < before.operations@.len()
                && before.operations@[i].state == OperationState::Planned
                && before.operations@[i].kind == OperationKind::Cut && before.operations@[i].watch_id
                == watch.id ==> (watch.cut_owner is Some ==> watch.cut_owner
                != before.operations@[i].lease_owner),
{
    let held = before.operations@;
    let choice = PlanChoice::All;
    law_removing(before.worktrees@, planned_worktrees(held, choice), worktree);
    let made = planned_worktree(choice, worktree.operation_id);
    if 0 <= i < held.len() && held[i].state == OperationState::Planned && held[i].kind
        == OperationKind::Worktree && worktree.operation_id == held[i].id {
        assert(made(held[i]));
    }
    let freed = changing(before.watches@, cut_freed(held, choice));
    let left = removing(held, cancelled(choice));
    assert forall|grant: Grant| true implies (#[trigger] after.grants@.contains(grant)
        ==> before.grants@.contains(grant)) by {
        law_removing(before.grants@, orphaned_grants(freed, left), grant);
    }
    assert forall|watch: Watch| #[trigger]
        after.watches@.contains(watch) && 0 <= i < held.len() && held[i].state
            == OperationState::Planned && held[i].kind == OperationKind::Cut && held[i].watch_id
            == watch.id implies (watch.cut_owner is Some ==> watch.cut_owner
        != held[i].lease_owner) by {
        law_removing(freed, orphaned(left), watch);
        let k = choose|k: int| 0 <= k < freed.len() && freed[k] == watch;
        assert(freed[k] == cut_freed(held, choice)(before.watches@[k]));
        if watch.cut_owner is Some && watch.cut_owner == held[i].lease_owner {
            let picks = planned_cut(choice, watch.id, watch.cut_owner->0);
            assert(picks(held[i]));
        }
    }
}

} // verus!
