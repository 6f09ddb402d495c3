//! What the numbers say that are given of what was done.

use crate::manager::compact::RevisionReport;
use crate::manager::floor::{compacts, moves_floor, truncates};
use crate::manager::queries::{chosen, QueryChoice};
use crate::manager::recovery::{
    aborts_operations, claimed, deleting_in_flight, faced, in_flight, planned, planned_delete,
    recovers, running, takes_over, PlanChoice,
};
use crate::manager::retention::{expires_leases, run_out};
use crate::manager::rows::{
    Comparison, ComparisonState, DeleteOperation, DeleteState, FsmonitorState, Operation,
    OperationState, QueryLease, QueryState, Retention, RetentionState, Store, Trigger, Watch,
};
use crate::manager::ending::{begun, deletion_begun};
use crate::manager::revisions::lemma_chain_stored;
use crate::manager::table::{lemma_slot, row};
use crate::manager::types::RecoveryReport;
use vstd::prelude::*;

verus! {

/// How many of the rows are so.
pub open spec fn how_many<T>(rows: Seq<T>, so: spec_fn(T) -> bool) -> nat {
    rows.filter(so).len()
}

/// A new process tells how many facades it took down, how many queries it ended, how many
/// runs of triggers and how many claims on comparisons, and whether the machine was started
/// anew.
pub proof fn law_recovery_is_counted(
    before: Store,
    after: Store,
    boot_id: [u8; 16],
    epochs: Seq<[u8; 16]>,
    report: RecoveryReport,
)
    requires
        recovers(before, after, boot_id, epochs, Ok(report)),
    ensures
        report.invalidated_facades == how_many(
            before.watches@,
            |watch: Watch| watch.fsmonitor_state != FsmonitorState::Disabled,
        ),
        report.released_queries == how_many(
            before.query_leases@,
            |lease: QueryLease| lease.state == QueryState::Active,
        ),
        report.reclaimed_trigger_runs == how_many(
            before.triggers@,
            |trigger: Trigger| trigger.run_owner is Some,
        ),
        report.abandoned_historical_comparisons == how_many(
            before.comparisons@,
            |comparison: Comparison|
                comparison.algorithm_version == 2 && comparison.state == ComparisonState::Claimed,
        ),
        report.boot_changed <==> before.last_boot_id != boot_id,
{
    assert(faced() =~= |watch: Watch| watch.fsmonitor_state != FsmonitorState::Disabled);
    assert(chosen(QueryChoice::All) =~= |lease: QueryLease| lease.state == QueryState::Active);
    assert(running() =~= |trigger: Trigger| trigger.run_owner is Some);
    assert(claimed() =~= |comparison: Comparison|
        comparison.algorithm_version == 2 && comparison.state == ComparisonState::Claimed);
}

/// Taking over tells how many operations and deletions had begun, and giving up how many had
/// not.
pub proof fn law_begun_and_planned_are_counted(
    before: Store,
    after: Store,
    owner: [u8; 16],
    at_ns: i64,
    number: usize,
)
    ensures
        takes_over(before, after, owner, at_ns, Ok(number)) ==> number == how_many(
            before.operations@,
            |operation: Operation| begun(operation),
        ) + how_many(
            before.delete_operations@,
            |operation: DeleteOperation| deletion_begun(operation),
        ),
        aborts_operations(before, after, at_ns, Ok(number)) ==> number == how_many(
            before.operations@,
            |operation: Operation| operation.state == OperationState::Planned,
        ) + how_many(
            before.delete_operations@,
            |operation: DeleteOperation| operation.state == DeleteState::Planned,
        ),
{
    assert(in_flight() =~= |operation: Operation| begun(operation));
    assert(deleting_in_flight() =~= |operation: DeleteOperation| deletion_begun(operation));
    assert(planned(PlanChoice::All) =~= |operation: Operation|
        operation.state == OperationState::Planned);
    assert(planned_delete() =~= |operation: DeleteOperation|
        operation.state == DeleteState::Planned);
}

/// Ending what ran out tells how many leases ended.
pub proof fn law_ended_retention_is_counted(
    before: Store,
    after: Store,
    now_ns: i64,
    number: usize,
)
    requires
        expires_leases(before, after, now_ns, Ok(number)),
    ensures
        number == how_many(
            before.retention_leases@,
            |lease: Retention| lease.state == RetentionState::Active && lease.expires_ns <= now_ns,
        ),
{
    assert(run_out(now_ns) =~= |lease: Retention|
        lease.state == RetentionState::Active && lease.expires_ns <= now_ns);
}

/// Moving a floor tells how many revisions went.
pub proof fn law_reclaimed_revisions_are_counted(
    before: Store,
    after: Store,
    watch_id: [u8; 16],
    new_floor: i64,
    now_ns: i64,
    owner: [u8; 16],
    report: RevisionReport,
    number: usize,
)
    requires
        moves_floor(before, after, watch_id, new_floor, now_ns, owner, report, Ok(number)),
    ensures
        before.revisions@.len() == after.revisions@.len() + number,
{
    if row(before.watches@, watch_id)->0.replay_floor_seq != Some(new_floor) {
        let revision_id = row(before.watches@, watch_id)->0.indexed_revision_id->0;
        let middle = choose|middle: Store| #[trigger]
            compacts(before, middle, revision_id, owner, report.digest->Ok_0) && truncates(
                middle,
                after,
                watch_id,
                new_floor,
                now_ns,
            ) && number == middle.revisions@.len() - after.revisions@.len();
        lemma_slot(before.revisions@, revision_id, 0);
        lemma_chain_stored(before.revisions@, revision_id, 0);
    }
}

} // verus!
