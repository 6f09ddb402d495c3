//! What a new manager process does with what an earlier one left behind.

use crate::digest::{all_drawn, random_id};
use crate::manager::facade::unbound;
use crate::manager::history::{comparisons_distinct, lemma_distinct_changed, HISTORICAL_VERSION};
use crate::manager::queries::{
    chosen, comparison_pins_of, release_queries, released, revision_pins_of, QueryChoice,
};
use crate::manager::rows::{
    Admission, AdmissionState, Comparison, ComparisonState, DeleteOperation, DeleteState,
    FsmonitorState, Grant, Operation, OperationKind, OperationState, PhysicalState, Pin, PinOwner,
    QueryLease, QueryState, Snapshot, Store, TopologyLease, Trigger, Watch, WatchState, Worktree,
    WorktreeState,
};
use crate::manager::table::{any, change, changing, count, remove, removing, some, tally};
use crate::manager::types::{fence_after, holds, next_fence, ManagerError, RecoveryReport};
use crate::text::same_array;
use vstd::prelude::*;

verus! {

/// Which planned operations are to be cancelled.
#[derive(Clone, Copy, Debug, Eq, PartialEq)]
pub enum PlanChoice {
    All,
    /// Those of the watch under the grant.
    Grant([u8; 16], [u8; 16]),
}

/// The planned operations that are chosen.
pub open spec fn planned(choice: PlanChoice) -> spec_fn(Operation) -> bool {
    |operation: Operation|
        operation.state == OperationState::Planned && match choice {
            PlanChoice::All => true,
            PlanChoice::Grant(watch_id, authorization_id) => operation.watch_id == watch_id
                && operation.authorization_id == authorization_id,
        }
}

/// The chosen operation with the identifier.
pub open spec fn planned_with(choice: PlanChoice, id: [u8; 16]) -> spec_fn(Operation) -> bool {
    |operation: Operation| planned(choice)(operation) && operation.id == id
}

/// The chosen worktree operation with the identifier.
pub open spec fn planned_worktree(choice: PlanChoice, id: [u8; 16]) -> spec_fn(Operation) -> bool {
    |operation: Operation|
        planned(choice)(operation) && operation.id == id && operation.kind
            == OperationKind::Worktree
}

/// The chosen cuts of a watch that are held by the owner.
pub open spec fn planned_cut(choice: PlanChoice, watch_id: [u8; 16], owner: [u8; 16]) -> spec_fn(
    Operation,
) -> bool {
    |operation: Operation|
        planned(choice)(operation) && operation.kind == OperationKind::Cut && operation.watch_id
            == watch_id && operation.lease_owner == Some(owner)
}

/// The chosen operations that are given up. A grant's operation that
/// initializes its own watch is not.
pub open spec fn cancelled(choice: PlanChoice) -> spec_fn(Operation) -> bool {
    |operation: Operation|
        planned(choice)(operation) && (choice is All || operation.kind
            != OperationKind::Initialize)
}

/// Frees the watches from cuts that are given up.
pub open spec fn cut_freed(operations: Seq<Operation>, choice: PlanChoice) -> spec_fn(
    Watch,
) -> Watch {
    |watch: Watch|
        if watch.cut_owner matches Some(owner) && some(
            operations,
            planned_cut(choice, watch.id, owner),
        ) {
            Watch { cut_owner: None, cut_expires_ns: None, ..watch }
        } else {
            watch
        }
}

/// The pins of chosen operations.
pub open spec fn planned_pins(operations: Seq<Operation>, choice: PlanChoice) -> spec_fn(
    Pin,
) -> bool {
    |pin: Pin|
        match pin.owner {
            PinOwner::Operation(id) => some(operations, planned_with(choice, id)),
            _ => false,
        }
}

/// The admissions to chosen operations.
pub open spec fn planned_admissions(operations: Seq<Operation>, choice: PlanChoice) -> spec_fn(
    Admission,
) -> bool {
    |admission: Admission| some(operations, planned_with(choice, admission.operation_id))
}

/// The worktrees that chosen operations were to create.
pub open spec fn planned_worktrees(operations: Seq<Operation>, choice: PlanChoice) -> spec_fn(
    Worktree,
) -> bool {
    |worktree: Worktree|
        worktree.state == WorktreeState::Creating && some(
            operations,
            planned_worktree(choice, worktree.operation_id),
        )
}

impl PlanChoice {
    fn takes(&self, operation: &Operation) -> (taken: bool)
        ensures
            taken == planned(*self)(*operation),
    {
        operation.state == OperationState::Planned && match self {
            PlanChoice::All => true,
            PlanChoice::Grant(watch_id, authorization_id) => same_array(
                &operation.watch_id,
                watch_id,
            ) && same_array(&operation.authorization_id, authorization_id),
        }
    }

    fn takes_id(&self, operations: &Vec<Operation>, id: &[u8; 16]) -> (taken: bool)
        ensures
            taken == some(operations@, planned_with(*self, *id)),
    {
        let test = |operation: &Operation| -> (picked: bool)
            ensures
                picked == planned_with(*self, *id)(*operation),
            { self.takes(operation) && same_array(&operation.id, id) };
        any(operations, test, Ghost(planned_with(*self, *id)))
    }

    fn takes_worktree(&self, operations: &Vec<Operation>, id: &[u8; 16]) -> (taken: bool)
        ensures
            taken == some(operations@, planned_worktree(*self, *id)),
    {
        let test = |operation: &Operation| -> (picked: bool)
            ensures
                picked == planned_worktree(*self, *id)(*operation),
            {
                self.takes(operation) && same_array(&operation.id, id) && operation.kind
                    == OperationKind::Worktree
            };
        any(operations, test, Ghost(planned_worktree(*self, *id)))
    }

    fn takes_cut(&self, operations: &Vec<Operation>, watch_id: &[u8; 16], owner: &[u8; 16]) -> (
    taken: bool)
        ensures
            taken == some(operations@, planned_cut(*self, *watch_id, *owner)),
    {
        let test = |operation: &Operation| -> (picked: bool)
            ensures
                picked == planned_cut(*self, *watch_id, *owner)(*operation),
            {
                self.takes(operation) && operation.kind == OperationKind::Cut && same_array(
                    &operation.watch_id,
                    watch_id,
                ) && holds(&operation.lease_owner, owner)
            };
        any(operations, test, Ghost(planned_cut(*self, *watch_id, *owner)))
    }
}

/// Gives up the chosen planned operations, and what was reserved for them.
pub fn cancel_planned(
    watches: &mut Vec<Watch>,
    pins: &mut Vec<Pin>,
    admissions: &mut Vec<Admission>,
    worktrees: &mut Vec<Worktree>,
    operations: &mut Vec<Operation>,
    choice: &PlanChoice,
)
    ensures
        final(watches)@ == changing(old(watches)@, cut_freed(old(operations)@, *choice)),
        final(pins)@ == removing(old(pins)@, planned_pins(old(operations)@, *choice)),
        final(admissions)@ == removing(
            old(admissions)@,
            planned_admissions(old(operations)@, *choice),
        ),
        final(worktrees)@ == removing(
            old(worktrees)@,
            planned_worktrees(old(operations)@, *choice),
        ),
        final(operations)@ == removing(old(operations)@, cancelled(*choice)),
{
    let ghost before = operations@;
    let held: &Vec<Operation> = operations;
    let apply = |watch: Watch| -> (after: Watch)
        ensures
            after == cut_freed(held@, *choice)(watch),
        {
            let freed: bool = match &watch.cut_owner {
                Some(owner) => choice.takes_cut(held, &watch.id, owner),
                None => false,
            };
            if freed {
                Watch { cut_owner: None, cut_expires_ns: None, ..watch }
            } else {
                watch
            }
        };
    change(watches, apply, Ghost(cut_freed(before, *choice)));
    let test = |pin: &Pin| -> (picked: bool)
        ensures
            picked == planned_pins(held@, *choice)(*pin),
        {
            match &pin.owner {
                PinOwner::Operation(id) => choice.takes_id(held, id),
                _ => false,
            }
        };
    remove(pins, test, Ghost(planned_pins(before, *choice)));
    let test = |admission: &Admission| -> (picked: bool)
        ensures
            picked == planned_admissions(held@, *choice)(*admission),
        { choice.takes_id(held, &admission.operation_id) };
    remove(admissions, test, Ghost(planned_admissions(before, *choice)));
    let test = |worktree: &Worktree| -> (picked: bool)
        ensures
            picked == planned_worktrees(held@, *choice)(*worktree),
        {
            worktree.state == WorktreeState::Creating && choice.takes_worktree(
                held,
                &worktree.operation_id,
            )
        };
    remove(worktrees, test, Ghost(planned_worktrees(before, *choice)));
    let test = |operation: &Operation| -> (picked: bool)
        ensures
            picked == cancelled(*choice)(*operation),
        {
            choice.takes(operation) && (match choice {
                PlanChoice::All => true,
                _ => false,
            } || operation.kind != OperationKind::Initialize)
        };
    remove(operations, test, Ghost(cancelled(*choice)));
}

/// Gives up the admissions that waited until they ran out.
pub open spec fn waited_out(now_ns: i64) -> spec_fn(Admission) -> Admission {
    |admission: Admission|
        if admission.state == AdmissionState::Waiting && admission.expires_ns <= now_ns {
            Admission { state: AdmissionState::Abandoned, ..admission }
        } else {
            admission
        }
}

/// The operations on a watch.
pub open spec fn operations_on(watch_id: [u8; 16]) -> spec_fn(Operation) -> bool {
    |operation: Operation| operation.watch_id == watch_id
}

/// The watches that no operation initializes any more.
pub open spec fn orphaned(operations: Seq<Operation>) -> spec_fn(Watch) -> bool {
    |watch: Watch|
        watch.state == WatchState::Initializing && !some(operations, operations_on(watch.id))
}

/// The orphaned watch with the identifier.
pub open spec fn orphaned_with(operations: Seq<Operation>, id: [u8; 16]) -> spec_fn(Watch) -> bool {
    |watch: Watch| orphaned(operations)(watch) && watch.id == id
}

/// The grants on orphaned watches.
pub open spec fn orphaned_grants(watches: Seq<Watch>, operations: Seq<Operation>) -> spec_fn(
    Grant,
) -> bool {
    |grant: Grant| some(watches, orphaned_with(operations, grant.watch_id))
}

/// The deletions that did not begin.
pub open spec fn planned_delete() -> spec_fn(DeleteOperation) -> bool {
    |operation: DeleteOperation| operation.state == DeleteState::Planned
}

/// The deletions of the snapshot that did not begin.
pub open spec fn planned_delete_of(snapshot_id: i64) -> spec_fn(DeleteOperation) -> bool {
    |operation: DeleteOperation|
        operation.state == DeleteState::Planned && operation.snapshot_id == snapshot_id
}

/// Brings back the snapshots whose deletion did not begin.
pub open spec fn brought_back(deletes: Seq<DeleteOperation>) -> spec_fn(Snapshot) -> Snapshot {
    |snapshot: Snapshot|
        if snapshot.physical_state == PhysicalState::Deleting && some(
            deletes,
            planned_delete_of(snapshot.id),
        ) {
            Snapshot { physical_state: PhysicalState::Present, ..snapshot }
        } else {
            snapshot
        }
}

/// Frees the topology leases that have run out.
pub open spec fn topology_freed(now_ns: i64) -> spec_fn(TopologyLease) -> TopologyLease {
    |lease: TopologyLease|
        if lease.lease_owner is Some && (lease.lease_expires_ns matches Some(expires) && expires
            <= now_ns) {
            TopologyLease { lease_owner: None, lease_expires_ns: None, ..lease }
        } else {
            lease
        }
}

/// What giving up every planned operation makes of the store.
pub open spec fn aborts_planned(before: Store, after: Store, now_ns: i64) -> bool {
    let watches = changing(before.watches@, cut_freed(before.operations@, PlanChoice::All));
    let operations = removing(before.operations@, cancelled(PlanChoice::All));
    &&& after == (Store {
        watches: after.watches,
        grants: after.grants,
        operations: after.operations,
        snapshots: after.snapshots,
        pins: after.pins,
        admissions: after.admissions,
        worktrees: after.worktrees,
        delete_operations: after.delete_operations,
        topology_leases: after.topology_leases,
        ..before
    })
    &&& after.admissions@ == removing(
        changing(before.admissions@, waited_out(now_ns)),
        planned_admissions(before.operations@, PlanChoice::All),
    )
    &&& after.pins@ == removing(before.pins@, planned_pins(before.operations@, PlanChoice::All))
    &&& after.worktrees@ == removing(
        before.worktrees@,
        planned_worktrees(before.operations@, PlanChoice::All),
    )
    &&& after.operations@ == operations
    &&& after.grants@ == removing(before.grants@, orphaned_grants(watches, operations))
    &&& after.watches@ == removing(watches, orphaned(operations))
    &&& after.snapshots@ == changing(before.snapshots@, brought_back(before.delete_operations@))
    &&& after.delete_operations@ == removing(before.delete_operations@, planned_delete())
    &&& after.topology_leases@ == changing(before.topology_leases@, topology_freed(now_ns))
}

fn is_orphaned(operations: &Vec<Operation>, watch: &Watch) -> (is_orphaned: bool)
    ensures
        is_orphaned == orphaned(operations@)(*watch),
{
    let test = |operation: &Operation| -> (picked: bool)
        ensures
            picked == operations_on(watch.id)(*operation),
        { same_array(&operation.watch_id, &watch.id) };
    watch.state == WatchState::Initializing && !any(
        operations,
        test,
        Ghost(operations_on(watch.id)),
    )
}

fn has_orphaned(watches: &Vec<Watch>, operations: &Vec<Operation>, id: &[u8; 16]) -> (found: bool)
    ensures
        found == some(watches@, orphaned_with(operations@, *id)),
{
    let test = |watch: &Watch| -> (picked: bool)
        ensures
            picked == orphaned_with(operations@, *id)(*watch),
        { is_orphaned(operations, watch) && same_array(&watch.id, id) };
    any(watches, test, Ghost(orphaned_with(operations@, *id)))
}

fn has_planned_delete(deletes: &Vec<DeleteOperation>, snapshot_id: i64) -> (found: bool)
    ensures
        found == some(deletes@, planned_delete_of(snapshot_id)),
{
    let test = |operation: &DeleteOperation| -> (picked: bool)
        ensures
            picked == planned_delete_of(snapshot_id)(*operation),
        { operation.state == DeleteState::Planned && operation.snapshot_id == snapshot_id };
    any(deletes, test, Ghost(planned_delete_of(snapshot_id)))
}

/// The operations whose effect began and that are not settled.
pub open spec fn in_flight() -> spec_fn(Operation) -> bool {
    |operation: Operation|
        operation.state != OperationState::Planned && operation.state != OperationState::Done
            && operation.state != OperationState::Failed
}

/// The deletions that began and are not settled.
pub open spec fn deleting_in_flight() -> spec_fn(DeleteOperation) -> bool {
    |operation: DeleteOperation|
        operation.state != DeleteState::Planned && operation.state != DeleteState::Done
            && operation.state != DeleteState::Failed
}

/// The cuts of the watch that began under the owner.
pub open spec fn cut_in_flight(watch_id: [u8; 16], owner: [u8; 16]) -> spec_fn(Operation) -> bool {
    |operation: Operation|
        operation.watch_id == watch_id && operation.kind == OperationKind::Cut && in_flight()(
            operation,
        ) && operation.lease_owner == Some(owner)
}

/// The topology changes of the filesystem that began under the owner.
pub open spec fn topology_in_flight(filesystem_id: i64, owner: [u8; 16]) -> spec_fn(
    Operation,
) -> bool {
    |operation: Operation|
        operation.filesystem_id == filesystem_id && operation.kind != OperationKind::Cut
            && in_flight()(operation) && operation.lease_owner == Some(owner)
}

/// Hands the cuts that began to the owner.
pub open spec fn cut_taken(operations: Seq<Operation>, owner: [u8; 16], expires_ns: i64) -> spec_fn(
    Watch,
) -> Watch {
    |watch: Watch|
        if watch.cut_owner matches Some(former) && some(
            operations,
            cut_in_flight(watch.id, former),
        ) {
            Watch { cut_owner: Some(owner), cut_expires_ns: Some(expires_ns), ..watch }
        } else {
            watch
        }
}

/// Hands the topology changes that began to the owner.
pub open spec fn topology_taken(
    operations: Seq<Operation>,
    owner: [u8; 16],
    expires_ns: i64,
) -> spec_fn(TopologyLease) -> TopologyLease {
    |lease: TopologyLease|
        if lease.lease_owner matches Some(former) && some(
            operations,
            topology_in_flight(lease.filesystem_id, former),
        ) {
            TopologyLease {
                lease_owner: Some(owner),
                lease_expires_ns: Some(expires_ns),
                ..lease
            }
        } else {
            lease
        }
}

/// Hands the operations that began to the owner.
pub open spec fn operation_taken(owner: [u8; 16], expires_ns: i64) -> spec_fn(
    Operation,
) -> Operation {
    |operation: Operation|
        if in_flight()(operation) {
            Operation {
                lease_owner: Some(owner),
                lease_expires_ns: Some(expires_ns),
                ..operation
            }
        } else {
            operation
        }
}

/// Hands the deletions that began to the owner.
pub open spec fn delete_taken(owner: [u8; 16], expires_ns: i64) -> spec_fn(
    DeleteOperation,
) -> DeleteOperation {
    |operation: DeleteOperation|
        if deleting_in_flight()(operation) {
            DeleteOperation {
                lease_owner: Some(owner),
                lease_expires_ns: Some(expires_ns),
                ..operation
            }
        } else {
            operation
        }
}

fn is_in_flight(operation: &Operation) -> (is_in_flight: bool)
    ensures
        is_in_flight == in_flight()(*operation),
{
    operation.state != OperationState::Planned && operation.state != OperationState::Done
        && operation.state != OperationState::Failed
}

fn is_deleting_in_flight(operation: &DeleteOperation) -> (is_in_flight: bool)
    ensures
        is_in_flight == deleting_in_flight()(*operation),
{
    operation.state != DeleteState::Planned && operation.state != DeleteState::Done
        && operation.state != DeleteState::Failed
}

fn has_cut_in_flight(operations: &Vec<Operation>, watch_id: &[u8; 16], owner: &[u8; 16]) -> (found:
    bool)
    ensures
        found == some(operations@, cut_in_flight(*watch_id, *owner)),
{
    let test = |operation: &Operation| -> (picked: bool)
        ensures
            picked == cut_in_flight(*watch_id, *owner)(*operation),
        {
            same_array(&operation.watch_id, watch_id) && operation.kind == OperationKind::Cut
                && is_in_flight(operation) && holds(&operation.lease_owner, owner)
        };
    any(operations, test, Ghost(cut_in_flight(*watch_id, *owner)))
}

fn has_topology_in_flight(operations: &Vec<Operation>, filesystem_id: i64, owner: &[u8; 16]) -> (
found: bool)
    ensures
        found == some(operations@, topology_in_flight(filesystem_id, *owner)),
{
    let test = |operation: &Operation| -> (picked: bool)
        ensures
            picked == topology_in_flight(filesystem_id, *owner)(*operation),
        {
            operation.filesystem_id == filesystem_id && operation.kind != OperationKind::Cut
                && is_in_flight(operation) && holds(&operation.lease_owner, owner)
        };
    any(operations, test, Ghost(topology_in_flight(filesystem_id, *owner)))
}

/// The watches that have a facade.
pub open spec fn faced() -> spec_fn(Watch) -> bool {
    |watch: Watch| watch.fsmonitor_state != FsmonitorState::Disabled
}

/// The watches without a facade, each that had one under the next epoch.
pub open spec fn refaced(watches: Seq<Watch>, epochs: Seq<[u8; 16]>) -> Seq<Watch>
    decreases watches.len(),
{
    if watches.len() == 0 {
        Seq::empty()
    } else {
        let front = watches.drop_last();
        let watch = watches.last();
        refaced(front, epochs).push(
            if faced()(watch) {
                unbound(watch, epochs[tally(front, faced()) as int])
            } else {
                watch
            },
        )
    }
}

/// The triggers that run.
pub open spec fn running() -> spec_fn(Trigger) -> bool {
    |trigger: Trigger| trigger.run_owner is Some
}

/// Ends the runs of triggers.
pub open spec fn reclaimed() -> spec_fn(Trigger) -> Trigger {
    |trigger: Trigger|
        if running()(trigger) {
            Trigger {
                run_owner: None,
                run_expires_ns: None,
                run_fence: fence_after(trigger.run_fence),
                ..trigger
            }
        } else {
            trigger
        }
}

/// The claimed comparisons between retained snapshots.
pub open spec fn claimed() -> spec_fn(Comparison) -> bool {
    |comparison: Comparison|
        comparison.algorithm_version == HISTORICAL_VERSION && comparison.state
            == ComparisonState::Claimed
}

/// Those whose number cannot own a pin.
pub open spec fn claimed_negative() -> spec_fn(Comparison) -> bool {
    |comparison: Comparison| claimed()(comparison) && comparison.id < 0
}

/// The claimed comparison with the number.
pub open spec fn claimed_with(id: i64) -> spec_fn(Comparison) -> bool {
    |comparison: Comparison| claimed()(comparison) && comparison.id == id
}

/// The pins of claimed comparisons.
pub open spec fn claimed_pins(comparisons: Seq<Comparison>) -> spec_fn(Pin) -> bool {
    |pin: Pin|
        match pin.owner {
            PinOwner::Comparison(id) => some(comparisons, claimed_with(id)),
            _ => false,
        }
}

/// Gives up the claimed comparisons.
pub open spec fn unclaimed() -> spec_fn(Comparison) -> Comparison {
    |comparison: Comparison|
        if claimed()(comparison) {
            Comparison {
                state: ComparisonState::Failed,
                lease_owner: None,
                lease_expires_ns: None,
                lease_fence: fence_after(comparison.lease_fence),
                ..comparison
            }
        } else {
            comparison
        }
}

/// What recovering with the epochs does.
pub open spec fn recovers(
    before: Store,
    after: Store,
    current_boot_id: [u8; 16],
    epochs: Seq<[u8; 16]>,
    recovered: Result<RecoveryReport, ManagerError>,
) -> bool {
    if some(before.comparisons@, claimed_negative()) {
        &&& after == before
        &&& recovered matches Err(error)
        &&& error@ == "comparison ID is negative"@
    } else {
        &&& after == (Store {
            last_boot_id: current_boot_id,
            watches: after.watches,
            pins: after.pins,
            comparisons: after.comparisons,
            query_leases: after.query_leases,
            revision_pins: after.revision_pins,
            comparison_pins: after.comparison_pins,
            triggers: after.triggers,
            ..before
        })
        &&& after.query_leases@ == changing(before.query_leases@, released(QueryChoice::All))
        &&& after.revision_pins@ == removing(
            before.revision_pins@,
            revision_pins_of(before.query_leases@, QueryChoice::All),
        )
        &&& after.comparison_pins@ == removing(
            before.comparison_pins@,
            comparison_pins_of(before.query_leases@, QueryChoice::All),
        )
        &&& after.triggers@ == changing(before.triggers@, reclaimed())
        &&& after.pins@ == removing(before.pins@, claimed_pins(before.comparisons@))
        &&& after.comparisons@ == changing(before.comparisons@, unclaimed())
        &&& after.watches@ == refaced(before.watches@, epochs)
        &&& recovered matches Ok(report)
        &&& report.invalidated_facades == tally(before.watches@, faced())
        &&& report.released_queries == tally(before.query_leases@, chosen(QueryChoice::All))
        &&& report.reclaimed_trigger_runs == tally(before.triggers@, running())
        &&& report.abandoned_historical_comparisons == tally(before.comparisons@, claimed())
        &&& report.boot_changed == (before.last_boot_id != current_boot_id)
    }
}

fn is_claimed(comparison: &Comparison) -> (is_claimed: bool)
    ensures
        is_claimed == claimed()(*comparison),
{
    comparison.algorithm_version == HISTORICAL_VERSION && comparison.state
        == ComparisonState::Claimed
}

fn has_claimed(comparisons: &Vec<Comparison>, id: i64) -> (found: bool)
    ensures
        found == some(comparisons@, claimed_with(id)),
{
    let test = |comparison: &Comparison| -> (picked: bool)
        ensures
            picked == claimed_with(id)(*comparison),
        { is_claimed(comparison) && comparison.id == id };
    any(comparisons, test, Ghost(claimed_with(id)))
}

fn count_faced(watches: &Vec<Watch>) -> (number: usize)
    ensures
        number == tally(watches@, faced()),
{
    let test = |watch: &Watch| -> (picked: bool)
        ensures
            picked == faced()(*watch),
        { watch.fsmonitor_state != FsmonitorState::Disabled };
    count(watches, test, Ghost(faced()))
}

fn drop_facades(watches: &mut Vec<Watch>, epochs: &Vec<[u8; 16]>)
    requires
        epochs@.len() == tally(old(watches)@, faced()),
    ensures
        final(watches)@ == refaced(old(watches)@, epochs@),
{
    let ghost before = watches@;
    let mut next: usize = 0;
    let mut at: usize = 0;
    proof {
        reveal(Seq::filter);
        assert(before.take(0) =~= Seq::empty());
        assert(watches@ =~= refaced(before.take(0), epochs@) + before.skip(0));
    }
    while at < watches.len()
        invariant
            at <= watches@.len(),
            watches@.len() == before.len(),
            epochs@.len() == tally(before, faced()),
            next == tally(before.take(at as int), faced()),
            refaced(before.take(at as int), epochs@).len() == at,
            watches@ == refaced(before.take(at as int), epochs@) + before.skip(at as int),
        decreases watches.len() - at,
    {
        let ghost front = before.take(at as int);
        let ghost done = refaced(front, epochs@);
        proof {
            reveal(Seq::filter);
            assert(before.take(at + 1).drop_last() =~= front);
            assert(before.take(at + 1).last() == before[at as int]);
            assert(watches@[at as int] == before[at as int]);
        }
        if watches[at].fsmonitor_state != FsmonitorState::Disabled {
            proof {
                lemma_tally_rises(before, faced(), at as int);
            }
            watches[at].clock_epoch = epochs[next];
            watches[at].view = None;
            watches[at].guard = None;
            watches[at].fsmonitor_state = FsmonitorState::Disabled;
            next += 1;
            assert(watches@[at as int] == unbound(before[at as int], epochs@[next - 1]));
        }
        assert(watches@ =~= refaced(before.take(at + 1), epochs@) + before.skip(at + 1));
        at += 1;
    }
    assert(before.take(at as int) =~= before);
    assert(watches@ =~= refaced(before, epochs@));
}

/// A picked row counts beyond those before it.
proof fn lemma_tally_rises<T>(rows: Seq<T>, picks: spec_fn(T) -> bool, at: int)
    requires
        0 <= at < rows.len(),
        picks(rows[at]),
    ensures
        tally(rows.take(at), picks) < tally(rows, picks),
    decreases rows.len() - at,
{
    reveal(Seq::filter);
    assert(rows.take(at + 1).drop_last() =~= rows.take(at));
    assert(rows.take(at + 1).last() == rows[at]);
    lemma_tally_grows(rows, picks, at + 1);
}

proof fn lemma_tally_grows<T>(rows: Seq<T>, picks: spec_fn(T) -> bool, n: int)
    requires
        0 <= n <= rows.len(),
    ensures
        tally(rows.take(n), picks) <= tally(rows, picks),
    decreases rows.len() - n,
{
    reveal(Seq::filter);
    if n < rows.len() {
        lemma_tally_grows(rows, picks, n + 1);
        assert(rows.take(n + 1).drop_last() =~= rows.take(n));
    } else {
        assert(rows.take(n) =~= rows);
    }
}

/// What [`Store::takeover_recovery_leases`] does.
pub open spec fn takes_over(
    before: Store,
    after: Store,
    new_owner: [u8; 16],
    lease_expires_ns: i64,
    taken: Result<usize, ManagerError>,
) -> bool {
    &&& after == (Store {
        watches: after.watches,
        topology_leases: after.topology_leases,
        operations: after.operations,
        delete_operations: after.delete_operations,
        ..before
    })
    &&& after.watches@ =~= changing(
        before.watches@,
        cut_taken(before.operations@, new_owner, lease_expires_ns),
    )
    &&& after.topology_leases@ =~= changing(
        before.topology_leases@,
        topology_taken(before.operations@, new_owner, lease_expires_ns),
    )
    &&& after.operations@ =~= changing(
        before.operations@,
        operation_taken(new_owner, lease_expires_ns),
    )
    &&& after.delete_operations@ =~= changing(
        before.delete_operations@,
        delete_taken(new_owner, lease_expires_ns),
    )
    &&& ({
        let total = tally(before.operations@, in_flight()) + tally(
            before.delete_operations@,
            deleting_in_flight(),
        );
        match taken {
            Ok(number) => number == total,
            Err(error) => total > usize::MAX && error@
                == "recovery lease count overflow"@,
        }
    })
}

/// What [`Store::abort_planned_operations`] does.
pub open spec fn aborts_operations(
    before: Store,
    after: Store,
    now_ns: i64,
    aborted: Result<usize, ManagerError>,
) -> bool {
    &&& aborts_planned(before, after, now_ns)
    &&& ({
        let total = tally(before.operations@, planned(PlanChoice::All)) + tally(
            before.delete_operations@,
            planned_delete(),
        );
        match aborted {
            Ok(number) => number == total,
            Err(error) => total > usize::MAX && error@
                == "abandoned operation count overflow"@,
        }
    })
}

impl Store {
    /// Gives up the operations whose effect did not begin. The caller has made
    /// sure that no request of an earlier process can still begin one.
    pub fn abort_planned_operations(&mut self, now_ns: i64) -> (aborted: Result<
        usize,
        ManagerError,
    >)
        ensures
            aborts_operations(*old(self), *final(self), now_ns, aborted),
            old(self).well_formed() ==> final(self).well_formed(),
    {
        let apply = |admission: Admission| -> (after: Admission)
            ensures
                after == waited_out(now_ns)(admission),
            {
                if admission.state == AdmissionState::Waiting && admission.expires_ns <= now_ns {
                    Admission { state: AdmissionState::Abandoned, ..admission }
                } else {
                    admission
                }
            };
        change(&mut self.admissions, apply, Ghost(waited_out(now_ns)));
        let choice = PlanChoice::All;
        let test = |operation: &Operation| -> (picked: bool)
            ensures
                picked == planned(PlanChoice::All)(*operation),
            { operation.state == OperationState::Planned };
        let operations: usize = count(&self.operations, test, Ghost(planned(PlanChoice::All)));
        let test = |operation: &DeleteOperation| -> (picked: bool)
            ensures
                picked == planned_delete()(*operation),
            { operation.state == DeleteState::Planned };
        let deletes: usize = count(&self.delete_operations, test, Ghost(planned_delete()));
        cancel_planned(
            &mut self.watches,
            &mut self.pins,
            &mut self.admissions,
            &mut self.worktrees,
            &mut self.operations,
            &choice,
        );
        let held = &self.operations;
        let watches = &self.watches;
        let test = |grant: &Grant| -> (picked: bool)
            ensures
                picked == orphaned_grants(watches@, held@)(*grant),
            { has_orphaned(watches, held, &grant.watch_id) };
        remove(
            &mut self.grants,
            test,
            Ghost(orphaned_grants(self.watches@, self.operations@)),
        );
        let held = &self.operations;
        let test = |watch: &Watch| -> (picked: bool)
            ensures
                picked == orphaned(held@)(*watch),
            { is_orphaned(held, watch) };
        remove(&mut self.watches, test, Ghost(orphaned(self.operations@)));
        let held = &self.delete_operations;
        let apply = |snapshot: Snapshot| -> (after: Snapshot)
            ensures
                after == brought_back(held@)(snapshot),
            {
                if snapshot.physical_state == PhysicalState::Deleting && has_planned_delete(
                    held,
                    snapshot.id,
                ) {
                    Snapshot { physical_state: PhysicalState::Present, ..snapshot }
                } else {
                    snapshot
                }
            };
        change(&mut self.snapshots, apply, Ghost(brought_back(self.delete_operations@)));
        let test = |operation: &DeleteOperation| -> (picked: bool)
            ensures
                picked == planned_delete()(*operation),
            { operation.state == DeleteState::Planned };
        remove(&mut self.delete_operations, test, Ghost(planned_delete()));
        let apply = |lease: TopologyLease| -> (after: TopologyLease)
            ensures
                after == topology_freed(now_ns)(lease),
            {
                let out: bool = match lease.lease_expires_ns {
                    Some(expires) => expires <= now_ns,
                    None => false,
                };
                if lease.lease_owner.is_some() && out {
                    TopologyLease { lease_owner: None, lease_expires_ns: None, ..lease }
                } else {
                    lease
                }
            };
        change(&mut self.topology_leases, apply, Ghost(topology_freed(now_ns)));
        match operations.checked_add(deletes) {
            Some(total) => Ok(total),
            None => Err(ManagerError::new("abandoned operation count overflow")),
        }
    }

    /// Hands what an earlier process began to a new owner. The fences stay, so
    /// that an effect that began can still be matched to its operation.
    pub fn takeover_recovery_leases(&mut self, new_owner: [u8; 16], lease_expires_ns: i64) -> (taken:
        Result<usize, ManagerError>)
        ensures
            takes_over(*old(self), *final(self), new_owner, lease_expires_ns, taken),
            old(self).well_formed() ==> final(self).well_formed(),
    {
        let held = &self.operations;
        let apply = |watch: Watch| -> (after: Watch)
            ensures
                after == cut_taken(held@, new_owner, lease_expires_ns)(watch),
            {
                let begun: bool = match &watch.cut_owner {
                    Some(former) => has_cut_in_flight(held, &watch.id, former),
                    None => false,
                };
                if begun {
                    Watch {
                        cut_owner: Some(new_owner),
                        cut_expires_ns: Some(lease_expires_ns),
                        ..watch
                    }
                } else {
                    watch
                }
            };
        change(
            &mut self.watches,
            apply,
            Ghost(cut_taken(self.operations@, new_owner, lease_expires_ns)),
        );
        let held = &self.operations;
        let apply = |lease: TopologyLease| -> (after: TopologyLease)
            ensures
                after == topology_taken(held@, new_owner, lease_expires_ns)(lease),
            {
                let begun: bool = match &lease.lease_owner {
                    Some(former) => has_topology_in_flight(held, lease.filesystem_id, former),
                    None => false,
                };
                if begun {
                    TopologyLease {
                        lease_owner: Some(new_owner),
                        lease_expires_ns: Some(lease_expires_ns),
                        ..lease
                    }
                } else {
                    lease
                }
            };
        change(
            &mut self.topology_leases,
            apply,
            Ghost(topology_taken(self.operations@, new_owner, lease_expires_ns)),
        );
        let test = |operation: &Operation| -> (picked: bool)
            ensures
                picked == in_flight()(*operation),
            { is_in_flight(operation) };
        let operations: usize = count(&self.operations, test, Ghost(in_flight()));
        let apply = |operation: Operation| -> (after: Operation)
            ensures
                after == operation_taken(new_owner, lease_expires_ns)(operation),
            {
                if is_in_flight(&operation) {
                    Operation {
                        lease_owner: Some(new_owner),
                        lease_expires_ns: Some(lease_expires_ns),
                        ..operation
                    }
                } else {
                    operation
                }
            };
        change(
            &mut self.operations,
            apply,
            Ghost(operation_taken(new_owner, lease_expires_ns)),
        );
        let test = |operation: &DeleteOperation| -> (picked: bool)
            ensures
                picked == deleting_in_flight()(*operation),
            { is_deleting_in_flight(operation) };
        let deletes: usize = count(&self.delete_operations, test, Ghost(deleting_in_flight()));
        let apply = |operation: DeleteOperation| -> (after: DeleteOperation)
            ensures
                after == delete_taken(new_owner, lease_expires_ns)(operation),
            {
                if is_deleting_in_flight(&operation) {
                    DeleteOperation {
                        lease_owner: Some(new_owner),
                        lease_expires_ns: Some(lease_expires_ns),
                        ..operation
                    }
                } else {
                    operation
                }
            };
        change(
            &mut self.delete_operations,
            apply,
            Ghost(delete_taken(new_owner, lease_expires_ns)),
        );
        match operations.checked_add(deletes) {
            Some(total) => Ok(total),
            None => Err(ManagerError::new("recovery lease count overflow")),
        }
    }

    /// Ends what belonged to an earlier process, with the epochs for the
    /// facades it takes down.
    pub fn recover_process_state_as(
        &mut self,
        current_boot_id: [u8; 16],
        epochs: &Vec<[u8; 16]>,
    ) -> (recovered: Result<RecoveryReport, ManagerError>)
        requires
            epochs@.len() == tally(old(self).watches@, faced()),
        ensures
            recovers(*old(self), *final(self), current_boot_id, epochs@, recovered),
            old(self).well_formed() ==> final(self).well_formed(),
    {
        let test = |comparison: &Comparison| -> (picked: bool)
            ensures
                picked == claimed_negative()(*comparison),
            { is_claimed(comparison) && comparison.id < 0 };
        if any(&self.comparisons, test, Ghost(claimed_negative())) {
            return Err(ManagerError::new("comparison ID is negative"));
        }
        let boot_changed: bool = !same_array(&self.last_boot_id, &current_boot_id);
        let test = |lease: &QueryLease| -> (picked: bool)
            ensures
                picked == chosen(QueryChoice::All)(*lease),
            { lease.state == QueryState::Active };
        let released_queries: usize = count(
            &self.query_leases,
            test,
            Ghost(chosen(QueryChoice::All)),
        );
        release_queries(
            &mut self.query_leases,
            &mut self.revision_pins,
            &mut self.comparison_pins,
            &QueryChoice::All,
        );
        let test = |trigger: &Trigger| -> (picked: bool)
            ensures
                picked == running()(*trigger),
            { trigger.run_owner.is_some() };
        let reclaimed_trigger_runs: usize = count(&self.triggers, test, Ghost(running()));
        let apply = |trigger: Trigger| -> (after: Trigger)
            ensures
                after == reclaimed()(trigger),
            {
                if trigger.run_owner.is_some() {
                    Trigger {
                        run_owner: None,
                        run_expires_ns: None,
                        run_fence: next_fence(trigger.run_fence),
                        ..trigger
                    }
                } else {
                    trigger
                }
            };
        change(&mut self.triggers, apply, Ghost(reclaimed()));
        let held = &self.comparisons;
        let test = |pin: &Pin| -> (picked: bool)
            ensures
                picked == claimed_pins(held@)(*pin),
            {
                match &pin.owner {
                    PinOwner::Comparison(id) => has_claimed(held, *id),
                    _ => false,
                }
            };
        remove(&mut self.pins, test, Ghost(claimed_pins(self.comparisons@)));
        let test = |comparison: &Comparison| -> (picked: bool)
            ensures
                picked == claimed()(*comparison),
            { is_claimed(comparison) };
        let abandoned_historical_comparisons: usize = count(
            &self.comparisons,
            test,
            Ghost(claimed()),
        );
        let apply = |comparison: Comparison| -> (after: Comparison)
            ensures
                after == unclaimed()(comparison),
            {
                if is_claimed(&comparison) {
                    let lease_fence: i64 = next_fence(comparison.lease_fence);
                    Comparison {
                        state: ComparisonState::Failed,
                        lease_owner: None,
                        lease_expires_ns: None,
                        lease_fence,
                        ..comparison
                    }
                } else {
                    comparison
                }
            };
        let ghost compared = self.comparisons@;
        change(&mut self.comparisons, apply, Ghost(unclaimed()));
        proof {
            if comparisons_distinct(compared) {
                lemma_distinct_changed(compared, self.comparisons@);
            }
        }
        let invalidated_facades: usize = count_faced(&self.watches);
        drop_facades(&mut self.watches, epochs);
        self.last_boot_id = current_boot_id;
        Ok(
            RecoveryReport {
                invalidated_facades,
                released_queries,
                reclaimed_trigger_runs,
                abandoned_historical_comparisons,
                boot_changed,
            },
        )
    }

    /// Ends what belonged to an earlier process: its queries, the runs of its
    /// triggers, the comparisons it claimed and its facades.
    pub fn recover_process_state(&mut self, current_boot_id: [u8; 16]) -> (recovered: Result<
        RecoveryReport,
        ManagerError,
    >)
        ensures
            exists|epochs: Seq<[u8; 16]>|
                all_drawn(epochs) && epochs.len() == tally(old(self).watches@, faced())
                    && #[trigger] recovers(
                    *old(self),
                    *final(self),
                    current_boot_id,
                    epochs,
                    recovered,
                ),
            old(self).well_formed() ==> final(self).well_formed(),
    {
        let facades: usize = count_faced(&self.watches);
        let mut epochs: Vec<[u8; 16]> = Vec::new();
        while epochs.len() < facades
            invariant
                epochs@.len() <= facades,
                all_drawn(epochs@),
            decreases facades - epochs@.len(),
        {
            epochs.push(random_id());
        }
        self.recover_process_state_as(current_boot_id, &epochs)
    }
}

} // verus!
