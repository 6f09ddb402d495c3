//! Letting go of history that no caller may ask for any more.

use crate::manager::compact::{
    checkpoint_fault, compaction, law_compaction_keeps_indexes, read_fault, IndexDigest,
    RevisionReport,
};
use crate::manager::facade::{boundary_at, find_boundary};
use crate::manager::gaps::lemma_cuts_left;
use crate::manager::history::{
    lemma_distinct_changed, lemma_distinct_left, ready_of, HISTORICAL_VERSION,
};
use crate::manager::pins::{is_pinned, pins_to};
use crate::manager::provenance::{
    lemma_provenance_changed, lemma_provenance_left, provenance_stored,
};
use crate::manager::queries::{
    comparison_pins_of, release_queries, released, revision_pins_of, QueryChoice,
};
use crate::manager::reading::lemma_depths_left;
use crate::manager::revisions::{
    chain_from, chain_index_from, depths_sound, revision_index, revision_sound, MAX_DEPTH,
};
use crate::manager::rows::{
    Admission, Boundary, Comparison, ComparisonPin, ComparisonState, GuardJournal, MutationEvent,
    Operation, OperationKind, OperationState, Pin, QueryLease, QueryState, Revision, RevisionPin,
    RevisionState, Store, Watch, WatchCut, WatchState, Worktree,
};
use crate::manager::table::{
    any, changing, find, find_first, first, lemma_first, lemma_place, numbered, place, place_from,
    remove, removing, row, slot_from, some,
};
use crate::manager::types::{GuardCursor, ManagerError};
use crate::text::same_array;
use vstd::prelude::*;

verus! {

/// What a watch replays from, what it is indexed to and its revision there,
/// or why its floor cannot move.
pub open spec fn floor_of(store: Store, watch_id: [u8; 16]) -> Result<(i64, i64, i64), Seq<char>> {
    match row(store.watches@, watch_id) {
        Some(watch) => if watch.state != WatchState::Active && watch.state != WatchState::Blocked {
            Err("replay-floor watch is absent"@)
        } else {
            match (watch.replay_floor_seq, watch.indexed_seq, watch.indexed_revision_id) {
                (None, _, _) => Err(
                    "Invalid column type Null at index: 0, name: replay_floor_seq"@,
                ),
                (_, None, _) => Err("Invalid column type Null at index: 1, name: indexed_seq"@),
                (_, _, None) => Err(
                    "Invalid column type Null at index: 2, name: indexed_revision_id"@,
                ),
                (Some(floor), Some(indexed), Some(revision)) => Ok((floor, indexed, revision)),
            }
        },
        None => Err("replay-floor watch is absent"@),
    }
}

/// Why the floor of a watch cannot move there.
pub open spec fn floor_fault(store: Store, watch_id: [u8; 16], new_floor: i64) -> Option<
    Seq<char>,
> {
    match floor_of(store, watch_id) {
        Err(fault) => Some(fault),
        Ok((floor, indexed, _)) => if new_floor < floor || new_floor > indexed {
            Some("invalid replay-floor advance"@)
        } else {
            None
        },
    }
}

/// The leases that have not run out and read history below the floor.
pub open spec fn protecting(watch_id: [u8; 16], new_floor: i64, now_ns: i64) -> spec_fn(
    QueryLease,
) -> bool {
    |lease: QueryLease|
        lease.watch_id == watch_id && lease.state == QueryState::Active && lease.lease_expires_ns
            > now_ns && (lease.from_cut_sequence matches Some(from) && from < new_floor)
}

/// The leases that read the journal of the epoch from before the event.
pub open spec fn reading_before(watch_id: [u8; 16], cursor: GuardCursor) -> spec_fn(
    QueryLease,
) -> bool {
    |lease: QueryLease|
        lease.watch_id == watch_id && lease.state == QueryState::Active && (
        lease.guard matches Some((epoch, from, _)) && epoch == cursor.epoch && from
            < cursor.sequence)
}

/// Up to where the journal of a watch can be let go with the new floor.
pub open spec fn journal_floor(
    boundaries: Seq<Boundary>,
    leases: Seq<QueryLease>,
    watch: Watch,
    new_floor: i64,
) -> Option<GuardCursor> {
    match first(boundaries, boundary_at(watch.id, new_floor)) {
        Some(at) => match (boundaries[at].guard, watch.guard) {
            (Some(cursor), Some(journal)) => if cursor.epoch == journal.epoch && cursor.sequence
                >= journal.replay_floor_seq && !some(leases, reading_before(watch.id, cursor)) {
                Some(cursor)
            } else {
                None
            },
            _ => None,
        },
        None => None,
    }
}

/// The events of a journal up to the cursor.
pub open spec fn journal_upto(watch_id: [u8; 16], cursor: GuardCursor) -> spec_fn(
    MutationEvent,
) -> bool {
    |event: MutationEvent|
        event.watch_id == watch_id && event.guard_epoch == cursor.epoch && event.sequence
            <= cursor.sequence
}

/// The boundaries of a watch that lie in the journal of the epoch.
pub open spec fn bounds_journal(watch_id: [u8; 16], epoch: [u8; 16]) -> spec_fn(Boundary) -> bool {
    |boundary: Boundary|
        boundary.watch_id == watch_id && (boundary.guard matches Some(cursor) && cursor.epoch
            == epoch)
}

/// The leases on the journal of the epoch.
pub open spec fn leases_journal(watch_id: [u8; 16], epoch: [u8; 16]) -> spec_fn(
    QueryLease,
) -> bool {
    |lease: QueryLease|
        lease.watch_id == watch_id && lease.state == QueryState::Active && (
        lease.guard matches Some((leased, _, _)) && leased == epoch)
}

/// The events of journals that neither a boundary nor a lease needs.
pub open spec fn journal_unneeded(
    boundaries: Seq<Boundary>,
    leases: Seq<QueryLease>,
    watch_id: [u8; 16],
) -> spec_fn(MutationEvent) -> bool {
    |event: MutationEvent|
        event.watch_id == watch_id && !some(
            boundaries,
            bounds_journal(watch_id, event.guard_epoch),
        ) && !some(leases, leases_journal(watch_id, event.guard_epoch))
}

/// The boundaries of a watch below the floor.
pub open spec fn boundaries_below(watch_id: [u8; 16], new_floor: i64) -> spec_fn(
    Boundary,
) -> bool {
    |boundary: Boundary| boundary.watch_id == watch_id && boundary.cut_sequence < new_floor
}

/// The cuts of a watch below the floor.
pub open spec fn cuts_below(watch_id: [u8; 16], new_floor: i64) -> spec_fn(WatchCut) -> bool {
    |cut: WatchCut| cut.watch_id == watch_id && cut.sequence < new_floor
}

/// The cut of a watch below the floor that the operation made.
pub open spec fn cut_below_by(watch_id: [u8; 16], new_floor: i64, id: [u8; 16]) -> spec_fn(
    WatchCut,
) -> bool {
    |cut: WatchCut| cuts_below(watch_id, new_floor)(cut) && cut.operation_id == id
}

/// The admissions to cuts of a watch below the floor.
pub open spec fn admissions_below(
    cuts: Seq<WatchCut>,
    watch_id: [u8; 16],
    new_floor: i64,
) -> spec_fn(Admission) -> bool {
    |admission: Admission|
        some(cuts, cut_below_by(watch_id, new_floor, admission.operation_id))
}

/// The operations that made cuts of a watch below the floor.
pub open spec fn operations_below(watch_id: [u8; 16], new_floor: i64) -> spec_fn(
    Operation,
) -> bool {
    |operation: Operation|
        operation.watch_id == watch_id && operation.kind == OperationKind::Cut && operation.state
            == OperationState::Done && (operation.sequence matches Some(sequence) && sequence
            < new_floor)
}

/// The cuts of a watch up to the floor that have the comparison.
pub open spec fn cut_spends(watch_id: [u8; 16], new_floor: i64, comparison_id: i64) -> spec_fn(
    WatchCut,
) -> bool {
    |cut: WatchCut|
        cut.watch_id == watch_id && cut.sequence <= new_floor && cut.comparison_id == Some(
            comparison_id,
        )
}

/// The leases' pins on the comparison.
pub open spec fn query_pins(comparison_id: i64) -> spec_fn(ComparisonPin) -> bool {
    |pin: ComparisonPin| pin.comparison_id == comparison_id
}

/// Whether what the comparison found can be let go.
pub open spec fn spent(
    cuts: Seq<WatchCut>,
    pins: Seq<ComparisonPin>,
    watch_id: [u8; 16],
    new_floor: i64,
    comparison_id: i64,
) -> bool {
    some(cuts, cut_spends(watch_id, new_floor, comparison_id)) && !some(
        pins,
        query_pins(comparison_id),
    )
}

/// Whether `after` is the comparison `before`, without what it found where
/// that is spent.
pub open spec fn thinned(before: Comparison, after: Comparison, spent: bool) -> bool {
    if spent {
        &&& after == (Comparison {
            objects: after.objects,
            references: after.references,
            events: after.events,
            ..before
        })
        &&& after.objects@.len() == 0
        &&& after.references@.len() == 0
        &&& after.events@.len() == 0
    } else {
        after == before
    }
}

/// The revisions that the comparison led to.
pub open spec fn proved_by(comparison_id: i64) -> spec_fn(Revision) -> bool {
    |revision: Revision| revision.provenance_comparison_id == Some(comparison_id)
}

/// The cuts with the comparison that stay.
pub open spec fn cut_stays(watch_id: [u8; 16], new_floor: i64, comparison_id: i64) -> spec_fn(
    WatchCut,
) -> bool {
    |cut: WatchCut|
        cut.comparison_id == Some(comparison_id) && !cuts_below(watch_id, new_floor)(cut)
}

/// The comparisons that nothing needs: no revision came from them, no cut that
/// stays and no lease has them, and they do not answer for two retained
/// snapshots.
pub open spec fn comparisons_unneeded(
    revisions: Seq<Revision>,
    cuts: Seq<WatchCut>,
    pins: Seq<ComparisonPin>,
    watch_id: [u8; 16],
    new_floor: i64,
) -> spec_fn(Comparison) -> bool {
    |comparison: Comparison|
        !some(revisions, proved_by(comparison.id)) && !some(
            cuts,
            cut_stays(watch_id, new_floor, comparison.id),
        ) && !some(pins, query_pins(comparison.id)) && !(comparison.algorithm_version
            == HISTORICAL_VERSION && comparison.state == ComparisonState::IndexReady && some(
            revisions,
            ready_of(comparison.from_snapshot_id),
        ) && some(revisions, ready_of(comparison.to_snapshot_id)))
}

/// The watches indexed to the revision.
pub open spec fn indexed_to(id: i64) -> spec_fn(Watch) -> bool {
    |watch: Watch| watch.indexed_revision_id == Some(id)
}

/// The worktrees seeded from the revision.
pub open spec fn seeded_from(id: i64) -> spec_fn(Worktree) -> bool {
    |worktree: Worktree| worktree.seed_revision_id == id
}

/// The revisions stored on top of the revision.
pub open spec fn stored_on(id: i64) -> spec_fn(Revision) -> bool {
    |revision: Revision| revision.storage_base_revision_id == Some(id)
}

/// The leases' pins on the revision.
pub open spec fn query_revision_pins(id: i64) -> spec_fn(RevisionPin) -> bool {
    |pin: RevisionPin| pin.revision_id == id
}

/// The boundaries that lead to the snapshot.
pub open spec fn bounded_by(snapshot_id: i64) -> spec_fn(Boundary) -> bool {
    |boundary: Boundary| boundary.target_snapshot_id == snapshot_id
}

/// The ready revisions that nothing needs.
pub open spec fn unneeded(
    watches: Seq<Watch>,
    worktrees: Seq<Worktree>,
    query_pins: Seq<RevisionPin>,
    pins: Seq<Pin>,
    boundaries: Seq<Boundary>,
    revisions: Seq<Revision>,
) -> spec_fn(Revision) -> bool {
    |revision: Revision|
        revision.state == RevisionState::Ready && !some(watches, indexed_to(revision.id)) && !some(
            worktrees,
            seeded_from(revision.id),
        ) && !some(revisions, stored_on(revision.id)) && !some(
            query_pins,
            query_revision_pins(revision.id),
        ) && !some(pins, pins_to(revision.snapshot_id)) && !some(
            boundaries,
            bounded_by(revision.snapshot_id),
        )
}

/// The revisions that are left once none is unneeded: each that goes may let
/// the one it was stored on go too.
pub open spec fn needed_revisions(
    watches: Seq<Watch>,
    worktrees: Seq<Worktree>,
    query_pins: Seq<RevisionPin>,
    pins: Seq<Pin>,
    boundaries: Seq<Boundary>,
    revisions: Seq<Revision>,
) -> Seq<Revision>
    decreases revisions.len(),
{
    match first(
        revisions,
        unneeded(watches, worktrees, query_pins, pins, boundaries, revisions),
    ) {
        Some(at) => if 0 <= at < revisions.len() {
            needed_revisions(
                watches,
                worktrees,
                query_pins,
                pins,
                boundaries,
                revisions.remove(at),
            )
        } else {
            revisions
        },
        None => revisions,
    }
}

/// What letting history below the floor go makes of the store.
pub open spec fn truncates(
    before: Store,
    after: Store,
    watch_id: [u8; 16],
    new_floor: i64,
    now_ns: i64,
) -> bool {
    let at = place(before.watches@, watch_id)->0;
    let watch = before.watches@[at];
    let lapsed = QueryChoice::Lapsed(now_ns);
    let floor = journal_floor(before.boundaries@, after.query_leases@, watch, new_floor);
    let kept = removing(
        before.comparisons@,
        comparisons_unneeded(
            after.revisions@,
            before.cuts@,
            after.comparison_pins@,
            watch_id,
            new_floor,
        ),
    );
    &&& after == (Store {
        watches: after.watches,
        operations: after.operations,
        revisions: after.revisions,
        comparisons: after.comparisons,
        cuts: after.cuts,
        admissions: after.admissions,
        boundaries: after.boundaries,
        query_leases: after.query_leases,
        revision_pins: after.revision_pins,
        comparison_pins: after.comparison_pins,
        mutation_events: after.mutation_events,
        ..before
    })
    &&& after.query_leases@ == changing(before.query_leases@, released(lapsed))
    &&& after.revision_pins@ == removing(
        before.revision_pins@,
        revision_pins_of(before.query_leases@, lapsed),
    )
    &&& after.comparison_pins@ == removing(
        before.comparison_pins@,
        comparison_pins_of(before.query_leases@, lapsed),
    )
    &&& after.boundaries@ == removing(before.boundaries@, boundaries_below(watch_id, new_floor))
    &&& after.mutation_events@ == removing(
        match floor {
            Some(cursor) => removing(before.mutation_events@, journal_upto(watch_id, cursor)),
            None => before.mutation_events@,
        },
        journal_unneeded(after.boundaries@, after.query_leases@, watch_id),
    )
    &&& after.admissions@ == removing(
        before.admissions@,
        admissions_below(before.cuts@, watch_id, new_floor),
    )
    &&& after.cuts@ == removing(before.cuts@, cuts_below(watch_id, new_floor))
    &&& after.operations@ == removing(before.operations@, operations_below(watch_id, new_floor))
    &&& after.watches@ == before.watches@.update(
        at,
        Watch {
            replay_floor_seq: Some(new_floor),
            guard: match floor {
                Some(cursor) => Some(
                    GuardJournal { replay_floor_seq: cursor.sequence, ..watch.guard->0 },
                ),
                None => watch.guard,
            },
            ..watch
        },
    )
    &&& after.revisions@ == needed_revisions(
        after.watches@,
        after.worktrees@,
        after.revision_pins@,
        after.pins@,
        after.boundaries@,
        before.revisions@,
    )
    &&& after.comparisons@.len() == kept.len()
    &&& forall|i: int|
        0 <= i < kept.len() ==> thinned(
            kept[i],
            #[trigger] after.comparisons@[i],
            spent(before.cuts@, after.comparison_pins@, watch_id, new_floor, kept[i].id),
        )
}

/// What compacting the revision that a watch is indexed to does.
pub open spec fn compacts(
    before: Store,
    after: Store,
    revision_id: i64,
    builder_owner: [u8; 16],
    digest: IndexDigest,
) -> bool {
    &&& after == (Store { revisions: after.revisions, ..before })
    &&& compaction(before.revisions@, after.revisions@, revision_id, builder_owner, digest)
}

/// What moving the floor of a watch does.
pub open spec fn moves_floor(
    before: Store,
    after: Store,
    watch_id: [u8; 16],
    new_floor: i64,
    now_ns: i64,
    owner: [u8; 16],
    report: RevisionReport,
    reclaimed: Result<usize, ManagerError>,
) -> bool {
    match floor_fault(before, watch_id, new_floor) {
        Some(fault) => {
            &&& after == before
            &&& reclaimed matches Err(error)
            &&& error@ == fault
        },
        None => {
            let (floor, _, revision_id) = floor_of(before, watch_id)->Ok_0;
            if new_floor == floor {
                after == before && reclaimed == Ok::<usize, ManagerError>(0)
            } else {
                match read_fault(before.revisions@, revision_id, report) {
                    Some(fault) => {
                        &&& after == before
                        &&& reclaimed matches Err(error)
                        &&& error@ == fault
                    },
                    None => {
                        let digest = report.digest->Ok_0;
                        let revision = numbered(before.revisions@, revision_id)->0;
                        let index = revision_index(before.revisions@, revision_id)->Ok_0;
                        exists|middle: Store| #[trigger]
                            compacts(before, middle, revision_id, owner, digest)
                                && if checkpoint_fault(revision, index, report) is Some {
                                &&& after == middle
                                &&& reclaimed matches Err(error)
                                &&& checkpoint_fault(revision, index, report) == Some(error@)
                            } else if some(
                                before.query_leases@,
                                protecting(watch_id, new_floor, now_ns),
                            ) {
                                &&& after == middle
                                &&& reclaimed matches Err(error)
                                &&& error@
                                    == "active query lease still protects history below the requested floor"@
                            } else {
                                &&& truncates(middle, after, watch_id, new_floor, now_ns)
                                &&& reclaimed matches Ok(number)
                                &&& number == middle.revisions@.len() - after.revisions@.len()
                            }
                    },
                }
            }
        },
    }
}

fn is_read_before(leases: &Vec<QueryLease>, watch_id: &[u8; 16], cursor: &GuardCursor) -> (found:
    bool)
    ensures
        found == some(leases@, reading_before(*watch_id, *cursor)),
{
    let test = |lease: &QueryLease| -> (picked: bool)
        ensures
            picked == reading_before(*watch_id, *cursor)(*lease),
        {
            let reads: bool = match &lease.guard {
                Some((epoch, from, _)) => same_array(epoch, &cursor.epoch) && *from
                    < cursor.sequence,
                None => false,
            };
            same_array(&lease.watch_id, watch_id) && lease.state == QueryState::Active && reads
        };
    any(leases, test, Ghost(reading_before(*watch_id, *cursor)))
}

fn find_journal_floor(
    boundaries: &Vec<Boundary>,
    leases: &Vec<QueryLease>,
    watch: &Watch,
    new_floor: i64,
) -> (floor: Option<GuardCursor>)
    ensures
        floor == journal_floor(boundaries@, leases@, *watch, new_floor),
{
    match find_boundary(boundaries, &watch.id, new_floor) {
        Some(at) => match (&boundaries[at].guard, &watch.guard) {
            (Some(cursor), Some(journal)) => if same_array(&cursor.epoch, &journal.epoch)
                && cursor.sequence >= journal.replay_floor_seq && !is_read_before(
                leases,
                &watch.id,
                cursor,
            ) {
                Some(*cursor)
            } else {
                None
            },
            _ => None,
        },
        None => None,
    }
}

fn is_journal_needed(
    boundaries: &Vec<Boundary>,
    leases: &Vec<QueryLease>,
    watch_id: &[u8; 16],
    epoch: &[u8; 16],
) -> (needed: bool)
    ensures
        needed == (some(boundaries@, bounds_journal(*watch_id, *epoch)) || some(
            leases@,
            leases_journal(*watch_id, *epoch),
        )),
{
    let test = |boundary: &Boundary| -> (picked: bool)
        ensures
            picked == bounds_journal(*watch_id, *epoch)(*boundary),
        {
            let inside: bool = match &boundary.guard {
                Some(cursor) => same_array(&cursor.epoch, epoch),
                None => false,
            };
            same_array(&boundary.watch_id, watch_id) && inside
        };
    let bounded: bool = any(boundaries, test, Ghost(bounds_journal(*watch_id, *epoch)));
    let test = |lease: &QueryLease| -> (picked: bool)
        ensures
            picked == leases_journal(*watch_id, *epoch)(*lease),
        {
            let inside: bool = match &lease.guard {
                Some((leased, _, _)) => same_array(leased, epoch),
                None => false,
            };
            same_array(&lease.watch_id, watch_id) && lease.state == QueryState::Active && inside
        };
    bounded || any(leases, test, Ghost(leases_journal(*watch_id, *epoch)))
}

fn drop_journal(
    events: &mut Vec<MutationEvent>,
    boundaries: &Vec<Boundary>,
    leases: &Vec<QueryLease>,
    watch_id: &[u8; 16],
    floor: &Option<GuardCursor>,
)
    ensures
        final(events)@ == removing(
            match *floor {
                Some(cursor) => removing(old(events)@, journal_upto(*watch_id, cursor)),
                None => old(events)@,
            },
            journal_unneeded(boundaries@, leases@, *watch_id),
        ),
{
    match floor {
        Some(cursor) => {
            let test = |event: &MutationEvent| -> (picked: bool)
                ensures
                    picked == journal_upto(*watch_id, *cursor)(*event),
                {
                    same_array(&event.watch_id, watch_id) && same_array(
                        &event.guard_epoch,
                        &cursor.epoch,
                    ) && event.sequence <= cursor.sequence
                };
            remove(events, test, Ghost(journal_upto(*watch_id, *cursor)));
        },
        None => {},
    }
    let test = |event: &MutationEvent| -> (picked: bool)
        ensures
            picked == journal_unneeded(boundaries@, leases@, *watch_id)(*event),
        {
            same_array(&event.watch_id, watch_id) && !is_journal_needed(
                boundaries,
                leases,
                watch_id,
                &event.guard_epoch,
            )
        };
    remove(events, test, Ghost(journal_unneeded(boundaries@, leases@, *watch_id)));
}

fn has_query_pin(pins: &Vec<ComparisonPin>, comparison_id: i64) -> (found: bool)
    ensures
        found == some(pins@, query_pins(comparison_id)),
{
    let test = |pin: &ComparisonPin| -> (picked: bool)
        ensures
            picked == query_pins(comparison_id)(*pin),
        { pin.comparison_id == comparison_id };
    any(pins, test, Ghost(query_pins(comparison_id)))
}

fn is_spent(
    cuts: &Vec<WatchCut>,
    pins: &Vec<ComparisonPin>,
    watch_id: &[u8; 16],
    new_floor: i64,
    comparison_id: i64,
) -> (is_spent: bool)
    ensures
        is_spent == spent(cuts@, pins@, *watch_id, new_floor, comparison_id),
{
    let test = |cut: &WatchCut| -> (picked: bool)
        ensures
            picked == cut_spends(*watch_id, new_floor, comparison_id)(*cut),
        {
            same_array(&cut.watch_id, watch_id) && cut.sequence <= new_floor && cut.comparison_id
                == Some(comparison_id)
        };
    any(cuts, test, Ghost(cut_spends(*watch_id, new_floor, comparison_id))) && !has_query_pin(
        pins,
        comparison_id,
    )
}

fn has_ready(revisions: &Vec<Revision>, snapshot_id: i64) -> (found: bool)
    ensures
        found == some(revisions@, ready_of(snapshot_id)),
{
    let test = |revision: &Revision| -> (picked: bool)
        ensures
            picked == ready_of(snapshot_id)(*revision),
        { revision.snapshot_id == snapshot_id && revision.state == RevisionState::Ready };
    any(revisions, test, Ghost(ready_of(snapshot_id)))
}

fn is_comparison_unneeded(
    comparison: &Comparison,
    revisions: &Vec<Revision>,
    cuts: &Vec<WatchCut>,
    pins: &Vec<ComparisonPin>,
    watch_id: &[u8; 16],
    new_floor: i64,
) -> (is_unneeded: bool)
    ensures
        is_unneeded == comparisons_unneeded(revisions@, cuts@, pins@, *watch_id, new_floor)(
            *comparison,
        ),
{
    let id: i64 = comparison.id;
    let test = |revision: &Revision| -> (picked: bool)
        ensures
            picked == proved_by(id)(*revision),
        { revision.provenance_comparison_id == Some(id) };
    let proved: bool = any(revisions, test, Ghost(proved_by(id)));
    let test = |cut: &WatchCut| -> (picked: bool)
        ensures
            picked == cut_stays(*watch_id, new_floor, id)(*cut),
        {
            cut.comparison_id == Some(id) && !(same_array(&cut.watch_id, watch_id) && cut.sequence
                < new_floor)
        };
    let cut: bool = any(cuts, test, Ghost(cut_stays(*watch_id, new_floor, id)));
    !proved && !cut && !has_query_pin(pins, id) && !(comparison.algorithm_version
        == HISTORICAL_VERSION && comparison.state == ComparisonState::IndexReady && has_ready(
        revisions,
        comparison.from_snapshot_id,
    ) && has_ready(revisions, comparison.to_snapshot_id))
}

fn drop_comparisons(
    comparisons: &mut Vec<Comparison>,
    revisions: &Vec<Revision>,
    cuts: &Vec<WatchCut>,
    pins: &Vec<ComparisonPin>,
    watch_id: &[u8; 16],
    new_floor: i64,
)
    ensures
        ({
            let kept = removing(
                old(comparisons)@,
                comparisons_unneeded(revisions@, cuts@, pins@, *watch_id, new_floor),
            );
            &&& final(comparisons)@.len() == kept.len()
            &&& forall|i: int|
                0 <= i < kept.len() ==> thinned(
                    kept[i],
                    #[trigger] final(comparisons)@[i],
                    spent(cuts@, pins@, *watch_id, new_floor, kept[i].id),
                )
        }),
{
    let test = |comparison: &Comparison| -> (picked: bool)
        ensures
            picked == comparisons_unneeded(revisions@, cuts@, pins@, *watch_id, new_floor)(
                *comparison,
            ),
        { is_comparison_unneeded(comparison, revisions, cuts, pins, watch_id, new_floor) };
    remove(
        comparisons,
        test,
        Ghost(comparisons_unneeded(revisions@, cuts@, pins@, *watch_id, new_floor)),
    );
    let ghost kept = comparisons@;
    let mut at: usize = 0;
    while at < comparisons.len()
        invariant
            at <= comparisons@.len(),
            comparisons@.len() == kept.len(),
            forall|i: int|
                0 <= i < at ==> thinned(
                    kept[i],
                    #[trigger] comparisons@[i],
                    spent(cuts@, pins@, *watch_id, new_floor, kept[i].id),
                ),
            forall|i: int| at <= i < kept.len() ==> #[trigger] comparisons@[i] == kept[i],
        decreases comparisons.len() - at,
    {
        if is_spent(cuts, pins, watch_id, new_floor, comparisons[at].id) {
            comparisons[at].objects = Vec::new();
            comparisons[at].references = Vec::new();
            comparisons[at].events = Vec::new();
        }
        at += 1;
    }
}

fn is_unneeded(
    watches: &Vec<Watch>,
    worktrees: &Vec<Worktree>,
    query_pins: &Vec<RevisionPin>,
    pins: &Vec<Pin>,
    boundaries: &Vec<Boundary>,
    revisions: &Vec<Revision>,
    revision: &Revision,
) -> (is_unneeded: bool)
    ensures
        is_unneeded == unneeded(
            watches@,
            worktrees@,
            query_pins@,
            pins@,
            boundaries@,
            revisions@,
        )(*revision),
{
    let id: i64 = revision.id;
    let snapshot_id: i64 = revision.snapshot_id;
    let test = |watch: &Watch| -> (picked: bool)
        ensures
            picked == indexed_to(id)(*watch),
        { watch.indexed_revision_id == Some(id) };
    let indexed: bool = any(watches, test, Ghost(indexed_to(id)));
    let test = |worktree: &Worktree| -> (picked: bool)
        ensures
            picked == seeded_from(id)(*worktree),
        { worktree.seed_revision_id == id };
    let seeded: bool = any(worktrees, test, Ghost(seeded_from(id)));
    let test = |other: &Revision| -> (picked: bool)
        ensures
            picked == stored_on(id)(*other),
        { other.storage_base_revision_id == Some(id) };
    let stored: bool = any(revisions, test, Ghost(stored_on(id)));
    let test = |pin: &RevisionPin| -> (picked: bool)
        ensures
            picked == query_revision_pins(id)(*pin),
        { pin.revision_id == id };
    let leased: bool = any(query_pins, test, Ghost(query_revision_pins(id)));
    let test = |boundary: &Boundary| -> (picked: bool)
        ensures
            picked == bounded_by(snapshot_id)(*boundary),
        { boundary.target_snapshot_id == snapshot_id };
    let bounded: bool = any(boundaries, test, Ghost(bounded_by(snapshot_id)));
    revision.state == RevisionState::Ready && !indexed && !seeded && !stored && !leased
        && !is_pinned(pins, snapshot_id) && !bounded
}

fn drop_revisions(
    watches: &Vec<Watch>,
    worktrees: &Vec<Worktree>,
    query_pins: &Vec<RevisionPin>,
    pins: &Vec<Pin>,
    boundaries: &Vec<Boundary>,
    revisions: &mut Vec<Revision>,
) -> (reclaimed: usize)
    requires
        forall|i: int|
            0 <= i < old(revisions)@.len() ==> revision_sound(#[trigger] old(revisions)@[i]),
        depths_sound(old(revisions)@),
    ensures
        depths_sound(final(revisions)@),
        forall|i: int|
            0 <= i < final(revisions)@.len() ==> revision_sound(#[trigger] final(revisions)@[i]),
        final(revisions)@ == needed_revisions(
            watches@,
            worktrees@,
            query_pins@,
            pins@,
            boundaries@,
            old(revisions)@,
        ),
        forall|comparisons: Seq<Comparison>|
            provenance_stored(old(revisions)@, comparisons) ==> #[trigger] provenance_stored(
                final(revisions)@,
                comparisons,
            ),
        reclaimed == old(revisions)@.len() - final(revisions)@.len(),
{
    let ghost before = revisions@;
    let total: usize = revisions.len();
    let mut reclaimed: usize = 0;
    loop
        invariant
            forall|i: int|
                0 <= i < revisions@.len() ==> revision_sound(#[trigger] revisions@[i]),
            depths_sound(revisions@),
            forall|comparisons: Seq<Comparison>|
                provenance_stored(before, comparisons) ==> #[trigger] provenance_stored(
                    revisions@,
                    comparisons,
                ),
            reclaimed + revisions@.len() == before.len(),
            total == before.len(),
            needed_revisions(
                watches@,
                worktrees@,
                query_pins@,
                pins@,
                boundaries@,
                revisions@,
            ) == needed_revisions(
                watches@,
                worktrees@,
                query_pins@,
                pins@,
                boundaries@,
                before,
            ),
        ensures
            revisions@ == needed_revisions(
                watches@,
                worktrees@,
                query_pins@,
                pins@,
                boundaries@,
                before,
            ),
        decreases revisions@.len(),
    {
        let held: &Vec<Revision> = revisions;
        let test = |revision: &Revision| -> (picked: bool)
            ensures
                picked == unneeded(
                    watches@,
                    worktrees@,
                    query_pins@,
                    pins@,
                    boundaries@,
                    held@,
                )(*revision),
            {
                is_unneeded(watches, worktrees, query_pins, pins, boundaries, held, revision)
            };
        match find_first(
            held,
            test,
            Ghost(
                unneeded(watches@, worktrees@, query_pins@, pins@, boundaries@, held@),
            ),
        ) {
            Some(at) => {
                let ghost held_now = revisions@;
                revisions.remove(at);
                reclaimed += 1;
                assert(revisions@ =~= held_now.remove(at as int));
                proof {
                    let going = held_now[at as int].id;
                    assert forall|i: int| 0 <= i < held_now.len() implies (
                    #[trigger] held_now[i]).storage_base_revision_id != Some(going) by {
                        if held_now[i].storage_base_revision_id == Some(going) {
                            assert(stored_on(going)(held_now[i]));
                        }
                    }
                    lemma_depths_left(held_now, at as int);
                }
                assert forall|comparisons: Seq<Comparison>|
                    provenance_stored(before, comparisons) implies #[trigger] provenance_stored(
                    revisions@,
                    comparisons,
                ) by {
                    assert(provenance_stored(held_now, comparisons));
                }
            },
            None => {
                break ;
            },
        }
    }
    reclaimed
}

impl Store {
    fn truncate_history(&mut self, at: usize, new_floor: i64, now_ns: i64) -> (reclaimed: usize)
        requires
            old(self).well_formed(),
            at < old(self).watches@.len(),
            place(old(self).watches@, old(self).watches@[at as int].id) == Some(at as int),
        ensures
            final(self).well_formed(),
            truncates(
                *old(self),
                *final(self),
                old(self).watches@[at as int].id,
                new_floor,
                now_ns,
            ),
            reclaimed == old(self).revisions@.len() - final(self).revisions@.len(),
    {
        let watch_id: [u8; 16] = self.watches[at].id;
        release_queries(
            &mut self.query_leases,
            &mut self.revision_pins,
            &mut self.comparison_pins,
            &QueryChoice::Lapsed(now_ns),
        );
        let floor: Option<GuardCursor> = find_journal_floor(
            &self.boundaries,
            &self.query_leases,
            &self.watches[at],
            new_floor,
        );
        let test = |boundary: &Boundary| -> (picked: bool)
            ensures
                picked == boundaries_below(watch_id, new_floor)(*boundary),
            { same_array(&boundary.watch_id, &watch_id) && boundary.cut_sequence < new_floor };
        remove(&mut self.boundaries, test, Ghost(boundaries_below(watch_id, new_floor)));
        drop_journal(
            &mut self.mutation_events,
            &self.boundaries,
            &self.query_leases,
            &watch_id,
            &floor,
        );
        let journal: Option<GuardJournal> = match (&floor, &self.watches[at].guard) {
            (Some(cursor), Some(journal)) => Some(
                GuardJournal {
                    epoch: journal.epoch,
                    head_seq: journal.head_seq,
                    replay_floor_seq: cursor.sequence,
                },
            ),
            _ => self.watches[at].guard,
        };
        self.watches[at].replay_floor_seq = Some(new_floor);
        self.watches[at].guard = journal;
        assert(self.watches@ =~= old(self).watches@.update(
            at as int,
            Watch {
                replay_floor_seq: Some(new_floor),
                guard: match floor {
                    Some(cursor) => Some(
                        GuardJournal {
                            replay_floor_seq: cursor.sequence,
                            ..old(self).watches@[at as int].guard->0
                        },
                    ),
                    None => old(self).watches@[at as int].guard,
                },
                ..old(self).watches@[at as int]
            },
        ));
        let reclaimed: usize = drop_revisions(
            &self.watches,
            &self.worktrees,
            &self.revision_pins,
            &self.pins,
            &self.boundaries,
            &mut self.revisions,
        );
        let ghost compared = self.comparisons@;
        drop_comparisons(
            &mut self.comparisons,
            &self.revisions,
            &self.cuts,
            &self.comparison_pins,
            &watch_id,
            new_floor,
        );
        proof {
            let unneeded = comparisons_unneeded(
                self.revisions@,
                self.cuts@,
                self.comparison_pins@,
                watch_id,
                new_floor,
            );
            lemma_distinct_left(compared, unneeded);
            lemma_distinct_changed(removing(compared, unneeded), self.comparisons@);
            assert forall|i: int, j: int|
                0 <= i < self.revisions@.len() && 0 <= j < compared.len() && (
                #[trigger] self.revisions@[i]).provenance_comparison_id == Some(
                    (#[trigger] compared[j]).id,
                ) implies !unneeded(compared[j]) by {
                assert(proved_by(compared[j].id)(self.revisions@[i]));
            }
            lemma_provenance_left(self.revisions@, compared, unneeded);
            lemma_provenance_changed(
                self.revisions@,
                removing(compared, unneeded),
                self.comparisons@,
            );
        }
        let cuts = &self.cuts;
        let test = |admission: &Admission| -> (picked: bool)
            ensures
                picked == admissions_below(cuts@, watch_id, new_floor)(*admission),
            { has_cut_below_by(cuts, &watch_id, new_floor, &admission.operation_id) };
        remove(
            &mut self.admissions,
            test,
            Ghost(admissions_below(self.cuts@, watch_id, new_floor)),
        );
        let test = |cut: &WatchCut| -> (picked: bool)
            ensures
                picked == cuts_below(watch_id, new_floor)(*cut),
            { same_array(&cut.watch_id, &watch_id) && cut.sequence < new_floor };
        proof {
            lemma_cuts_left(self.cuts@, cuts_below(watch_id, new_floor));
        }
        remove(&mut self.cuts, test, Ghost(cuts_below(watch_id, new_floor)));
        let test = |operation: &Operation| -> (picked: bool)
            ensures
                picked == operations_below(watch_id, new_floor)(*operation),
            {
                let below: bool = match operation.sequence {
                    Some(sequence) => sequence < new_floor,
                    None => false,
                };
                same_array(&operation.watch_id, &watch_id) && operation.kind == OperationKind::Cut
                    && operation.state == OperationState::Done && below
            };
        remove(&mut self.operations, test, Ghost(operations_below(watch_id, new_floor)));
        reclaimed
    }

    /// Moves the sequence that the history of a watch can be replayed from,
    /// and lets go of everything that only older history needed. `report` is
    /// on the revision that the watch is indexed to. Gives the number of
    /// revisions that went.
    pub fn advance_replay_floor(
        &mut self,
        watch_id: [u8; 16],
        new_floor: i64,
        now_ns: i64,
        compactor_owner: [u8; 16],
        report: &RevisionReport,
    ) -> (reclaimed: Result<usize, ManagerError>)
        requires
            old(self).well_formed(),
        ensures
            final(self).well_formed(),
            moves_floor(
                *old(self),
                *final(self),
                watch_id,
                new_floor,
                now_ns,
                compactor_owner,
                *report,
                reclaimed,
            ),
    {
        let at: usize = match find(&self.watches, &watch_id) {
            Some(at) => at,
            None => {
                return Err(ManagerError::new("replay-floor watch is absent"));
            },
        };
        if self.watches[at].state != WatchState::Active && self.watches[at].state
            != WatchState::Blocked {
            return Err(ManagerError::new("replay-floor watch is absent"));
        }
        let floor: i64 = match self.watches[at].replay_floor_seq {
            Some(floor) => floor,
            None => {
                return Err(
                    ManagerError::new(
                        "Invalid column type Null at index: 0, name: replay_floor_seq",
                    ),
                );
            },
        };
        let indexed: i64 = match self.watches[at].indexed_seq {
            Some(indexed) => indexed,
            None => {
                return Err(
                    ManagerError::new("Invalid column type Null at index: 1, name: indexed_seq"),
                );
            },
        };
        let revision_id: i64 = match self.watches[at].indexed_revision_id {
            Some(revision_id) => revision_id,
            None => {
                return Err(
                    ManagerError::new(
                        "Invalid column type Null at index: 2, name: indexed_revision_id",
                    ),
                );
            },
        };
        if new_floor < floor || new_floor > indexed {
            return Err(ManagerError::new("invalid replay-floor advance"));
        }
        if new_floor == floor {
            return Ok(0);
        }
        let compacted = self.compact_revision(revision_id, compactor_owner, report);
        let ghost middle = *self;
        proof {
            if read_fault(old(self).revisions@, revision_id, *report) is None {
                let digest = report.digest->Ok_0;
                assert(compacts(*old(self), middle, revision_id, compactor_owner, digest));
            }
        }
        match compacted {
            Ok(_) => {},
            Err(error) => {
                return Err(error);
            },
        }
        let test = |lease: &QueryLease| -> (picked: bool)
            ensures
                picked == protecting(watch_id, new_floor, now_ns)(*lease),
            {
                let below: bool = match lease.from_cut_sequence {
                    Some(from) => from < new_floor,
                    None => false,
                };
                same_array(&lease.watch_id, &watch_id) && lease.state == QueryState::Active
                    && lease.lease_expires_ns > now_ns && below
            };
        if any(&self.query_leases, test, Ghost(protecting(watch_id, new_floor, now_ns))) {
            return Err(
                ManagerError::new(
                    "active query lease still protects history below the requested floor",
                ),
            );
        }
        let reclaimed: usize = self.truncate_history(at, new_floor, now_ns);
        Ok(reclaimed)
    }
}

fn has_cut_below_by(
    cuts: &Vec<WatchCut>,
    watch_id: &[u8; 16],
    new_floor: i64,
    id: &[u8; 16],
) -> (found: bool)
    ensures
        found == some(cuts@, cut_below_by(*watch_id, new_floor, *id)),
{
    let test = |cut: &WatchCut| -> (picked: bool)
        ensures
            picked == cut_below_by(*watch_id, new_floor, *id)(*cut),
        {
            same_array(&cut.watch_id, watch_id) && cut.sequence < new_floor && same_array(
                &cut.operation_id,
                id,
            )
        };
    any(cuts, test, Ghost(cut_below_by(*watch_id, new_floor, *id)))
}

/// Whether a watch is indexed to the revision, a worktree was seeded from it or
/// a query reads it.
pub open spec fn in_use(
    watches: Seq<Watch>,
    worktrees: Seq<Worktree>,
    query_pins: Seq<RevisionPin>,
    id: i64,
) -> bool {
    ||| some(watches, indexed_to(id))
    ||| some(worktrees, seeded_from(id))
    ||| some(query_pins, query_revision_pins(id))
}

pub(crate) proof fn lemma_row_stays(revisions: Seq<Revision>, at: int, number: i64, from: int)
    requires
        0 <= from,
        0 <= at < revisions.len(),
        revisions[at].id != number,
    ensures
        match (
            slot_from(revisions, number, from),
            slot_from(
                revisions.remove(at),
                number,
                if from <= at {
                    from
                } else {
                    from - 1
                },
            ),
        ) {
            (Some(a), Some(b)) => revisions[a] == revisions.remove(at)[b] && 0 <= a
                < revisions.len(),
            (None, None) => true,
            _ => false,
        },
    decreases revisions.len() - from,
{
    if from < revisions.len() {
        lemma_row_stays(revisions, at, number, from + 1);
    }
}

pub(crate) proof fn lemma_chain_stays(revisions: Seq<Revision>, at: int, current: i64, above: nat)
    requires
        0 <= at < revisions.len(),
        revisions[at].id != current,
        !some(revisions, stored_on(revisions[at].id)),
    ensures
        chain_from(revisions.remove(at), current, above) == chain_from(revisions, current, above),
        chain_from(revisions, current, above) matches Ok(chain) ==> chain.len() > 0 && forall|i: int|
            0 <= i < chain.len() ==> #[trigger] chain[i] != revisions[at].id,
    decreases MAX_DEPTH + 1 - above,
{
    lemma_row_stays(revisions, at, current, 0);
    if above <= MAX_DEPTH {
        if let Some(revision) = numbered(revisions, current) {
            if let Some(base) = revision.storage_base_revision_id {
                let place = slot_from(revisions, current, 0)->0;
                assert(stored_on(base)(revisions[place]));
                assert(base != revisions[at].id);
                lemma_chain_stays(revisions, at, base, above + 1);
            }
        }
    }
}

pub(crate) proof fn lemma_index_stays(revisions: Seq<Revision>, at: int, chain: Seq<i64>, from: int)
    requires
        0 <= at < revisions.len(),
        0 <= from,
        chain.len() > 0,
        forall|i: int| 0 <= i < chain.len() ==> #[trigger] chain[i] != revisions[at].id,
    ensures
        chain_index_from(revisions.remove(at), chain, from) == chain_index_from(
            revisions,
            chain,
            from,
        ),
    decreases chain.len() - from,
{
    if from >= chain.len() - 1 {
        assert(chain.last() == chain[chain.len() - 1]);
        lemma_row_stays(revisions, at, chain.last(), 0);
    } else {
        lemma_row_stays(revisions, at, chain[from], 0);
        lemma_index_stays(revisions, at, chain, from + 1);
    }
}

/// Letting revisions go never changes what a revision in use holds.
pub proof fn law_reclaiming_keeps_indexes(
    watches: Seq<Watch>,
    worktrees: Seq<Worktree>,
    query_pins: Seq<RevisionPin>,
    pins: Seq<Pin>,
    boundaries: Seq<Boundary>,
    revisions: Seq<Revision>,
    id: i64,
)
    requires
        in_use(watches, worktrees, query_pins, id),
    ensures
        revision_index(
            needed_revisions(watches, worktrees, query_pins, pins, boundaries, revisions),
            id,
        ) == revision_index(revisions, id),
    decreases revisions.len(),
{
    let picks = unneeded(watches, worktrees, query_pins, pins, boundaries, revisions);
    lemma_first(revisions, picks, 0);
    if let Some(at) = first(revisions, picks) {
        assert(picks(revisions[at]));
        assert(revisions[at].id != id);
        lemma_chain_stays(revisions, at, id, 0);
        if let Ok(chain) = chain_from(revisions, id, 0) {
            lemma_index_stays(revisions, at, chain, 0);
        }
        law_reclaiming_keeps_indexes(
            watches,
            worktrees,
            query_pins,
            pins,
            boundaries,
            revisions.remove(at),
            id,
        );
    }
}

/// Once unneeded revisions are gone, none is left.
pub proof fn law_reclaiming_is_complete(
    watches: Seq<Watch>,
    worktrees: Seq<Worktree>,
    query_pins: Seq<RevisionPin>,
    pins: Seq<Pin>,
    boundaries: Seq<Boundary>,
    revisions: Seq<Revision>,
)
    ensures
        ({
            let left = needed_revisions(
                watches,
                worktrees,
                query_pins,
                pins,
                boundaries,
                revisions,
            );
            first(
                left,
                unneeded(watches, worktrees, query_pins, pins, boundaries, left),
            ) is None
        }),
    decreases revisions.len(),
{
    let picks = unneeded(watches, worktrees, query_pins, pins, boundaries, revisions);
    lemma_first(revisions, picks, 0);
    if let Some(at) = first(revisions, picks) {
        law_reclaiming_is_complete(
            watches,
            worktrees,
            query_pins,
            pins,
            boundaries,
            revisions.remove(at),
        );
    }
}

/// The replay floor of a watch never moves back, and moving it leaves what the
/// watch is indexed to as it was.
pub proof fn law_floor_moves_forward(
    before: Store,
    after: Store,
    watch_id: [u8; 16],
    new_floor: i64,
    now_ns: i64,
    owner: [u8; 16],
    report: RevisionReport,
    reclaimed: Result<usize, ManagerError>,
)
    requires
        moves_floor(before, after, watch_id, new_floor, now_ns, owner, report, reclaimed),
        floor_of(before, watch_id) is Ok,
        reclaimed is Ok,
    ensures
        row(after.watches@, watch_id) matches Some(watch) && watch.replay_floor_seq == Some(
            new_floor,
        ) && watch.indexed_seq == row(before.watches@, watch_id)->0.indexed_seq
            && watch.indexed_revision_id == row(before.watches@, watch_id)->0.indexed_revision_id
            && new_floor >= floor_of(before, watch_id)->Ok_0.0,
        revision_index(after.revisions@, floor_of(before, watch_id)->Ok_0.2)
            == revision_index(before.revisions@, floor_of(before, watch_id)->Ok_0.2),
{
    let (floor, _, revision_id) = floor_of(before, watch_id)->Ok_0;
    let at = place(before.watches@, watch_id)->0;
    lemma_place(before.watches@, watch_id, 0);
    if new_floor != floor {
        let middle = choose|middle: Store| #[trigger]
            compacts(before, middle, revision_id, owner, report.digest->Ok_0) && truncates(
                middle,
                after,
                watch_id,
                new_floor,
                now_ns,
            );
        lemma_place_kept(before.watches@, after.watches@, at, watch_id, 0);
        assert(indexed_to(revision_id)(after.watches@[at]));
        law_compaction_keeps_indexes(
            before.revisions@,
            middle.revisions@,
            revision_id,
            owner,
            report.digest->Ok_0,
            revision_id,
        );
        law_reclaiming_keeps_indexes(
            after.watches@,
            after.worktrees@,
            after.revision_pins@,
            after.pins@,
            after.boundaries@,
            middle.revisions@,
            revision_id,
        );
    }
}

proof fn lemma_place_kept(
    before: Seq<Watch>,
    after: Seq<Watch>,
    place: int,
    id: [u8; 16],
    from: int,
)
    requires
        0 <= from,
        0 <= place < before.len(),
        after == before.update(place, after[place]),
        after[place].id == before[place].id,
    ensures
        place_from(after, id, from) == place_from(before, id, from),
    decreases before.len() - from,
{
    if from < before.len() {
        lemma_place_kept(before, after, place, id, from + 1);
    }
}

} // verus!
