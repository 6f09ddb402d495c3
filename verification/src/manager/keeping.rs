//! What keeps the snapshots that watches are indexed to: an invariant of the
//! store, with a law for each of its operations that could break it.

use crate::manager::compact::{compaction, is_compact, lemma_slot_kept, IndexDigest, RevisionReport};
use crate::manager::cuts::{publishes_cut, records_cut, reserves_cut};
use crate::manager::delta::{
    delta_base, operation_pins_on, publishes_adjacent, publishes_delta, readies_base, AppliedDelta,
};
use crate::manager::facade::{
    activates_facade, appends_events, begins_guard, completes_guard, gaps_guard, invalidates_facade,
};
use crate::manager::fencing::{law_changed_row_is_found, lemma_place_kept};
use crate::manager::floor::{
    compacts, floor_of, indexed_to, lemma_row_stays, moves_floor, needed_revisions, truncates,
    unneeded,
};
use crate::manager::fresh::{head_before, publishes_fresh, PathLookup};
use crate::manager::grants::{retained_pins, revokes};
use crate::manager::history::{
    claims_comparison, comparison_ends, publishes_comparison, with_pin,
};
use crate::manager::initialize::{records_initialize, reserves_initialize, InitializeIds};
use crate::manager::metadata::DeltaDigests;
use crate::manager::pins::{pins_for, pins_of, pins_on, pins_to};
use crate::manager::publish::{fails_cut, publishes_initial, CheckedIndex};
use crate::manager::reading::{law_next_number_is_new, law_row_is_found};
use crate::manager::recovery::{
    aborts_operations, claimed_pins, cut_freed, orphaned, planned_pins, recovers, refaced,
    takes_over, PlanChoice,
};
use crate::manager::retention::{
    deletable, expires_leases, releases_retention, retains, run_out_pins,
};
use crate::manager::rows::{
    Boundary, Pin, PinOwner, PinReason, Revision, RevisionPin, Store, Watch, Worktree,
};
use crate::manager::table::{
    Identified, changing, first, fresh, law_removing, lemma_first, lemma_place, lemma_slot,
    numbered, place, place_from, removing, row, slot, some,
};
use crate::manager::types::{
    CutRequest, CutReservation, FacadeActivation, GuardCursor, HistoricalChanges,
    HistoricalComparisonAdmission, HistoricalComparisonClaim, HistoricalComparisonRequest,
    InitializeRequest, InitializeReservation, InitializedWatch, ManagerError, MutationHint,
    PublishedCut, RecordedSnapshot, RecoveryReport, RetentionLease, SnapshotIdentity,
    TrackedWorktree, WorktreeRequest, WorktreeReservation,
};
use crate::manager::worktrees::{
    publishes_worktree, reserves_worktree, ChildIds, WorktreeIds,
};
use crate::manifest::ManifestView;
use crate::namespace::ViewBinding;
use vstd::prelude::*;

verus! {

/// Whether the snapshot is pinned as the one that the watch is indexed to.
pub open spec fn head_pinned(pins: Seq<Pin>, snapshot_id: i64, watch_id: [u8; 16]) -> bool {
    some(pins, pins_on(snapshot_id, PinOwner::WatchIndexedHead(watch_id)))
}

/// Whether the revision is stored and its snapshot pinned for the watch.
pub open spec fn revision_kept(store: Store, revision_id: i64, watch_id: [u8; 16]) -> bool {
    &&& numbered(store.revisions@, revision_id) matches Some(revision)
    &&& head_pinned(store.pins@, revision.snapshot_id, watch_id)
}

/// Whether what a watch is indexed to, if anything, is kept.
pub open spec fn head_kept(store: Store, watch_id: [u8; 16]) -> bool {
    row(store.watches@, watch_id) matches Some(watch) ==> (
    watch.indexed_revision_id matches Some(revision_id) ==> revision_kept(
        store,
        revision_id,
        watch_id,
    ))
}

/// Whether what every watch is indexed to is kept.
pub open spec fn heads_kept(store: Store) -> bool {
    forall|watch_id: [u8; 16]| #[trigger] head_kept(store, watch_id)
}

pub(crate) proof fn lemma_some_pushed<T>(rows: Seq<T>, added: T, picks: spec_fn(T) -> bool)
    ensures
        some(rows.push(added), picks) == (some(rows, picks) || picks(added)),
{
    let all = rows.push(added);
    if some(rows, picks) {
        let i = choose|i: int| 0 <= i < rows.len() && picks(#[trigger] rows[i]);
        assert(all[i] == rows[i]);
    }
    if picks(added) {
        assert(all[rows.len() as int] == added);
    }
    if some(all, picks) {
        let i = choose|i: int| 0 <= i < all.len() && picks(#[trigger] all[i]);
        if i < rows.len() {
            assert(rows[i] == all[i]);
        }
    }
}

pub(crate) proof fn lemma_some_left<T>(rows: Seq<T>, gone: spec_fn(T) -> bool, picks: spec_fn(T) -> bool)
    requires
        forall|row: T| #[trigger] picks(row) ==> !gone(row),
    ensures
        some(removing(rows, gone), picks) == some(rows, picks),
{
    let left = removing(rows, gone);
    if some(rows, picks) {
        let i = choose|i: int| 0 <= i < rows.len() && picks(#[trigger] rows[i]);
        law_removing(rows, gone, rows[i]);
        assert(rows.contains(rows[i]));
        let j = choose|j: int| 0 <= j < left.len() && left[j] == rows[i];
        assert(picks(left[j]));
    }
    if some(left, picks) {
        let j = choose|j: int| 0 <= j < left.len() && picks(#[trigger] left[j]);
        law_removing(rows, gone, left[j]);
        assert(left.contains(left[j]));
        let i = choose|i: int| 0 <= i < rows.len() && rows[i] == left[j];
        assert(picks(rows[i]));
    }
}

pub(crate) proof fn lemma_place_pushed<T: Identified>(rows: Seq<T>, added: T, id: [u8; 16], from: int)
    requires
        0 <= from <= rows.len(),
    ensures
        place_from(rows.push(added), id, from) == match place_from(rows, id, from) {
            Some(at) => Some(at),
            None => if added.ident() == id {
                Some(rows.len() as int)
            } else {
                None
            },
        },
    decreases rows.len() - from,
{
    reveal_with_fuel(place_from, 2);
    if from < rows.len() {
        assert(rows.push(added)[from] == rows[from]);
        lemma_place_pushed(rows, added, id, from + 1);
    } else {
        assert(rows.push(added)[from] == added);
    }
}

/// A kept snapshot is not deletable, so that no watch loses what it is indexed
/// to.
pub proof fn law_heads_are_not_collected(store: Store, watch_id: [u8; 16])
    requires
        heads_kept(store),
    ensures
        row(store.watches@, watch_id) matches Some(watch) ==> (
        watch.indexed_revision_id matches Some(revision_id) ==> {
            &&& numbered(store.revisions@, revision_id) matches Some(revision)
            &&& !deletable(store, revision.snapshot_id)
        }),
{
    assert(head_kept(store, watch_id));
    if let Some(watch) = row(store.watches@, watch_id) {
        if let Some(revision_id) = watch.indexed_revision_id {
            let snapshot_id = numbered(store.revisions@, revision_id)->0.snapshot_id;
            let pins = pins_on(snapshot_id, PinOwner::WatchIndexedHead(watch_id));
            let i = choose|i: int| 0 <= i < store.pins@.len() && pins(#[trigger] store.pins@[i]);
            assert(pins_to(snapshot_id)(store.pins@[i]));
        }
    }
}

/// Whether every head pin of another watch still stands.
pub open spec fn others_pinned(before: Seq<Pin>, after: Seq<Pin>, watch_id: [u8; 16]) -> bool {
    forall|snapshot_id: i64, other: [u8; 16]|
        other != watch_id && head_pinned(before, snapshot_id, other) ==> #[trigger] head_pinned(
            after,
            snapshot_id,
            other,
        )
}

proof fn lemma_published_head(before: Store, after: Store, watch_id: [u8; 16])
    requires
        heads_kept(before),
        fresh(before.revisions@) == Some(after.revisions@.last().id),
        after.revisions@ == before.revisions@.push(after.revisions@.last()),
        place(before.watches@, watch_id) matches Some(at) && {
            &&& after.watches@ == before.watches@.update(at, after.watches@[at])
            &&& after.watches@[at].id == before.watches@[at].id
            &&& after.watches@[at].indexed_revision_id == Some(after.revisions@.last().id)
        },
        head_pinned(after.pins@, after.revisions@.last().snapshot_id, watch_id),
        others_pinned(before.pins@, after.pins@, watch_id),
    ensures
        heads_kept(after),
{
    law_next_number_is_new(before.revisions@);
    let at = place(before.watches@, watch_id)->0;
    let added = after.revisions@.last();
    lemma_place(before.watches@, watch_id, 0);
    assert forall|other: [u8; 16]| #[trigger] head_kept(after, other) by {
        assert(head_kept(before, other));
        law_changed_row_is_found(before.watches@, at, after.watches@[at], other);
        lemma_place(before.watches@, other, 0);
        if let Some(watch) = row(after.watches@, other) {
            if let Some(revision_id) = watch.indexed_revision_id {
                law_row_is_found(before.revisions@, added, revision_id);
                law_row_is_found(before.revisions@, added, added.id);
                if other != watch_id {
                    let head = numbered(before.revisions@, revision_id)->0.snapshot_id;
                    assert(head_pinned(before.pins@, head, other));
                    assert(head_pinned(after.pins@, head, other));
                }
            }
        }
    }
}

/// Publishing the first checkpoint of a watch keeps every head.
pub proof fn law_first_head_is_kept(
    before: Store,
    after: Store,
    reservation: InitializeReservation,
    lease_owner: [u8; 16],
    snapshot_id: i64,
    snapshot_uuid: [u8; 16],
    checked: CheckedIndex,
    now_ns: i64,
    published: Result<InitializedWatch, ManagerError>,
)
    requires
        publishes_initial(
            before,
            after,
            reservation,
            lease_owner,
            snapshot_id,
            snapshot_uuid,
            checked,
            now_ns,
            published,
        ),
        heads_kept(before),
    ensures
        heads_kept(after),
{
    if published is Ok {
        let watch_id = reservation.watch_id;
        let head = Pin {
            snapshot_id,
            owner: PinOwner::WatchIndexedHead(watch_id),
            reason: PinReason::InitializedIndexHead,
        };
        let last = Pin {
            snapshot_id,
            owner: PinOwner::WatchLastCut(watch_id),
            reason: PinReason::InitializedPhysicalHead,
        };
        let gone = pins_for(
            snapshot_id,
            PinOwner::Operation(reservation.operation_id),
            PinReason::InitializeBuild,
        );
        let pins = before.pins@;
        assert forall|kept: i64, other: [u8; 16]|
            #![trigger head_pinned(after.pins@, kept, other)]
            head_pinned(after.pins@, kept, other) == (head_pinned(pins, kept, other) || (kept
                == snapshot_id && other == watch_id)) by {
            let picks = pins_on(kept, PinOwner::WatchIndexedHead(other));
            lemma_some_pushed(pins, head, picks);
            lemma_some_pushed(pins.push(head), last, picks);
            lemma_some_left(pins.push(head).push(last), gone, picks);
        }
        lemma_place(before.watches@, watch_id, 0);
        lemma_published_head(before, after, watch_id);
    }
}

/// Publishing a delta keeps every head, where the cut has a snapshot of its own.
pub proof fn law_delta_head_is_kept(
    before: Store,
    after: Store,
    base_revision_id: i64,
    reservation: CutReservation,
    lease_owner: [u8; 16],
    snapshot_id: i64,
    manifest: ManifestView,
    applied: AppliedDelta,
    digests: DeltaDigests,
    now_ns: i64,
    published: Result<PublishedCut, ManagerError>,
)
    requires
        publishes_delta(
            before,
            after,
            base_revision_id,
            reservation,
            lease_owner,
            snapshot_id,
            manifest,
            applied,
            digests,
            now_ns,
            published,
        ),
        numbered(before.revisions@, base_revision_id) matches Some(base) ==> base.snapshot_id
            != snapshot_id,
        heads_kept(before),
    ensures
        heads_kept(after),
{
    if published is Ok {
        let watch_id = reservation.watch_id;
        let base = numbered(before.revisions@, base_revision_id)->0;
        let head = Pin {
            snapshot_id,
            owner: PinOwner::WatchIndexedHead(watch_id),
            reason: PinReason::IndexedHead,
        };
        let replaced = pins_on(base.snapshot_id, PinOwner::WatchIndexedHead(watch_id));
        let gone = operation_pins_on(reservation.operation_id, base.snapshot_id, snapshot_id);
        let all = before.pins@.push(head);
        assert forall|kept: i64, other: [u8; 16]|
            #![trigger head_pinned(after.pins@, kept, other)]
            (other != watch_id || kept == snapshot_id) && (head_pinned(before.pins@, kept, other)
                || (kept == snapshot_id && other == watch_id)) implies head_pinned(
            after.pins@,
            kept,
            other,
        ) by {
            let picks = pins_on(kept, PinOwner::WatchIndexedHead(other));
            lemma_some_pushed(before.pins@, head, picks);
            lemma_some_left(all, replaced, picks);
            lemma_some_left(removing(all, replaced), gone, picks);
        }
        lemma_place(before.watches@, watch_id, 0);
        lemma_published_head(before, after, watch_id);
    }
}

/// Publishing a cut as a whole keeps every head, where the cut has a snapshot of
/// its own.
pub proof fn law_fresh_head_is_kept(
    before: Store,
    after: Store,
    reservation: CutReservation,
    lease_owner: [u8; 16],
    snapshot_id: i64,
    snapshot_uuid: [u8; 16],
    checked: CheckedIndex,
    paths: Map<u64, PathLookup>,
    now_ns: i64,
    published: Result<PublishedCut, ManagerError>,
)
    requires
        publishes_fresh(
            before,
            after,
            reservation,
            lease_owner,
            snapshot_id,
            snapshot_uuid,
            checked,
            paths,
            now_ns,
            published,
        ),
        head_before(before, reservation.watch_id, reservation.sequence) matches Some(head)
            ==> numbered(before.revisions@, head.0)->0.snapshot_id != snapshot_id,
        heads_kept(before),
    ensures
        heads_kept(after),
{
    if published is Ok {
        let watch_id = reservation.watch_id;
        let based = head_before(before, watch_id, reservation.sequence)->0;
        let base = numbered(before.revisions@, based.0)->0;
        let head = Pin {
            snapshot_id,
            owner: PinOwner::WatchIndexedHead(watch_id),
            reason: PinReason::GapRecoveryHead,
        };
        let replaced = pins_on(base.snapshot_id, PinOwner::WatchIndexedHead(watch_id));
        let gone = pins_of(PinOwner::Operation(reservation.operation_id));
        let all = before.pins@.push(head);
        assert forall|kept: i64, other: [u8; 16]|
            #![trigger head_pinned(after.pins@, kept, other)]
            (other != watch_id || kept == snapshot_id) && (head_pinned(before.pins@, kept, other)
                || (kept == snapshot_id && other == watch_id)) implies head_pinned(
            after.pins@,
            kept,
            other,
        ) by {
            let picks = pins_on(kept, PinOwner::WatchIndexedHead(other));
            lemma_some_pushed(before.pins@, head, picks);
            lemma_some_left(all, replaced, picks);
            lemma_some_left(removing(all, replaced), gone, picks);
        }
        lemma_place(before.watches@, watch_id, 0);
        lemma_published_head(before, after, watch_id);
    }
}

/// Publishing a worktree keeps every head, where the worktree grew out of a
/// stored revision.
pub proof fn law_worktree_head_is_kept(
    before: Store,
    after: Store,
    reservation: WorktreeReservation,
    lease_owner: [u8; 16],
    topology_fence: i64,
    subvol_uuid: [u8; 16],
    now_ns: i64,
    ids: ChildIds,
    published: Result<TrackedWorktree, ManagerError>,
)
    requires
        publishes_worktree(
            before,
            after,
            reservation,
            lease_owner,
            topology_fence,
            subvol_uuid,
            now_ns,
            ids,
            published,
        ),
        numbered(before.revisions@, reservation.seed_revision_id) matches Some(seed)
            && seed.snapshot_id == reservation.seed_snapshot_id,
        heads_kept(before),
    ensures
        heads_kept(after),
{
    if published is Ok {
        let seed = reservation.seed_snapshot_id;
        let head = Pin {
            snapshot_id: seed,
            owner: PinOwner::WatchIndexedHead(ids.watch_id),
            reason: PinReason::WorktreeSeedIndex,
        };
        let last = Pin {
            snapshot_id: seed,
            owner: PinOwner::WatchLastCut(ids.watch_id),
            reason: PinReason::WorktreeSeedCut,
        };
        let gone = pins_for(
            seed,
            PinOwner::Operation(reservation.operation_id),
            PinReason::WorktreeSeed,
        );
        let left = removing(before.pins@, gone);
        assert forall|kept: i64, other: [u8; 16]|
            #![trigger head_pinned(after.pins@, kept, other)]
            head_pinned(after.pins@, kept, other) == (head_pinned(before.pins@, kept, other) || (
            kept == seed && other == ids.watch_id)) by {
            let picks = pins_on(kept, PinOwner::WatchIndexedHead(other));
            lemma_some_left(before.pins@, gone, picks);
            lemma_some_pushed(left, head, picks);
            lemma_some_pushed(left.push(head), last, picks);
        }
        assert forall|other: [u8; 16]| #[trigger] head_kept(after, other) by {
            assert(head_kept(before, other));
            lemma_place_pushed(before.watches@, after.watches@.last(), other, 0);
            lemma_place(before.watches@, other, 0);
            if let Some(watch) = row(after.watches@, other) {
                if let Some(revision_id) = watch.indexed_revision_id {
                    let kept = numbered(before.revisions@, revision_id)->0.snapshot_id;
                    assert(head_pinned(after.pins@, kept, other));
                }
            }
        }
    }
}

/// Whether the same watches are there, each indexed to what it was.
pub open spec fn same_heads(before: Seq<Watch>, after: Seq<Watch>) -> bool {
    &&& before.len() == after.len()
    &&& forall|i: int|
        #![trigger before[i]]
        #![trigger after[i]]
        0 <= i < before.len() ==> after[i].id == before[i].id && after[i].indexed_revision_id
            == before[i].indexed_revision_id
}

proof fn lemma_heads_stay(before: Store, after: Store, gone: spec_fn(Pin) -> bool)
    requires
        heads_kept(before),
        same_heads(before.watches@, after.watches@),
        after.revisions@ == before.revisions@,
        after.pins@ == removing(before.pins@, gone),
        forall|pin: Pin| #[trigger] gone(pin) ==> !(pin.owner is WatchIndexedHead),
    ensures
        heads_kept(after),
{
    assert forall|watch_id: [u8; 16]| #[trigger] head_kept(after, watch_id) by {
        assert(head_kept(before, watch_id));
        lemma_place_kept(before.watches@, after.watches@, watch_id, 0);
        lemma_place(before.watches@, watch_id, 0);
        if let Some(watch) = row(after.watches@, watch_id) {
            if let Some(revision_id) = watch.indexed_revision_id {
                let kept = numbered(before.revisions@, revision_id)->0.snapshot_id;
                let picks = pins_on(kept, PinOwner::WatchIndexedHead(watch_id));
                lemma_some_left(before.pins@, gone, picks);
            }
        }
    }
}

/// Retention that has run out touches no head.
pub proof fn law_expiry_keeps_heads(
    before: Store,
    after: Store,
    now_ns: i64,
    ended: Result<usize, ManagerError>,
)
    requires
        expires_leases(before, after, now_ns, ended),
        heads_kept(before),
    ensures
        heads_kept(after),
{
    lemma_heads_stay(before, after, run_out_pins(before.retention_leases@, now_ns));
}

/// Publishing a comparison of two old snapshots touches no head.
pub proof fn law_comparison_keeps_heads(
    before: Store,
    after: Store,
    claim: HistoricalComparisonClaim,
    manifest: ManifestView,
    applied: AppliedDelta,
    invalid: Map<i64, String>,
    now_ns: i64,
    published: Result<HistoricalChanges, ManagerError>,
)
    requires
        publishes_comparison(
            before,
            after,
            claim,
            manifest,
            applied,
            invalid,
            now_ns,
            published,
        ),
        heads_kept(before),
    ensures
        heads_kept(after),
{
    if published is Ok {
        lemma_heads_stay(before, after, pins_of(PinOwner::Comparison(claim.comparison_id)));
    }
}

/// Taking a grant back touches no head, whatever it gives up or lets go of.
pub proof fn law_revocation_keeps_heads(
    before: Store,
    after: Store,
    watch_id: [u8; 16],
    authorization_id: [u8; 16],
    now_ns: i64,
    epoch: [u8; 16],
    revoked: Result<(), ManagerError>,
)
    requires
        revokes(before, after, watch_id, authorization_id, now_ns, epoch, revoked),
        heads_kept(before),
    ensures
        heads_kept(after),
{
    if revoked is Ok {
        let choice = PlanChoice::Grant(watch_id, authorization_id);
        let planned = planned_pins(before.operations@, choice);
        let retained = retained_pins(before.retention_leases@, watch_id, authorization_id);
        let middle = Store { pins: after.pins, ..before };
        assert forall|other: [u8; 16]| #[trigger] head_kept(middle, other) by {
            assert(head_kept(before, other));
            if let Some(watch) = row(before.watches@, other) {
                if let Some(revision_id) = watch.indexed_revision_id {
                    let kept = numbered(before.revisions@, revision_id)->0.snapshot_id;
                    let picks = pins_on(kept, PinOwner::WatchIndexedHead(other));
                    lemma_some_left(before.pins@, planned, picks);
                    lemma_some_left(removing(before.pins@, planned), retained, picks);
                }
            }
        }
        let none = |pin: Pin| false;
        lemma_none_gone(after.pins@);
        lemma_heads_stay(middle, after, none);
    }
}

proof fn lemma_none_gone(pins: Seq<Pin>)
    ensures
        removing(pins, |pin: Pin| false) == pins,
    decreases pins.len(),
{
    reveal(Seq::filter);
    if pins.len() > 0 {
        lemma_none_gone(pins.drop_last());
        assert(pins =~= pins.drop_last().push(pins.last()));
    }
}

proof fn lemma_refaced(watches: Seq<Watch>, epochs: Seq<[u8; 16]>)
    ensures
        same_heads(watches, refaced(watches, epochs)),
    decreases watches.len(),
{
    if watches.len() > 0 {
        let front = watches.drop_last();
        lemma_refaced(front, epochs);
        let after = refaced(watches, epochs);
        assert forall|i: int|
            #![trigger watches[i]]
            #![trigger after[i]]
            0 <= i < watches.len() implies after[i].id == watches[i].id
            && after[i].indexed_revision_id == watches[i].indexed_revision_id by {
            if i < front.len() {
                assert(front[i] == watches[i]);
                assert(after[i] == refaced(front, epochs)[i]);
            }
        }
    }
}

/// A new process touches no head, whatever of the old one it ends.
pub proof fn law_new_process_keeps_heads(
    before: Store,
    after: Store,
    boot_id: [u8; 16],
    epochs: Seq<[u8; 16]>,
    recovered: Result<RecoveryReport, ManagerError>,
)
    requires
        recovers(before, after, boot_id, epochs, recovered),
        heads_kept(before),
    ensures
        heads_kept(after),
{
    if recovered is Ok {
        lemma_refaced(before.watches@, epochs);
        lemma_heads_stay(before, after, claimed_pins(before.comparisons@));
    }
}

/// Whether no two watches have the same identifier.
pub open spec fn watches_differ(watches: Seq<Watch>) -> bool {
    forall|i: int, j: int|
        0 <= i < j < watches.len() ==> (#[trigger] watches[i]).id != (#[trigger] watches[j]).id
}

/// Giving up what did not begin touches no head of a watch that stays.
pub proof fn law_giving_up_keeps_heads(
    before: Store,
    after: Store,
    now_ns: i64,
    aborted: Result<usize, ManagerError>,
)
    requires
        aborts_operations(before, after, now_ns, aborted),
        watches_differ(before.watches@),
        heads_kept(before),
    ensures
        heads_kept(after),
{
    let freed = changing(before.watches@, cut_freed(before.operations@, PlanChoice::All));
    let gone = orphaned(after.operations@);
    assert forall|watch_id: [u8; 16]| #[trigger] head_kept(after, watch_id) by {
        assert(head_kept(before, watch_id));
        lemma_place(after.watches@, watch_id, 0);
        lemma_place(before.watches@, watch_id, 0);
        if let Some(watch) = row(after.watches@, watch_id) {
            law_removing(freed, gone, watch);
            assert(after.watches@.contains(watch));
            let i = choose|i: int| 0 <= i < freed.len() && freed[i] == watch;
            assert(before.watches@[i].id == watch_id);
            lemma_place_lowest(before.watches@, watch_id, i, 0);
            assert(row(before.watches@, watch_id) == Some(before.watches@[i]));
            if let Some(revision_id) = watch.indexed_revision_id {
                let kept = numbered(before.revisions@, revision_id)->0.snapshot_id;
                let picks = pins_on(kept, PinOwner::WatchIndexedHead(watch_id));
                lemma_some_left(
                    before.pins@,
                    planned_pins(before.operations@, PlanChoice::All),
                    picks,
                );
            }
        }
    }
}

proof fn lemma_place_lowest<T: Identified>(rows: Seq<T>, id: [u8; 16], at: int, from: int)
    requires
        0 <= from <= at < rows.len(),
        rows[at].ident() == id,
    ensures
        place_from(rows, id, from) matches Some(found) && from <= found <= at
            && rows[found].ident() == id,
    decreases at - from,
{
    if rows[from].ident() != id {
        lemma_place_lowest(rows, id, at, from + 1);
    }
}

proof fn lemma_compaction_rows(
    before: Seq<Revision>,
    after: Seq<Revision>,
    id: i64,
    builder_owner: [u8; 16],
    digest: IndexDigest,
    number: i64,
)
    requires
        compaction(before, after, id, builder_owner, digest),
        numbered(before, id) is Some,
    ensures
        match (numbered(before, number), numbered(after, number)) {
            (Some(old), Some(new)) => old.snapshot_id == new.snapshot_id,
            (None, None) => true,
            _ => false,
        },
{
    let at = slot(before, id)->0;
    lemma_slot(before, id, 0);
    lemma_slot(before, number, 0);
    if !is_compact(before[at]) {
        lemma_slot_kept(before, after, at, number, 0);
    }
}

/// Storing a revision as a checkpoint of its own keeps every head.
pub proof fn law_compaction_keeps_heads(
    before: Store,
    after: Store,
    id: i64,
    builder_owner: [u8; 16],
    digest: IndexDigest,
)
    requires
        after == (Store { revisions: after.revisions, ..before }),
        compaction(before.revisions@, after.revisions@, id, builder_owner, digest),
        numbered(before.revisions@, id) is Some,
        heads_kept(before),
    ensures
        heads_kept(after),
{
    assert forall|watch_id: [u8; 16]| #[trigger] head_kept(after, watch_id) by {
        assert(head_kept(before, watch_id));
        if let Some(watch) = row(after.watches@, watch_id) {
            if let Some(revision_id) = watch.indexed_revision_id {
                lemma_compaction_rows(
                    before.revisions@,
                    after.revisions@,
                    id,
                    builder_owner,
                    digest,
                    revision_id,
                );
            }
        }
    }
}

proof fn lemma_indexed_stays(
    watches: Seq<Watch>,
    worktrees: Seq<Worktree>,
    query_pins: Seq<RevisionPin>,
    pins: Seq<Pin>,
    boundaries: Seq<Boundary>,
    revisions: Seq<Revision>,
    id: i64,
)
    requires
        some(watches, indexed_to(id)),
    ensures
        numbered(
            needed_revisions(watches, worktrees, query_pins, pins, boundaries, revisions),
            id,
        ) == numbered(revisions, id),
    decreases revisions.len(),
{
    let picks = unneeded(watches, worktrees, query_pins, pins, boundaries, revisions);
    if let Some(at) = first(revisions, picks) {
        if 0 <= at < revisions.len() {
            lemma_first(revisions, picks, 0);
            assert(picks(revisions[at]));
            lemma_row_stays(revisions, at, id, 0);
            lemma_indexed_stays(
                watches,
                worktrees,
                query_pins,
                pins,
                boundaries,
                revisions.remove(at),
                id,
            );
        }
    }
}

/// Letting old history go keeps every head.
pub proof fn law_floor_keeps_heads(
    before: Store,
    after: Store,
    watch_id: [u8; 16],
    new_floor: i64,
    now_ns: i64,
    owner: [u8; 16],
    report: RevisionReport,
    reclaimed: Result<usize, ManagerError>,
)
    requires
        moves_floor(before, after, watch_id, new_floor, now_ns, owner, report, reclaimed),
        heads_kept(before),
    ensures
        heads_kept(after),
{
    if after != before {
        let (floor, _, revision_id) = floor_of(before, watch_id)->Ok_0;
        let at = place(before.watches@, watch_id)->0;
        lemma_place(before.watches@, watch_id, 0);
        let middle = choose|middle: Store| #[trigger]
            compacts(before, middle, revision_id, owner, report.digest->Ok_0) && if reclaimed is Ok {
                truncates(middle, after, watch_id, new_floor, now_ns)
            } else {
                after == middle
            };
        law_compaction_keeps_heads(before, middle, revision_id, owner, report.digest->Ok_0);
        if reclaimed is Ok {
            assert forall|other: [u8; 16]| #[trigger] head_kept(after, other) by {
                assert(head_kept(middle, other));
                law_changed_row_is_found(before.watches@, at, after.watches@[at], other);
                lemma_place(before.watches@, other, 0);
                lemma_place(after.watches@, other, 0);
                if let Some(watch) = row(after.watches@, other) {
                    if let Some(id) = watch.indexed_revision_id {
                        let there = place(after.watches@, other)->0;
                        assert(indexed_to(id)(after.watches@[there]));
                        lemma_indexed_stays(
                            after.watches@,
                            after.worktrees@,
                            after.revision_pins@,
                            after.pins@,
                            after.boundaries@,
                            middle.revisions@,
                            id,
                        );
                    }
                }
            }
        }
    }
}

/// Publishing a cut on its base keeps every head, where the cut has a snapshot
/// of its own.
pub proof fn law_adjacent_head_is_kept(
    before: Store,
    after: Store,
    reservation: CutReservation,
    lease_owner: [u8; 16],
    snapshot: RecordedSnapshot,
    manifest: ManifestView,
    applied: AppliedDelta,
    base_report: RevisionReport,
    digests: DeltaDigests,
    now_ns: i64,
    published: Result<PublishedCut, ManagerError>,
)
    requires
        publishes_adjacent(
            before,
            after,
            reservation,
            lease_owner,
            snapshot,
            manifest,
            applied,
            base_report,
            digests,
            now_ns,
            published,
        ),
        delta_base(before, reservation) matches Ok(base) ==> numbered(
            before.revisions@,
            base,
        )->0.snapshot_id != snapshot.snapshot_id,
        heads_kept(before),
    ensures
        heads_kept(after),
{
    let (middle, readied) = choose|middle: Store, readied: Result<i64, Seq<char>>| #[trigger]
        readies_base(before, middle, reservation, lease_owner, base_report, readied)
            && match readied {
            Err(fault) => after == middle,
            Ok(base_revision_id) => publishes_delta(
                middle,
                after,
                base_revision_id,
                reservation,
                lease_owner,
                snapshot.snapshot_id,
                manifest,
                applied,
                digests,
                now_ns,
                published,
            ),
        };
    if let Ok(base) = delta_base(before, reservation) {
        if middle != before {
            law_compaction_keeps_heads(before, middle, base, lease_owner, base_report.digest->Ok_0);
            lemma_compaction_rows(
                before.revisions@,
                middle.revisions@,
                base,
                lease_owner,
                base_report.digest->Ok_0,
                base,
            );
        }
        if readied is Ok {
            law_delta_head_is_kept(
                middle,
                after,
                base,
                reservation,
                lease_owner,
                snapshot.snapshot_id,
                manifest,
                applied,
                digests,
                now_ns,
                published,
            );
        }
    }
}

/// A store that remembers nothing keeps every head.
pub proof fn law_empty_store_keeps_heads(store: Store)
    requires
        store.is_empty(),
    ensures
        heads_kept(store),
{
    assert forall|watch_id: [u8; 16]| #[trigger] head_kept(store, watch_id) by {
        lemma_place(store.watches@, watch_id, 0);
    }
}

proof fn lemma_heads_carry(before: Store, after: Store)
    requires
        heads_kept(before),
        same_heads(before.watches@, after.watches@),
        after.revisions@ == before.revisions@,
        forall|snapshot_id: i64, watch_id: [u8; 16]|
            head_pinned(before.pins@, snapshot_id, watch_id) ==> #[trigger] head_pinned(
                after.pins@,
                snapshot_id,
                watch_id,
            ),
    ensures
        heads_kept(after),
{
    assert forall|watch_id: [u8; 16]| #[trigger] head_kept(after, watch_id) by {
        assert(head_kept(before, watch_id));
        lemma_place_kept(before.watches@, after.watches@, watch_id, 0);
        lemma_place(before.watches@, watch_id, 0);
        if let Some(watch) = row(after.watches@, watch_id) {
            if let Some(revision_id) = watch.indexed_revision_id {
                let kept = numbered(before.revisions@, revision_id)->0.snapshot_id;
                assert(head_pinned(after.pins@, kept, watch_id));
            }
        }
    }
}

proof fn lemma_added_pin(before: Store, after: Store, pin: Pin)
    requires
        heads_kept(before),
        same_heads(before.watches@, after.watches@),
        after.revisions@ == before.revisions@,
        after.pins@ == before.pins@.push(pin),
    ensures
        heads_kept(after),
{
    assert forall|snapshot_id: i64, watch_id: [u8; 16]|
        head_pinned(before.pins@, snapshot_id, watch_id) implies #[trigger] head_pinned(
        after.pins@,
        snapshot_id,
        watch_id,
    ) by {
        let picks = pins_on(snapshot_id, PinOwner::WatchIndexedHead(watch_id));
        lemma_some_pushed(before.pins@, pin, picks);
    }
    lemma_heads_carry(before, after);
}

/// A watch that is not initialized yet has no head.
pub proof fn law_reserved_watch_keeps_heads(
    before: Store,
    after: Store,
    request: InitializeRequest,
    ids: InitializeIds,
    reserved: Result<InitializeReservation, ManagerError>,
)
    requires
        reserves_initialize(before, after, request, ids, reserved),
        heads_kept(before),
    ensures
        heads_kept(after),
{
    if reserved is Ok {
        assert forall|watch_id: [u8; 16]| #[trigger] head_kept(after, watch_id) by {
            assert(head_kept(before, watch_id));
            lemma_place_pushed(before.watches@, after.watches@.last(), watch_id, 0);
            lemma_place(before.watches@, watch_id, 0);
        }
    }
}

/// Recording the snapshot of an initialization only pins it.
pub proof fn law_recorded_initialize_keeps_heads(
    before: Store,
    after: Store,
    reservation: InitializeReservation,
    lease_owner: [u8; 16],
    snapshot: SnapshotIdentity,
    now_ns: i64,
    recorded: Result<RecordedSnapshot, ManagerError>,
)
    requires
        records_initialize(before, after, reservation, lease_owner, snapshot, now_ns, recorded),
        heads_kept(before),
    ensures
        heads_kept(after),
{
    if recorded is Ok {
        lemma_added_pin(before, after, after.pins@.last());
    }
}

/// Reserving a cut only pins its base.
pub proof fn law_reserved_cut_keeps_heads(
    before: Store,
    after: Store,
    request: CutRequest,
    id: [u8; 16],
    reserved: Result<CutReservation, ManagerError>,
)
    requires
        reserves_cut(before, after, request, id, reserved),
        heads_kept(before),
    ensures
        heads_kept(after),
{
    if reserved is Ok {
        lemma_place(before.watches@, request.watch_id, 0);
        lemma_added_pin(before, after, after.pins@.last());
    }
}

/// Recording the snapshot of a cut only pins it.
pub proof fn law_recorded_cut_keeps_heads(
    before: Store,
    after: Store,
    reservation: CutReservation,
    lease_owner: [u8; 16],
    snapshot: SnapshotIdentity,
    now_ns: i64,
    recorded: Result<RecordedSnapshot, ManagerError>,
)
    requires
        records_cut(before, after, reservation, lease_owner, snapshot, now_ns, recorded),
        heads_kept(before),
    ensures
        heads_kept(after),
{
    if recorded is Ok {
        lemma_added_pin(before, after, after.pins@.last());
    }
}

/// A cut that is not indexed yet moves no head.
pub proof fn law_physical_cut_keeps_heads(
    before: Store,
    after: Store,
    reservation: CutReservation,
    lease_owner: [u8; 16],
    snapshot: RecordedSnapshot,
    now_ns: i64,
    published: Result<(), ManagerError>,
)
    requires
        publishes_cut(before, after, reservation, lease_owner, snapshot, now_ns, published),
        heads_kept(before),
    ensures
        heads_kept(after),
{
    if published is Ok {
        let last = PinOwner::WatchLastCut(reservation.watch_id);
        let pin = Pin {
            snapshot_id: snapshot.snapshot_id,
            owner: last,
            reason: PinReason::PhysicalHead,
        };
        let gone = pins_on(reservation.base_snapshot_id, last);
        lemma_place(before.watches@, reservation.watch_id, 0);
        assert forall|snapshot_id: i64, watch_id: [u8; 16]|
            head_pinned(before.pins@, snapshot_id, watch_id) implies #[trigger] head_pinned(
            after.pins@,
            snapshot_id,
            watch_id,
        ) by {
            let picks = pins_on(snapshot_id, PinOwner::WatchIndexedHead(watch_id));
            lemma_some_pushed(before.pins@, pin, picks);
            lemma_some_left(before.pins@.push(pin), gone, picks);
        }
        lemma_heads_carry(before, after);
    }
}

/// Reserving a worktree only pins its seed.
pub proof fn law_reserved_worktree_keeps_heads(
    before: Store,
    after: Store,
    request: WorktreeRequest,
    ids: WorktreeIds,
    reserved: Result<WorktreeReservation, ManagerError>,
)
    requires
        reserves_worktree(before, after, request, ids, reserved),
        heads_kept(before),
    ensures
        heads_kept(after),
{
    if reserved is Ok {
        lemma_added_pin(before, after, after.pins@.last());
    }
}

/// Retaining a snapshot only pins it.
pub proof fn law_retention_keeps_heads(
    before: Store,
    after: Store,
    watch_id: [u8; 16],
    authorization_id: [u8; 16],
    snapshot_id: i64,
    now_ns: i64,
    expires_ns: i64,
    id: [u8; 16],
    retained: Result<RetentionLease, ManagerError>,
)
    requires
        retains(
            before,
            after,
            watch_id,
            authorization_id,
            snapshot_id,
            now_ns,
            expires_ns,
            id,
            retained,
        ),
        heads_kept(before),
    ensures
        heads_kept(after),
{
    if retained is Ok {
        lemma_added_pin(before, after, after.pins@.last());
    }
}

/// Claiming a comparison only pins its two ends.
pub proof fn law_claim_keeps_heads(
    before: Store,
    after: Store,
    request: HistoricalComparisonRequest,
    admitted: Result<HistoricalComparisonAdmission, ManagerError>,
)
    requires
        claims_comparison(before, after, request, admitted),
        heads_kept(before),
    ensures
        heads_kept(after),
{
    assert forall|snapshot_id: i64, watch_id: [u8; 16]|
        head_pinned(before.pins@, snapshot_id, watch_id) implies #[trigger] head_pinned(
        after.pins@,
        snapshot_id,
        watch_id,
    ) by {
        let picks = pins_on(snapshot_id, PinOwner::WatchIndexedHead(watch_id));
        if after != before {
            let id = match admitted {
                Ok(HistoricalComparisonAdmission::Claimed(claim)) => claim.comparison_id,
                _ => 0,
            };
            let ends = comparison_ends(before, request)->Ok_0;
            let source = Pin {
                snapshot_id: ends.from.0,
                owner: PinOwner::Comparison(id),
                reason: PinReason::HistoricalComparisonSource,
            };
            let target = Pin {
                snapshot_id: ends.to.0,
                owner: PinOwner::Comparison(id),
                reason: PinReason::HistoricalComparisonTarget,
            };
            assert(after.pins@ == with_pin(with_pin(before.pins@, source), target));
            lemma_some_pushed(before.pins@, source, picks);
            lemma_some_pushed(with_pin(before.pins@, source), target, picks);
        }
    }
    lemma_heads_carry(before, after);
}

/// Taking over what an earlier process had begun moves no head.
pub proof fn law_takeover_keeps_heads(
    before: Store,
    after: Store,
    new_owner: [u8; 16],
    lease_expires_ns: i64,
    taken: Result<usize, ManagerError>,
)
    requires
        takes_over(before, after, new_owner, lease_expires_ns, taken),
        heads_kept(before),
    ensures
        heads_kept(after),
{
    lemma_heads_carry(before, after);
}

/// A facade that is put up moves no head.
pub proof fn law_facade_keeps_heads(
    before: Store,
    after: Store,
    watch_id: [u8; 16],
    authorization_id: [u8; 16],
    binding: ViewBinding,
    clock_epoch: [u8; 16],
    activated: Result<FacadeActivation, ManagerError>,
)
    requires
        activates_facade(
            before,
            after,
            watch_id,
            authorization_id,
            binding,
            clock_epoch,
            activated,
        ),
        heads_kept(before),
    ensures
        heads_kept(after),
{
    if activated is Ok {
        lemma_place(before.watches@, watch_id, 0);
        lemma_heads_carry(before, after);
    }
}

/// A facade that is taken down moves no head.
pub proof fn law_taken_down_facade_keeps_heads(
    before: Store,
    after: Store,
    activation: FacadeActivation,
    epoch: [u8; 16],
    invalidated: Result<(), ManagerError>,
)
    requires
        invalidates_facade(before, after, activation, epoch, invalidated),
        heads_kept(before),
    ensures
        heads_kept(after),
{
    if invalidated is Ok {
        lemma_place(before.watches@, activation.watch_id, 0);
        lemma_heads_carry(before, after);
    }
}

/// A cut that failed lets go of its own pins only.
pub proof fn law_failed_cut_keeps_heads(
    before: Store,
    after: Store,
    reservation: CutReservation,
    lease_owner: [u8; 16],
    text: Seq<char>,
    now_ns: i64,
    failed: Result<(), ManagerError>,
)
    requires
        fails_cut(before, after, reservation, lease_owner, text, now_ns, failed),
        heads_kept(before),
    ensures
        heads_kept(after),
{
    if failed is Ok {
        lemma_heads_stay(
            before,
            after,
            pins_of(PinOwner::Operation(reservation.operation_id)),
        );
    }
}

/// A snapshot that is no longer retained loses that pin only.
pub proof fn law_release_keeps_heads(
    before: Store,
    after: Store,
    lease: RetentionLease,
    released: Result<(), ManagerError>,
)
    requires
        releases_retention(before, after, lease, released),
        heads_kept(before),
    ensures
        heads_kept(after),
{
    if released is Ok {
        let owner = PinOwner::RetentionLease(lease.id);
        let gone = pins_for(lease.snapshot_id, owner, PinReason::CallerRetention);
        lemma_heads_stay(before, after, gone);
    }
}

/// A precision journal that begins moves no head.
pub proof fn law_begun_journal_keeps_heads(
    before: Store,
    after: Store,
    activation: FacadeActivation,
    epoch: [u8; 16],
    begun: Result<GuardCursor, ManagerError>,
)
    requires
        begins_guard(before, after, activation, epoch, begun),
        heads_kept(before),
    ensures
        heads_kept(after),
{
    if begun is Ok {
        lemma_place(before.watches@, activation.watch_id, 0);
        lemma_heads_carry(before, after);
    }
}

/// A precision journal that grows moves no head.
pub proof fn law_grown_journal_keeps_heads(
    before: Store,
    after: Store,
    activation: FacadeActivation,
    epoch: [u8; 16],
    events: Seq<MutationHint>,
    observed_ns: i64,
    appended: Result<GuardCursor, ManagerError>,
)
    requires
        appends_events(before, after, activation, epoch, events, observed_ns, appended),
        heads_kept(before),
    ensures
        heads_kept(after),
{
    if appended is Ok {
        lemma_place(before.watches@, activation.watch_id, 0);
        lemma_heads_carry(before, after);
    }
}

/// A precision journal that is complete moves no head.
pub proof fn law_completed_journal_keeps_heads(
    before: Store,
    after: Store,
    activation: FacadeActivation,
    cursor: GuardCursor,
    completed: Result<(), ManagerError>,
)
    requires
        completes_guard(before, after, activation, cursor, completed),
        heads_kept(before),
    ensures
        heads_kept(after),
{
    if completed is Ok {
        lemma_place(before.watches@, activation.watch_id, 0);
        lemma_heads_carry(before, after);
    }
}

/// A precision journal with a gap moves no head.
pub proof fn law_gapped_journal_keeps_heads(
    before: Store,
    after: Store,
    activation: FacadeActivation,
    epoch: [u8; 16],
    gapped: Result<(), ManagerError>,
)
    requires
        gaps_guard(before, after, activation, epoch, gapped),
        heads_kept(before),
    ensures
        heads_kept(after),
{
    if gapped is Ok {
        lemma_place(before.watches@, activation.watch_id, 0);
        lemma_heads_carry(before, after);
    }
}

} // verus!
