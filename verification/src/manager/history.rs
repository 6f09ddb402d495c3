//! What changed between two retained snapshots of a watch.

use crate::digest::sha256;
use crate::index::{append_events, copy_events, events_view, Event, EventView};
use crate::manager::cuts::{events_of, load_comparison_events};
use crate::manager::cuts::{claimable, is_claimable};
use crate::manager::delta::AppliedDelta;
use crate::manager::pins::{pins_of, unpin_owner};
use crate::manager::provenance::{lemma_provenance_beside, lemma_provenance_changed};
use crate::manager::publish::{cut_at, find_cut};
use crate::manager::revisions::revision_loaded;
use crate::manager::rows::{
    full_text, is_allowed, is_uid_allowed, grant_allows, none_changed, number_row, same_owner,
    uid_allowed, Comparison, ComparisonKind, ComparisonState, CutState, PhysicalState, Pin,
    PinOwner, PinReason, Revision, RevisionState, Snapshot, Store, WatchCut, WatchState,
};
use crate::manager::stage::{
    object_rows, ordered_ref_rows, ref_rows, stage_delta_rows, stage_fault, STORED_MAX,
};
use crate::manager::table::{
    any, count, find, find_first, find_number, first, fresh, law_removing, lemma_first, lemma_slot,
    numbered, removing, row, slot, some, tally,
};
use crate::manager::types::{
    holds, row_count_text, HistoricalChanges, HistoricalComparisonAdmission,
    HistoricalComparisonClaim, HistoricalComparisonRequest, ManagerError, PERMISSION_READ,
};
use crate::manifest::{canonical_preimage, ChangedObjectsManifest, ManifestView};
use crate::text::same_array;
use std::collections::BTreeMap;
use vstd::prelude::*;

verus! {

broadcast use vstd::std_specs::btree::group_btree_axioms;

/// The version of comparisons between retained snapshots.
pub const HISTORICAL_VERSION: i64 = 2;

/// Whether the numbered snapshot is the subvolume.
pub open spec fn snapshot_is(snapshots: Seq<Snapshot>, id: i64, subvol_uuid: [u8; 16]) -> bool {
    match numbered(snapshots, id) {
        Some(snapshot) => snapshot.subvol_uuid == subvol_uuid,
        None => false,
    }
}

fn is_snapshot(snapshots: &Vec<Snapshot>, id: i64, subvol_uuid: &[u8; 16]) -> (same: bool)
    ensures
        same == snapshot_is(snapshots@, id, *subvol_uuid),
{
    match find_number(snapshots, id) {
        Some(at) => same_array(&snapshots[at].subvol_uuid, subvol_uuid),
        None => false,
    }
}

/// The cuts of a watch.
pub open spec fn cuts_of(watch_id: [u8; 16]) -> spec_fn(WatchCut) -> bool {
    |cut: WatchCut| cut.watch_id == watch_id
}

/// Where a watch has a subvolume.
#[derive(Clone, Copy, Debug, Eq, PartialEq, Structural)]
pub enum Placement {
    Nowhere,
    At(i64),
    Inconsistent,
}

/// The placement once a sequence was found as well.
pub open spec fn merged(placement: Placement, sequence: i64) -> Placement {
    match placement {
        Placement::Nowhere => Placement::At(sequence),
        Placement::At(other) => if other == sequence {
            placement
        } else {
            Placement::Inconsistent
        },
        Placement::Inconsistent => Placement::Inconsistent,
    }
}

fn merge(placement: Placement, sequence: i64) -> (both: Placement)
    ensures
        both == merged(placement, sequence),
{
    match placement {
        Placement::Nowhere => Placement::At(sequence),
        Placement::At(other) => if other == sequence {
            placement
        } else {
            Placement::Inconsistent
        },
        Placement::Inconsistent => Placement::Inconsistent,
    }
}

/// Where the first `n` cuts have a subvolume: at the sequence of a cut whose
/// target it is, and just before one whose base it is.
pub open spec fn placement_before(
    store: Store,
    watch_id: [u8; 16],
    subvol_uuid: [u8; 16],
    n: int,
) -> Placement
    decreases n,
{
    if n <= 0 {
        Placement::Nowhere
    } else {
        let earlier = placement_before(store, watch_id, subvol_uuid, n - 1);
        let cut = store.cuts@[n - 1];
        if cut.watch_id != watch_id {
            earlier
        } else {
            let targeted = if snapshot_is(store.snapshots@, cut.target_snapshot_id, subvol_uuid) {
                merged(earlier, cut.sequence)
            } else {
                earlier
            };
            if cut.sequence > i64::MIN && snapshot_is(
                store.snapshots@,
                cut.base_snapshot_id,
                subvol_uuid,
            ) {
                merged(targeted, (cut.sequence - 1) as i64)
            } else {
                targeted
            }
        }
    }
}

/// Where a watch has a subvolume: as its cuts say, or at its head where
/// nothing was cut yet.
pub open spec fn placement(store: Store, watch_id: [u8; 16], subvol_uuid: [u8; 16]) -> Placement {
    if some(store.cuts@, cuts_of(watch_id)) {
        placement_before(store, watch_id, subvol_uuid, store.cuts@.len() as int)
    } else {
        match row(store.watches@, watch_id) {
            Some(watch) => match (watch.last_cut_snapshot_id, watch.indexed_seq) {
                (Some(snapshot_id), Some(indexed)) => if snapshot_is(
                    store.snapshots@,
                    snapshot_id,
                    subvol_uuid,
                ) {
                    Placement::At(indexed)
                } else {
                    Placement::Nowhere
                },
                _ => Placement::Nowhere,
            },
            None => Placement::Nowhere,
        }
    }
}

/// The sequence of a watch at which it has a subvolume, or why there is none.
pub open spec fn sequence_of(
    store: Store,
    watch_id: [u8; 16],
    subvol_uuid: [u8; 16],
    absent: Seq<char>,
) -> Result<i64, Seq<char>> {
    match placement(store, watch_id, subvol_uuid) {
        Placement::Nowhere => Err(absent),
        Placement::At(sequence) => Ok(sequence),
        Placement::Inconsistent => Err(
            "snapshot UUID maps to inconsistent sequences on one watch branch"@,
        ),
    }
}

/// Which users may read the history of a watch.
pub open spec fn history_readable(
    store: Store,
    watch_id: [u8; 16],
    authorization_id: [u8; 16],
    requester_uid: u32,
) -> bool {
    &&& row(store.watches@, watch_id) matches Some(watch)
    &&& watch.state == WatchState::Active || watch.state == WatchState::Blocked
    &&& uid_allowed(
        store.grants@,
        watch_id,
        authorization_id,
        PERMISSION_READ,
        requester_uid,
    )
}

/// The ready cuts of a watch behind one sequence, up to another, whose changes
/// are known.
pub open spec fn replayable(watch_id: [u8; 16], from: i64, to: i64) -> spec_fn(WatchCut) -> bool {
    |cut: WatchCut|
        cut.watch_id == watch_id && from < cut.sequence <= to && cut.state == CutState::Ready
            && !cut.fresh_instance && cut.comparison_id is Some
}

/// The events of a watch from the sequence on, up to another.
pub open spec fn events_from(
    store: Store,
    watch_id: [u8; 16],
    sequence: int,
    to: int,
) -> Seq<EventView>
    decreases to - sequence + 1,
{
    if sequence > to {
        Seq::empty()
    } else {
        let here = match first(store.cuts@, cut_at(watch_id, sequence as i64)) {
            Some(at) => if store.cuts@[at].state == CutState::Ready
                && !store.cuts@[at].fresh_instance {
                match store.cuts@[at].comparison_id {
                    Some(id) => events_view(events_of(store.comparisons@, id)),
                    None => Seq::empty(),
                }
            } else {
                Seq::empty()
            },
            None => Seq::empty(),
        };
        here + events_from(store, watch_id, sequence + 1, to)
    }
}

/// The sequences of two snapshots of a watch, or why its history between them
/// cannot be replayed.
pub open spec fn replay_range(
    store: Store,
    watch_id: [u8; 16],
    authorization_id: [u8; 16],
    requester_uid: u32,
    from_snapshot_uuid: [u8; 16],
    to_snapshot_uuid: [u8; 16],
) -> Result<(i64, i64), Seq<char>> {
    if !history_readable(store, watch_id, authorization_id, requester_uid) {
        Err("historical replay authorization is absent or stale"@)
    } else {
        match sequence_of(
            store,
            watch_id,
            from_snapshot_uuid,
            "source snapshot is not a cut on this watch branch"@,
        ) {
            Err(fault) => Err(fault),
            Ok(from) => match sequence_of(
                store,
                watch_id,
                to_snapshot_uuid,
                "target snapshot is not a cut on this watch branch"@,
            ) {
                Err(fault) => Err(fault),
                Ok(to) => if from > to {
                    Err("historical replay source is newer than its target"@)
                } else if row(store.watches@, watch_id)->0.replay_floor_seq is None {
                    Err("Invalid column type Null at index: 0, name: replay_floor_seq"@)
                } else {
                    Ok((from, to))
                },
            },
        }
    }
}

/// Whether the changes between two sequences are no longer all known.
pub open spec fn is_fresh(store: Store, watch_id: [u8; 16], from: i64, to: i64) -> bool {
    ||| from < row(store.watches@, watch_id)->0.replay_floor_seq->0
    ||| tally(store.cuts@, replayable(watch_id, from, to)) != to - from
}

/// The ready revisions of a snapshot.
pub open spec fn ready_of(snapshot_id: i64) -> spec_fn(Revision) -> bool {
    |revision: Revision|
        revision.snapshot_id == snapshot_id && revision.state == RevisionState::Ready
}

/// The present snapshots of a filesystem that are the subvolume and have a
/// ready revision.
pub open spec fn retained_as(
    revisions: Seq<Revision>,
    filesystem_id: i64,
    subvol_uuid: [u8; 16],
) -> spec_fn(Snapshot) -> bool {
    |snapshot: Snapshot|
        snapshot.subvol_uuid == subvol_uuid && snapshot.physical_state == PhysicalState::Present
            && snapshot.filesystem_id == filesystem_id && some(revisions, ready_of(snapshot.id))
}

/// The numbers of the present snapshot of a watch's filesystem that is the
/// subvolume, and of its ready revision.
pub open spec fn retained_revision(
    store: Store,
    watch_id: [u8; 16],
    subvol_uuid: [u8; 16],
) -> Option<(i64, i64)> {
    match row(store.watches@, watch_id) {
        None => None,
        Some(watch) => match first(
            store.snapshots@,
            retained_as(store.revisions@, watch.filesystem_id, subvol_uuid),
        ) {
            None => None,
            Some(at) => {
                let snapshot_id = store.snapshots@[at].id;
                Some(
                    (
                        snapshot_id,
                        store.revisions@[first(store.revisions@, ready_of(snapshot_id))->0].id,
                    ),
                )
            },
        },
    }
}

/// The comparison between two retained snapshots.
pub open spec fn comparing(from_snapshot_id: i64, to_snapshot_id: i64) -> spec_fn(
    Comparison,
) -> bool {
    |comparison: Comparison|
        comparison.from_snapshot_id == from_snapshot_id && comparison.to_snapshot_id
            == to_snapshot_id && comparison.kind == ComparisonKind::Incremental
            && comparison.algorithm_version == HISTORICAL_VERSION
}

/// Whether both are comparisons between the same retained snapshots.
pub open spec fn compare_same(left: Comparison, right: Comparison) -> bool {
    comparing(left.from_snapshot_id, left.to_snapshot_id)(left) && comparing(
        left.from_snapshot_id,
        left.to_snapshot_id,
    )(right)
}

/// Whether no two retained snapshots are compared twice.
pub open spec fn comparisons_distinct(comparisons: Seq<Comparison>) -> bool {
    forall|i: int, j: int|
        0 <= i < j < comparisons.len() ==> !compare_same(
            #[trigger] comparisons[i],
            #[trigger] comparisons[j],
        )
}

fn is_same_comparison(left: &Comparison, right: &Comparison) -> (same: bool)
    ensures
        same == compare_same(*left, *right),
{
    left.kind == ComparisonKind::Incremental && left.algorithm_version == HISTORICAL_VERSION
        && right.kind == ComparisonKind::Incremental && right.algorithm_version
        == HISTORICAL_VERSION && left.from_snapshot_id == right.from_snapshot_id
        && left.to_snapshot_id == right.to_snapshot_id
}

/// Whether no two retained snapshots are compared twice.
pub fn are_distinct(comparisons: &Vec<Comparison>) -> (distinct: bool)
    ensures
        distinct == comparisons_distinct(comparisons@),
{
    let mut at: usize = 0;
    while at < comparisons.len()
        invariant
            at <= comparisons@.len(),
            forall|i: int, j: int|
                0 <= i < j < comparisons@.len() && i < at ==> !compare_same(
                    #[trigger] comparisons@[i],
                    #[trigger] comparisons@[j],
                ),
        decreases comparisons@.len() - at,
    {
        let mut other: usize = at + 1;
        while other < comparisons.len()
            invariant
                at < other <= comparisons@.len(),
                forall|j: int|
                    at < j < other ==> !compare_same(
                        comparisons@[at as int],
                        #[trigger] comparisons@[j],
                    ),
            decreases comparisons@.len() - other,
        {
            if is_same_comparison(&comparisons[at], &comparisons[other]) {
                assert(compare_same(comparisons@[at as int], comparisons@[other as int]));
                return false;
            }
            other += 1;
        }
        at += 1;
    }
    true
}

/// A comparison of another kind, or between other snapshots, can be added.
pub(crate) proof fn lemma_distinct_pushed(comparisons: Seq<Comparison>, added: Comparison)
    requires
        comparisons_distinct(comparisons),
        !some(comparisons, comparing(added.from_snapshot_id, added.to_snapshot_id))
            || !comparing(added.from_snapshot_id, added.to_snapshot_id)(added),
    ensures
        comparisons_distinct(comparisons.push(added)),
{
    let all = comparisons.push(added);
    assert forall|i: int, j: int| 0 <= i < j < all.len() implies !compare_same(
        #[trigger] all[i],
        #[trigger] all[j],
    ) by {
        assert(all[i] == comparisons[i]);
        if j < comparisons.len() {
            assert(all[j] == comparisons[j]);
        }
    }
}

/// Whether each comparison is still between what it was between.
pub open spec fn same_ends(before: Seq<Comparison>, after: Seq<Comparison>) -> bool {
    &&& before.len() == after.len()
    &&& forall|i: int|
        #![trigger before[i]]
        #![trigger after[i]]
        0 <= i < before.len() ==> {
            &&& after[i].from_snapshot_id == before[i].from_snapshot_id
            &&& after[i].to_snapshot_id == before[i].to_snapshot_id
            &&& after[i].kind == before[i].kind
            &&& after[i].algorithm_version == before[i].algorithm_version
        }
}

pub(crate) proof fn lemma_distinct_changed(before: Seq<Comparison>, after: Seq<Comparison>)
    requires
        comparisons_distinct(before),
        same_ends(before, after),
    ensures
        comparisons_distinct(after),
{
    assert forall|i: int, j: int| 0 <= i < j < after.len() implies !compare_same(
        #[trigger] after[i],
        #[trigger] after[j],
    ) by {
        assert(!compare_same(before[i], before[j]));
    }
}

pub(crate) proof fn lemma_distinct_left(
    comparisons: Seq<Comparison>,
    gone: spec_fn(Comparison) -> bool,
)
    requires
        comparisons_distinct(comparisons),
    ensures
        comparisons_distinct(removing(comparisons, gone)),
    decreases comparisons.len(),
{
    reveal(Seq::filter);
    if comparisons.len() > 0 {
        let front = comparisons.drop_last();
        let last = comparisons.last();
        assert forall|i: int, j: int| 0 <= i < j < front.len() implies !compare_same(
            #[trigger] front[i],
            #[trigger] front[j],
        ) by {
            assert(front[i] == comparisons[i]);
            assert(front[j] == comparisons[j]);
        }
        lemma_distinct_left(front, gone);
        let left = removing(front, gone);
        if !gone(last) {
            assert forall|i: int| 0 <= i < left.len() implies !compare_same(
                #[trigger] left[i],
                last,
            ) by {
                law_removing(front, gone, left[i]);
                assert(left.contains(left[i]));
                let k = choose|k: int| 0 <= k < front.len() && front[k] == left[i];
                assert(comparisons[k] == left[i]);
                assert(comparisons[comparisons.len() - 1] == last);
            }
            let all = left.push(last);
            assert forall|i: int, j: int| 0 <= i < j < all.len() implies !compare_same(
                #[trigger] all[i],
                #[trigger] all[j],
            ) by {
                assert(all[i] == left[i]);
                if j < left.len() {
                    assert(all[j] == left[j]);
                }
            }
        }
    }
}

/// What a requested comparison is between: the sequences, and, where they
/// differ, the snapshots and revisions at both ends.
pub struct ComparisonEnds {
    pub from_sequence: i64,
    pub to_sequence: i64,
    pub from: (i64, i64),
    pub to: (i64, i64),
}

/// What a requested comparison is between, or why there is no such comparison.
pub open spec fn comparison_ends(store: Store, request: HistoricalComparisonRequest) -> Result<
    ComparisonEnds,
    Seq<char>,
> {
    if request.lease_expires_ns <= request.now_ns {
        Err("historical comparison lease must expire after admission"@)
    } else if !history_readable(
        store,
        request.watch_id,
        request.authorization_id,
        request.requester_uid,
    ) {
        Err("historical comparison authorization is absent or stale"@)
    } else {
        match sequence_of(
            store,
            request.watch_id,
            request.from_snapshot_uuid,
            "source snapshot is not retained on this watch"@,
        ) {
            Err(fault) => Err(fault),
            Ok(from_sequence) => match sequence_of(
                store,
                request.watch_id,
                request.to_snapshot_uuid,
                "target snapshot is not retained on this watch"@,
            ) {
                Err(fault) => Err(fault),
                Ok(to_sequence) => if from_sequence > to_sequence {
                    Err("historical comparison source is newer than its target"@)
                } else if from_sequence == to_sequence {
                    Ok(ComparisonEnds { from_sequence, to_sequence, from: (0, 0), to: (0, 0) })
                } else {
                    match retained_revision(store, request.watch_id, request.from_snapshot_uuid) {
                        None => Err("source snapshot revision is not retained"@),
                        Some(from) => match retained_revision(
                            store,
                            request.watch_id,
                            request.to_snapshot_uuid,
                        ) {
                            None => Err("target snapshot revision is not retained"@),
                            Some(to) => Ok(
                                ComparisonEnds { from_sequence, to_sequence, from, to },
                            ),
                        },
                    }
                },
            },
        }
    }
}

/// Whether the row already pins the snapshot for the comparison.
pub open spec fn same_pin(pin: Pin) -> spec_fn(Pin) -> bool {
    |other: Pin| other == pin
}

/// The pins, and one more unless it is there.
pub open spec fn with_pin(pins: Seq<Pin>, pin: Pin) -> Seq<Pin> {
    if some(pins, same_pin(pin)) {
        pins
    } else {
        pins.push(pin)
    }
}

/// The pins that keep both ends of a comparison.
pub open spec fn ends_pinned(pins: Seq<Pin>, id: i64, from: i64, to: i64) -> Seq<Pin> {
    with_pin(
        with_pin(
            pins,
            Pin {
                snapshot_id: from,
                owner: PinOwner::Comparison(id),
                reason: PinReason::HistoricalComparisonSource,
            },
        ),
        Pin {
            snapshot_id: to,
            owner: PinOwner::Comparison(id),
            reason: PinReason::HistoricalComparisonTarget,
        },
    )
}

/// The fence under which a stored comparison is claimed, or why it cannot be.
pub open spec fn claim_fence(comparison: Comparison, lease_owner: [u8; 16], now_ns: i64) -> Result<
    i64,
    Seq<char>,
> {
    let owned = comparison.lease_owner == Some(lease_owner);
    if !owned && (comparison.lease_expires_ns matches Some(expires) && expires > now_ns) {
        Err("historical comparison job is busy"@)
    } else if owned && comparison.state == ComparisonState::Claimed {
        Ok(comparison.lease_fence)
    } else if comparison.lease_fence == i64::MAX {
        Err("historical comparison fence overflow"@)
    } else if !claimable(
        comparison.lease_owner,
        comparison.lease_expires_ns,
        lease_owner,
        now_ns,
    ) {
        Err(row_count_text("claim historical comparison"@, 0))
    } else {
        Ok((comparison.lease_fence + 1) as i64)
    }
}

/// Whether the row is a comparison that was just claimed for the first time.
pub open spec fn new_claim(
    comparison: Comparison,
    id: i64,
    from: i64,
    to: i64,
    lease_owner: [u8; 16],
    lease_expires_ns: i64,
) -> bool {
    &&& comparison == (Comparison {
        id,
        from_snapshot_id: from,
        to_snapshot_id: to,
        kind: ComparisonKind::Incremental,
        algorithm_version: HISTORICAL_VERSION,
        state: ComparisonState::Claimed,
        lease_owner: Some(lease_owner),
        lease_fence: 1,
        lease_expires_ns: Some(lease_expires_ns),
        manifest_hash: None,
        raw_ref_adds: None,
        raw_ref_deletes: None,
        ..comparison
    })
    &&& comparison.objects@.len() == 0
    &&& comparison.references@.len() == 0
    &&& comparison.events@.len() == 0
}

/// Whether the admission carries the changes.
pub open spec fn admits_ready(
    admitted: Result<HistoricalComparisonAdmission, ManagerError>,
    request: HistoricalComparisonRequest,
    ends: ComparisonEnds,
    events: Seq<EventView>,
) -> bool {
    &&& admitted matches Ok(HistoricalComparisonAdmission::Ready(changes))
    &&& changes.watch_id == request.watch_id
    &&& changes.from_snapshot_uuid == request.from_snapshot_uuid
    &&& changes.to_snapshot_uuid == request.to_snapshot_uuid
    &&& changes.from_sequence == ends.from_sequence
    &&& changes.to_sequence == ends.to_sequence
    &&& !changes.fresh_instance
    &&& events_view(changes.events@) == events
}

/// The claim of a comparison.
pub open spec fn claim_of(
    request: HistoricalComparisonRequest,
    ends: ComparisonEnds,
    comparison_id: i64,
    lease_fence: i64,
) -> HistoricalComparisonClaim {
    HistoricalComparisonClaim {
        comparison_id,
        watch_id: request.watch_id,
        authorization_id: request.authorization_id,
        from_snapshot_uuid: request.from_snapshot_uuid,
        to_snapshot_uuid: request.to_snapshot_uuid,
        from_snapshot_id: ends.from.0,
        to_snapshot_id: ends.to.0,
        from_revision_id: ends.from.1,
        to_revision_id: ends.to.1,
        from_sequence: ends.from_sequence,
        to_sequence: ends.to_sequence,
        lease_owner: request.lease_owner,
        lease_fence,
    }
}

/// What asking for a comparison does.
pub open spec fn claims_comparison(
    before: Store,
    after: Store,
    request: HistoricalComparisonRequest,
    admitted: Result<HistoricalComparisonAdmission, ManagerError>,
) -> bool {
    match comparison_ends(before, request) {
        Err(fault) => {
            &&& after == before
            &&& admitted matches Err(error)
            &&& error@ == fault
        },
        Ok(ends) => if ends.from_sequence == ends.to_sequence {
            after == before && admits_ready(admitted, request, ends, Seq::empty())
        } else {
            match first(before.comparisons@, comparing(ends.from.0, ends.to.0)) {
                None => match fresh(before.comparisons@) {
                    None => {
                        &&& after == before
                        &&& admitted matches Err(error)
                        &&& error@ == full_text()
                    },
                    Some(id) => {
                        &&& after == (Store {
                            comparisons: after.comparisons,
                            pins: after.pins,
                            ..before
                        })
                        &&& after.comparisons@ == before.comparisons@.push(
                            after.comparisons@.last(),
                        )
                        &&& new_claim(
                            after.comparisons@.last(),
                            id,
                            ends.from.0,
                            ends.to.0,
                            request.lease_owner,
                            request.lease_expires_ns,
                        )
                        &&& after.pins@ == ends_pinned(before.pins@, id, ends.from.0, ends.to.0)
                        &&& admitted == Ok::<HistoricalComparisonAdmission, ManagerError>(
                            HistoricalComparisonAdmission::Claimed(
                                claim_of(request, ends, id, 1),
                            ),
                        )
                    },
                },
                Some(at) => {
                    let comparison = before.comparisons@[at];
                    if comparison.state == ComparisonState::IndexReady {
                        after == before && admits_ready(
                            admitted,
                            request,
                            ends,
                            events_view(comparison.events@),
                        )
                    } else {
                        match claim_fence(comparison, request.lease_owner, request.now_ns) {
                            Err(fault) => {
                                &&& after == before
                                &&& admitted matches Err(error)
                                &&& error@ == fault
                            },
                            Ok(fence) => if comparison.id < 0 {
                                &&& after == before
                                &&& admitted matches Err(error)
                                &&& error@ == "comparison ID is negative"@
                            } else {
                                let owned = comparison.lease_owner == Some(request.lease_owner);
                                &&& after == (Store {
                                    comparisons: after.comparisons,
                                    pins: after.pins,
                                    ..before
                                })
                                &&& after.comparisons@ == if owned && comparison.state
                                    == ComparisonState::Claimed {
                                    before.comparisons@
                                } else {
                                    before.comparisons@.update(
                                        at,
                                        Comparison {
                                            state: ComparisonState::Claimed,
                                            lease_owner: Some(request.lease_owner),
                                            lease_fence: fence,
                                            lease_expires_ns: Some(request.lease_expires_ns),
                                            manifest_hash: None,
                                            raw_ref_adds: None,
                                            raw_ref_deletes: None,
                                            ..comparison
                                        },
                                    )
                                }
                                &&& after.pins@ == ends_pinned(
                                    before.pins@,
                                    comparison.id,
                                    ends.from.0,
                                    ends.to.0,
                                )
                                &&& admitted == Ok::<HistoricalComparisonAdmission, ManagerError>(
                                    HistoricalComparisonAdmission::Claimed(
                                        claim_of(request, ends, comparison.id, fence),
                                    ),
                                )
                            },
                        }
                    }
                },
            }
        },
    }
}

/// Whether a claimed comparison is still its owner's to publish.
pub open spec fn claim_stands(store: Store, claim: HistoricalComparisonClaim, now_ns: i64) -> bool {
    &&& numbered(store.comparisons@, claim.comparison_id) matches Some(comparison)
    &&& comparison.state == ComparisonState::Claimed
    &&& comparison.lease_owner == Some(claim.lease_owner)
    &&& comparison.lease_fence == claim.lease_fence
    &&& comparison.from_snapshot_id == claim.from_snapshot_id
    &&& comparison.to_snapshot_id == claim.to_snapshot_id
    &&& comparison.algorithm_version == HISTORICAL_VERSION
    &&& comparison.kind == ComparisonKind::Incremental
    &&& comparison.lease_expires_ns matches Some(expires)
    &&& expires > now_ns
    &&& present(store.snapshots@, claim.from_snapshot_id)
    &&& present(store.snapshots@, claim.to_snapshot_id)
    &&& ready_at(store.revisions@, claim.from_revision_id, claim.from_snapshot_id)
    &&& ready_at(store.revisions@, claim.to_revision_id, claim.to_snapshot_id)
    &&& grant_allows(
        store.grants@,
        claim.watch_id,
        claim.authorization_id,
        PERMISSION_READ,
    )
}

/// Whether the snapshot is present.
pub open spec fn present(snapshots: Seq<Snapshot>, id: i64) -> bool {
    match numbered(snapshots, id) {
        Some(snapshot) => snapshot.physical_state == PhysicalState::Present,
        None => false,
    }
}

/// Whether the revision is the snapshot's and is ready.
pub open spec fn ready_at(revisions: Seq<Revision>, id: i64, snapshot_id: i64) -> bool {
    match numbered(revisions, id) {
        Some(revision) => revision.snapshot_id == snapshot_id && revision.state
            == RevisionState::Ready,
        None => false,
    }
}

/// Why a comparison cannot be published.
pub open spec fn publish_comparison_fault(
    store: Store,
    claim: HistoricalComparisonClaim,
    manifest: ManifestView,
    applied: AppliedDelta,
    invalid: Map<i64, String>,
    now_ns: i64,
) -> Option<Seq<char>> {
    let staged = stage_fault(
        manifest,
        events_view(applied.events@),
        applied.index.objects@,
        Map::empty(),
    );
    match revision_loaded(store.revisions@, claim.from_revision_id, invalid) {
        Err(fault) => Some(fault),
        Ok(_) => match revision_loaded(store.revisions@, claim.to_revision_id, invalid) {
            Err(fault) => Some(fault),
            Ok(expected) => if applied.index@ != expected {
                Some("historical kernel delta does not reproduce the indexed target"@)
            } else if staged is Some {
                staged
            } else if !claim_stands(store, claim, now_ns) {
                Some("historical comparison publication fence is stale"@)
            } else if manifest.raw_ref_adds > STORED_MAX {
                Some("raw ref add count overflow"@)
            } else if manifest.raw_ref_deletes > STORED_MAX {
                Some("raw ref delete count overflow"@)
            } else if claim.comparison_id < 0 {
                Some("comparison ID is negative"@)
            } else {
                None
            },
        },
    }
}

fn is_present(snapshots: &Vec<Snapshot>, id: i64) -> (is_present: bool)
    ensures
        is_present == present(snapshots@, id),
{
    match find_number(snapshots, id) {
        Some(at) => snapshots[at].physical_state == PhysicalState::Present,
        None => false,
    }
}

fn is_ready_at(revisions: &Vec<Revision>, id: i64, snapshot_id: i64) -> (ready: bool)
    ensures
        ready == ready_at(revisions@, id, snapshot_id),
{
    match find_number(revisions, id) {
        Some(at) => revisions[at].snapshot_id == snapshot_id && revisions[at].state
            == RevisionState::Ready,
        None => false,
    }
}

fn find_ready_of(revisions: &Vec<Revision>, snapshot_id: i64) -> (at: Option<usize>)
    ensures
        match at {
            Some(at) => first(revisions@, ready_of(snapshot_id)) == Some(at as int) && at
                < revisions@.len() && some(revisions@, ready_of(snapshot_id)),
            None => !some(revisions@, ready_of(snapshot_id)),
        },
{
    let test = |revision: &Revision| -> (picked: bool)
        ensures
            picked == ready_of(snapshot_id)(*revision),
        { revision.snapshot_id == snapshot_id && revision.state == RevisionState::Ready };
    find_first(revisions, test, Ghost(ready_of(snapshot_id)))
}

fn add_pin(pins: &mut Vec<Pin>, pin: Pin)
    ensures
        final(pins)@ == with_pin(old(pins)@, pin),
{
    let test = |other: &Pin| -> (picked: bool)
        ensures
            picked == same_pin(pin)(*other),
        {
            other.snapshot_id == pin.snapshot_id && same_owner(&other.owner, &pin.owner)
                && other.reason == pin.reason
        };
    if !any(pins, test, Ghost(same_pin(pin))) {
        pins.push(pin);
    }
}

fn pin_ends(pins: &mut Vec<Pin>, id: i64, from: i64, to: i64)
    ensures
        final(pins)@ == ends_pinned(old(pins)@, id, from, to),
{
    add_pin(
        pins,
        Pin {
            snapshot_id: from,
            owner: PinOwner::Comparison(id),
            reason: PinReason::HistoricalComparisonSource,
        },
    );
    add_pin(
        pins,
        Pin {
            snapshot_id: to,
            owner: PinOwner::Comparison(id),
            reason: PinReason::HistoricalComparisonTarget,
        },
    );
}

/// What [`Store::replay_historical_changes`] does.
pub open spec fn replays(
    store: Store,
    watch_id: [u8; 16],
    authorization_id: [u8; 16],
    requester_uid: u32,
    from_snapshot_uuid: [u8; 16],
    to_snapshot_uuid: [u8; 16],
    replayed: Result<HistoricalChanges, ManagerError>,
) -> bool {
    match replay_range(
        store,
        watch_id,
        authorization_id,
        requester_uid,
        from_snapshot_uuid,
        to_snapshot_uuid,
    ) {
        Err(fault) => {
            &&& replayed matches Err(error)
            &&& error@ == fault
        },
        Ok((from, to)) => {
            &&& replayed matches Ok(changes)
            &&& changes.watch_id == watch_id
            &&& changes.from_snapshot_uuid == from_snapshot_uuid
            &&& changes.to_snapshot_uuid == to_snapshot_uuid
            &&& changes.from_sequence == from
            &&& changes.to_sequence == to
            &&& changes.fresh_instance == is_fresh(store, watch_id, from, to)
            &&& events_view(changes.events@) == if is_fresh(store, watch_id, from, to) {
                Seq::empty()
            } else {
                events_from(store, watch_id, from + 1, to as int)
            }
        },
    }
}

/// What [`Store::publish_historical_comparison`] does.
pub open spec fn publishes_comparison(
    before: Store,
    after: Store,
    claim: HistoricalComparisonClaim,
    manifest: ManifestView,
    applied: AppliedDelta,
    invalid: Map<i64, String>,
    now_ns: i64,
    published: Result<HistoricalChanges, ManagerError>,
) -> bool {
    match publish_comparison_fault(before, claim, manifest, applied, invalid, now_ns) {
        Some(fault) => {
            &&& after == before
            &&& published matches Err(error)
            &&& error@ == fault
        },
        None => {
            let at = slot(before.comparisons@, claim.comparison_id)->0;
            let comparison = after.comparisons@[at];
            &&& after == (Store {
                comparisons: after.comparisons,
                pins: after.pins,
                ..before
            })
            &&& after.comparisons@ =~= before.comparisons@.update(at, comparison)
            &&& comparison == (Comparison {
                state: ComparisonState::IndexReady,
                lease_owner: None,
                lease_expires_ns: None,
                manifest_hash: comparison.manifest_hash,
                raw_ref_adds: Some(manifest.raw_ref_adds as i64),
                raw_ref_deletes: Some(manifest.raw_ref_deletes as i64),
                objects: comparison.objects,
                references: comparison.references,
                events: comparison.events,
                ..before.comparisons@[at]
            })
            &&& comparison.manifest_hash matches Some(hash)
            &&& hash@ == sha256(canonical_preimage(manifest))
            &&& comparison.objects@ == object_rows(manifest.objects)
            &&& ref_rows(comparison.references@) == ordered_ref_rows(
                manifest.ref_adds,
                manifest.ref_deletes,
            )
            &&& events_view(comparison.events@) == events_view(applied.events@)
            &&& after.pins@ =~= removing(
                before.pins@,
                pins_of(PinOwner::Comparison(claim.comparison_id)),
            )
            &&& published matches Ok(changes)
            &&& changes.watch_id == claim.watch_id
            &&& changes.from_snapshot_uuid == claim.from_snapshot_uuid
            &&& changes.to_snapshot_uuid == claim.to_snapshot_uuid
            &&& changes.from_sequence == claim.from_sequence
            &&& changes.to_sequence == claim.to_sequence
            &&& !changes.fresh_instance
            &&& events_view(changes.events@) == events_view(applied.events@)
        },
    }
}

impl Store {
    fn find_placement(&self, watch_id: &[u8; 16], subvol_uuid: &[u8; 16]) -> (found: Placement)
        ensures
            found == placement(*self, *watch_id, *subvol_uuid),
    {
        let test = |cut: &WatchCut| -> (picked: bool)
            ensures
                picked == cuts_of(*watch_id)(*cut),
            { same_array(&cut.watch_id, watch_id) };
        if !any(&self.cuts, test, Ghost(cuts_of(*watch_id))) {
            return match find(&self.watches, watch_id) {
                Some(at) => match (
                    self.watches[at].last_cut_snapshot_id,
                    self.watches[at].indexed_seq,
                ) {
                    (Some(snapshot_id), Some(indexed)) => if is_snapshot(
                        &self.snapshots,
                        snapshot_id,
                        subvol_uuid,
                    ) {
                        Placement::At(indexed)
                    } else {
                        Placement::Nowhere
                    },
                    _ => Placement::Nowhere,
                },
                None => Placement::Nowhere,
            };
        }
        let mut found: Placement = Placement::Nowhere;
        let mut at: usize = 0;
        while at < self.cuts.len()
            invariant
                at <= self.cuts.len(),
                found == placement_before(*self, *watch_id, *subvol_uuid, at as int),
            decreases self.cuts.len() - at,
        {
            let cut: WatchCut = self.cuts[at];
            if same_array(&cut.watch_id, watch_id) {
                if is_snapshot(&self.snapshots, cut.target_snapshot_id, subvol_uuid) {
                    found = merge(found, cut.sequence);
                }
                if cut.sequence > i64::MIN && is_snapshot(
                    &self.snapshots,
                    cut.base_snapshot_id,
                    subvol_uuid,
                ) {
                    found = merge(found, cut.sequence - 1);
                }
            }
            at += 1;
        }
        found
    }

    /// The sequence of a watch at which it has a snapshot.
    pub fn historical_snapshot_sequence(
        &self,
        watch_id: &[u8; 16],
        snapshot_uuid: &[u8; 16],
        absent: &str,
    ) -> (sequence: Result<i64, ManagerError>)
        ensures
            match sequence {
                Ok(sequence) => sequence_of(*self, *watch_id, *snapshot_uuid, absent@) == Ok::<
                    i64,
                    Seq<char>,
                >(sequence),
                Err(error) => sequence_of(*self, *watch_id, *snapshot_uuid, absent@) == Err::<
                    i64,
                    Seq<char>,
                >(error@),
            },
    {
        match self.find_placement(watch_id, snapshot_uuid) {
            Placement::Nowhere => Err(ManagerError::new(absent)),
            Placement::At(sequence) => Ok(sequence),
            Placement::Inconsistent => Err(
                ManagerError::new(
                    "snapshot UUID maps to inconsistent sequences on one watch branch",
                ),
            ),
        }
    }

    fn is_history_readable(
        &self,
        watch_id: &[u8; 16],
        authorization_id: &[u8; 16],
        requester_uid: u32,
    ) -> (readable: bool)
        ensures
            readable == history_readable(*self, *watch_id, *authorization_id, requester_uid),
    {
        match find(&self.watches, watch_id) {
            Some(at) => (self.watches[at].state == WatchState::Active || self.watches[at].state
                == WatchState::Blocked) && is_uid_allowed(
                &self.grants,
                watch_id,
                authorization_id,
                PERMISSION_READ,
                requester_uid,
            ),
            None => false,
        }
    }

    fn load_historical_events(&self, watch_id: &[u8; 16], from: i64, to: i64) -> (events: Vec<
        Event,
    >)
        requires
            from <= to,
        ensures
            events_view(events@) == events_from(*self, *watch_id, from + 1, to as int),
    {
        let mut events: Vec<Event> = Vec::new();
        let mut last: i64 = from;
        assert(events_view(events@) + events_from(*self, *watch_id, from + 1, to as int)
            =~= events_from(*self, *watch_id, from + 1, to as int));
        while last < to
            invariant
                from <= last <= to,
                events_view(events@) + events_from(*self, *watch_id, last + 1, to as int)
                    == events_from(*self, *watch_id, from + 1, to as int),
            decreases to - last,
        {
            let ghost before = events_view(events@);
            let ghost rest = events_from(*self, *watch_id, last + 2, to as int);
            last = last + 1;
            match find_cut(&self.cuts, watch_id, last) {
                Some(at) => {
                    if self.cuts[at].state == CutState::Ready && !self.cuts[at].fresh_instance {
                        match self.cuts[at].comparison_id {
                            Some(id) => {
                                let here = load_comparison_events(&self.comparisons, id);
                                append_events(&mut events, &here);
                                assert(before + (events_view(here@) + rest) =~= events_view(
                                    events@,
                                ) + rest);
                            },
                            None => {
                                assert(Seq::<EventView>::empty() + rest =~= rest);
                            },
                        }
                    } else {
                        assert(Seq::<EventView>::empty() + rest =~= rest);
                    }
                },
                None => {
                    assert(Seq::<EventView>::empty() + rest =~= rest);
                },
            }
        }
        assert(events_view(events@) + Seq::empty() =~= events_view(events@));
        events
    }

    /// Replays what changed between two snapshots of a watch, as far as it is
    /// still known.
    pub fn replay_historical_changes(
        &self,
        watch_id: [u8; 16],
        authorization_id: [u8; 16],
        requester_uid: u32,
        from_snapshot_uuid: [u8; 16],
        to_snapshot_uuid: [u8; 16],
    ) -> (replayed: Result<HistoricalChanges, ManagerError>)
        ensures
            replays(
                *self,
                watch_id,
                authorization_id,
                requester_uid,
                from_snapshot_uuid,
                to_snapshot_uuid,
                replayed,
            ),
    {
        if !self.is_history_readable(&watch_id, &authorization_id, requester_uid) {
            return Err(ManagerError::new("historical replay authorization is absent or stale"));
        }
        let from: i64 = match self.historical_snapshot_sequence(
            &watch_id,
            &from_snapshot_uuid,
            "source snapshot is not a cut on this watch branch",
        ) {
            Ok(sequence) => sequence,
            Err(error) => {
                return Err(error);
            },
        };
        let to: i64 = match self.historical_snapshot_sequence(
            &watch_id,
            &to_snapshot_uuid,
            "target snapshot is not a cut on this watch branch",
        ) {
            Ok(sequence) => sequence,
            Err(error) => {
                return Err(error);
            },
        };
        if from > to {
            return Err(ManagerError::new("historical replay source is newer than its target"));
        }
        let floor: Option<i64> = match find(&self.watches, &watch_id) {
            Some(at) => self.watches[at].replay_floor_seq,
            None => None,
        };
        let floor: i64 = match floor {
            Some(floor) => floor,
            None => {
                return Err(
                    ManagerError::new(
                        "Invalid column type Null at index: 0, name: replay_floor_seq",
                    ),
                );
            },
        };
        let test = |cut: &WatchCut| -> (picked: bool)
            ensures
                picked == replayable(watch_id, from, to)(*cut),
            {
                same_array(&cut.watch_id, &watch_id) && from < cut.sequence && cut.sequence <= to
                    && cut.state == CutState::Ready && !cut.fresh_instance
                    && cut.comparison_id.is_some()
            };
        let ready: usize = count(&self.cuts, test, Ghost(replayable(watch_id, from, to)));
        let fresh_instance: bool = from < floor || ready as i128 != to as i128 - from as i128;
        let events: Vec<Event> = if fresh_instance {
            Vec::new()
        } else {
            self.load_historical_events(&watch_id, from, to)
        };
        assert(fresh_instance ==> events_view(events@) =~= Seq::empty());
        Ok(
            HistoricalChanges {
                watch_id,
                from_snapshot_uuid,
                to_snapshot_uuid,
                from_sequence: from,
                to_sequence: to,
                fresh_instance,
                events,
            },
        )
    }

    fn find_retained_revision(&self, watch_id: &[u8; 16], subvol_uuid: &[u8; 16]) -> (found: Option<
        (i64, i64),
    >)
        ensures
            found == retained_revision(*self, *watch_id, *subvol_uuid),
    {
        let filesystem_id: i64 = match find(&self.watches, watch_id) {
            Some(at) => self.watches[at].filesystem_id,
            None => {
                return None;
            },
        };
        let revisions = &self.revisions;
        let test = |snapshot: &Snapshot| -> (picked: bool)
            ensures
                picked == retained_as(revisions@, filesystem_id, *subvol_uuid)(*snapshot),
            {
                same_array(&snapshot.subvol_uuid, subvol_uuid) && snapshot.physical_state
                    == PhysicalState::Present && snapshot.filesystem_id == filesystem_id
                    && find_ready_of(revisions, snapshot.id).is_some()
            };
        match find_first(
            &self.snapshots,
            test,
            Ghost(retained_as(self.revisions@, filesystem_id, *subvol_uuid)),
        ) {
            Some(at) => {
                let snapshot_id: i64 = self.snapshots[at].id;
                match find_ready_of(&self.revisions, snapshot_id) {
                    Some(revision_at) => Some((snapshot_id, self.revisions[revision_at].id)),
                    None => None,
                }
            },
            None => None,
        }
    }

    fn find_comparison_ends(&self, request: &HistoricalComparisonRequest) -> (ends: Result<
        ComparisonEnds,
        ManagerError,
    >)
        ensures
            match ends {
                Ok(ends) => comparison_ends(*self, *request) == Ok::<ComparisonEnds, Seq<char>>(
                    ends,
                ),
                Err(error) => comparison_ends(*self, *request) == Err::<
                    ComparisonEnds,
                    Seq<char>,
                >(error@),
            },
    {
        if request.lease_expires_ns <= request.now_ns {
            return Err(
                ManagerError::new("historical comparison lease must expire after admission"),
            );
        }
        if !self.is_history_readable(
            &request.watch_id,
            &request.authorization_id,
            request.requester_uid,
        ) {
            return Err(
                ManagerError::new("historical comparison authorization is absent or stale"),
            );
        }
        let from_sequence: i64 = match self.historical_snapshot_sequence(
            &request.watch_id,
            &request.from_snapshot_uuid,
            "source snapshot is not retained on this watch",
        ) {
            Ok(sequence) => sequence,
            Err(error) => {
                return Err(error);
            },
        };
        let to_sequence: i64 = match self.historical_snapshot_sequence(
            &request.watch_id,
            &request.to_snapshot_uuid,
            "target snapshot is not retained on this watch",
        ) {
            Ok(sequence) => sequence,
            Err(error) => {
                return Err(error);
            },
        };
        if from_sequence > to_sequence {
            return Err(
                ManagerError::new("historical comparison source is newer than its target"),
            );
        }
        if from_sequence == to_sequence {
            return Ok(ComparisonEnds { from_sequence, to_sequence, from: (0, 0), to: (0, 0) });
        }
        let from: (i64, i64) = match self.find_retained_revision(
            &request.watch_id,
            &request.from_snapshot_uuid,
        ) {
            Some(from) => from,
            None => {
                return Err(ManagerError::new("source snapshot revision is not retained"));
            },
        };
        let to: (i64, i64) = match self.find_retained_revision(
            &request.watch_id,
            &request.to_snapshot_uuid,
        ) {
            Some(to) => to,
            None => {
                return Err(ManagerError::new("target snapshot revision is not retained"));
            },
        };
        Ok(ComparisonEnds { from_sequence, to_sequence, from, to })
    }

    /// Asks for the changes between two retained snapshots: they are either
    /// known, or the caller claims the work of finding them.
    pub fn claim_historical_comparison(
        &mut self,
        request: &HistoricalComparisonRequest,
    ) -> (admitted: Result<HistoricalComparisonAdmission, ManagerError>)
        ensures
            claims_comparison(*old(self), *final(self), *request, admitted),
            old(self).well_formed() ==> final(self).well_formed(),
    {
        let admitted = self.claim_comparison(request);
        proof {
            if old(self).well_formed() {
                lemma_claim_keeps_sound(*old(self), *self, *request, admitted);
            }
        }
        admitted
    }

    fn claim_comparison(
        &mut self,
        request: &HistoricalComparisonRequest,
    ) -> (admitted: Result<HistoricalComparisonAdmission, ManagerError>)
        ensures
            claims_comparison(*old(self), *final(self), *request, admitted),
    {
        let ends = match self.find_comparison_ends(request) {
            Ok(ends) => ends,
            Err(error) => {
                return Err(error);
            },
        };
        if ends.from_sequence == ends.to_sequence {
            let events: Vec<Event> = Vec::new();
            assert(events_view(events@) =~= Seq::empty());
            return Ok(
                HistoricalComparisonAdmission::Ready(
                    HistoricalChanges {
                        watch_id: request.watch_id,
                        from_snapshot_uuid: request.from_snapshot_uuid,
                        to_snapshot_uuid: request.to_snapshot_uuid,
                        from_sequence: ends.from_sequence,
                        to_sequence: ends.to_sequence,
                        fresh_instance: false,
                        events,
                    },
                ),
            );
        }
        let from: i64 = ends.from.0;
        let to: i64 = ends.to.0;
        let test = |comparison: &Comparison| -> (picked: bool)
            ensures
                picked == comparing(from, to)(*comparison),
            {
                comparison.from_snapshot_id == from && comparison.to_snapshot_id == to
                    && comparison.kind == ComparisonKind::Incremental
                    && comparison.algorithm_version == HISTORICAL_VERSION
            };
        let (comparison_id, lease_fence): (i64, i64) = match find_first(
            &self.comparisons,
            test,
            Ghost(comparing(from, to)),
        ) {
            None => {
                let id: i64 = match number_row(&self.comparisons) {
                    Ok(id) => id,
                    Err(error) => {
                        return Err(error);
                    },
                };
                self.comparisons.push(
                    Comparison {
                        id,
                        from_snapshot_id: from,
                        to_snapshot_id: to,
                        kind: ComparisonKind::Incremental,
                        algorithm_version: HISTORICAL_VERSION,
                        state: ComparisonState::Claimed,
                        lease_owner: Some(request.lease_owner),
                        lease_fence: 1,
                        lease_expires_ns: Some(request.lease_expires_ns),
                        manifest_hash: None,
                        raw_ref_adds: None,
                        raw_ref_deletes: None,
                        objects: Vec::new(),
                        references: Vec::new(),
                        events: Vec::new(),
                    },
                );
                assert(self.comparisons@ =~= old(self).comparisons@.push(
                    self.comparisons@.last(),
                ));
                (id, 1)
            },
            Some(at) => {
                let comparison = &self.comparisons[at];
                if comparison.state == ComparisonState::IndexReady {
                    return Ok(
                        HistoricalComparisonAdmission::Ready(
                            HistoricalChanges {
                                watch_id: request.watch_id,
                                from_snapshot_uuid: request.from_snapshot_uuid,
                                to_snapshot_uuid: request.to_snapshot_uuid,
                                from_sequence: ends.from_sequence,
                                to_sequence: ends.to_sequence,
                                fresh_instance: false,
                                events: copy_events(&comparison.events),
                            },
                        ),
                    );
                }
                let owned: bool = holds(&comparison.lease_owner, &request.lease_owner);
                let busy: bool = match comparison.lease_expires_ns {
                    Some(expires) => expires > request.now_ns,
                    None => false,
                };
                if !owned && busy {
                    return Err(ManagerError::new("historical comparison job is busy"));
                }
                let claimed: bool = owned && comparison.state == ComparisonState::Claimed;
                let id: i64 = comparison.id;
                let mut fence: i64 = comparison.lease_fence;
                if !claimed {
                    if fence == i64::MAX {
                        return Err(ManagerError::new("historical comparison fence overflow"));
                    }
                    if !is_claimable(
                        &comparison.lease_owner,
                        comparison.lease_expires_ns,
                        &request.lease_owner,
                        request.now_ns,
                    ) {
                        return Err(none_changed("claim historical comparison"));
                    }
                    fence = fence + 1;
                }
                if id < 0 {
                    return Err(ManagerError::new("comparison ID is negative"));
                }
                if !claimed {
                    self.comparisons[at].state = ComparisonState::Claimed;
                    self.comparisons[at].lease_owner = Some(request.lease_owner);
                    self.comparisons[at].lease_fence = fence;
                    self.comparisons[at].lease_expires_ns = Some(request.lease_expires_ns);
                    self.comparisons[at].manifest_hash = None;
                    self.comparisons[at].raw_ref_adds = None;
                    self.comparisons[at].raw_ref_deletes = None;
                    assert(self.comparisons@ =~= old(self).comparisons@.update(
                        at as int,
                        self.comparisons@[at as int],
                    ));
                }
                (id, fence)
            },
        };
        pin_ends(&mut self.pins, comparison_id, from, to);
        Ok(
            HistoricalComparisonAdmission::Claimed(
                HistoricalComparisonClaim {
                    comparison_id,
                    watch_id: request.watch_id,
                    authorization_id: request.authorization_id,
                    from_snapshot_uuid: request.from_snapshot_uuid,
                    to_snapshot_uuid: request.to_snapshot_uuid,
                    from_snapshot_id: from,
                    to_snapshot_id: to,
                    from_revision_id: ends.from.1,
                    to_revision_id: ends.to.1,
                    from_sequence: ends.from_sequence,
                    to_sequence: ends.to_sequence,
                    lease_owner: request.lease_owner,
                    lease_fence,
                },
            ),
        )
    }

    fn does_claim_stand(&self, claim: &HistoricalComparisonClaim, now_ns: i64) -> (stands: bool)
        ensures
            stands == claim_stands(*self, *claim, now_ns),
    {
        match find_number(&self.comparisons, claim.comparison_id) {
            Some(at) => {
                let comparison = &self.comparisons[at];
                let current: bool = match comparison.lease_expires_ns {
                    Some(expires) => expires > now_ns,
                    None => false,
                };
                comparison.state == ComparisonState::Claimed && holds(
                    &comparison.lease_owner,
                    &claim.lease_owner,
                ) && comparison.lease_fence == claim.lease_fence && comparison.from_snapshot_id
                    == claim.from_snapshot_id && comparison.to_snapshot_id == claim.to_snapshot_id
                    && comparison.algorithm_version == HISTORICAL_VERSION && comparison.kind
                    == ComparisonKind::Incremental && current && is_present(
                    &self.snapshots,
                    claim.from_snapshot_id,
                ) && is_present(&self.snapshots, claim.to_snapshot_id) && is_ready_at(
                    &self.revisions,
                    claim.from_revision_id,
                    claim.from_snapshot_id,
                ) && is_ready_at(&self.revisions, claim.to_revision_id, claim.to_snapshot_id)
                    && is_allowed(
                    &self.grants,
                    &claim.watch_id,
                    &claim.authorization_id,
                    PERMISSION_READ,
                )
            },
            None => false,
        }
    }

    /// Publishes a claimed comparison. `applied` is what the manifest makes of
    /// the source, which must be the target. `invalid` says what was found wrong
    /// with the indexes on the way to either.
    pub fn publish_historical_comparison(
        &mut self,
        claim: &HistoricalComparisonClaim,
        manifest: &ChangedObjectsManifest,
        applied: &AppliedDelta,
        invalid: &BTreeMap<i64, String>,
        now_ns: i64,
    ) -> (published: Result<HistoricalChanges, ManagerError>)
        requires
            old(self).well_formed(),
            manifest.well_formed(),
            applied.index.well_formed(),
        ensures
            publishes_comparison(
                *old(self),
                *final(self),
                *claim,
                manifest@,
                *applied,
                invalid@,
                now_ns,
                published,
            ),
            final(self).well_formed(),
    {
        match self.load_revision(claim.from_revision_id, invalid) {
            Ok(_) => {},
            Err(error) => {
                return Err(error);
            },
        }
        let expected = match self.load_revision(claim.to_revision_id, invalid) {
            Ok(index) => index,
            Err(error) => {
                return Err(error);
            },
        };
        if !applied.index.same(&expected) {
            return Err(
                ManagerError::new("historical kernel delta does not reproduce the indexed target"),
            );
        }
        let none: BTreeMap<u64, i64> = BTreeMap::new();
        let staged = match stage_delta_rows(manifest, &applied.events, &applied.index, &none) {
            Ok(staged) => staged,
            Err(error) => {
                return Err(error);
            },
        };
        if !self.does_claim_stand(claim, now_ns) {
            return Err(ManagerError::new("historical comparison publication fence is stale"));
        }
        if manifest.raw_ref_adds as u64 > STORED_MAX {
            return Err(ManagerError::new("raw ref add count overflow"));
        }
        if manifest.raw_ref_deletes as u64 > STORED_MAX {
            return Err(ManagerError::new("raw ref delete count overflow"));
        }
        if claim.comparison_id < 0 {
            return Err(ManagerError::new("comparison ID is negative"));
        }
        let at: usize = match find_number(&self.comparisons, claim.comparison_id) {
            Some(at) => at,
            None => {
                return Err(ManagerError::new("historical comparison publication fence is stale"));
            },
        };
        self.comparisons[at].state = ComparisonState::IndexReady;
        self.comparisons[at].lease_owner = None;
        self.comparisons[at].lease_expires_ns = None;
        self.comparisons[at].manifest_hash = Some(manifest.canonical_hash());
        self.comparisons[at].raw_ref_adds = Some(manifest.raw_ref_adds as i64);
        self.comparisons[at].raw_ref_deletes = Some(manifest.raw_ref_deletes as i64);
        self.comparisons[at].objects = staged.objects;
        self.comparisons[at].references = staged.references;
        self.comparisons[at].events = staged.events;
        unpin_owner(&mut self.pins, PinOwner::Comparison(claim.comparison_id));
        proof {
            lemma_provenance_changed(
                self.revisions@,
                old(self).comparisons@,
                self.comparisons@,
            );
        }
        Ok(
            HistoricalChanges {
                watch_id: claim.watch_id,
                from_snapshot_uuid: claim.from_snapshot_uuid,
                to_snapshot_uuid: claim.to_snapshot_uuid,
                from_sequence: claim.from_sequence,
                to_sequence: claim.to_sequence,
                fresh_instance: false,
                events: copy_events(&applied.events),
            },
        )
    }
}

/// While a claim on a comparison lasts, nobody else can claim it, and once it
/// can be claimed by another, its fence moves on, so that the earlier claim
/// cannot be published any more.
pub proof fn law_claims_are_fenced(comparison: Comparison, other: [u8; 16], now_ns: i64)
    requires
        comparison.state == ComparisonState::Claimed,
        comparison.lease_owner matches Some(owner) && owner != other,
        comparison.lease_expires_ns is Some,
    ensures
        comparison.lease_expires_ns->0 > now_ns ==> claim_fence(comparison, other, now_ns) is Err,
        claim_fence(comparison, other, now_ns) matches Ok(fence) ==> fence
            > comparison.lease_fence,
{
}

proof fn lemma_claim_keeps_sound(
    before: Store,
    after: Store,
    request: HistoricalComparisonRequest,
    admitted: Result<HistoricalComparisonAdmission, ManagerError>,
)
    requires
        claims_comparison(before, after, request, admitted),
        before.well_formed(),
    ensures
        after.well_formed(),
{
    if after != before {
        let ends = comparison_ends(before, request)->Ok_0;
        let picks = comparing(ends.from.0, ends.to.0);
        lemma_first(before.comparisons@, picks, 0);
        match first(before.comparisons@, picks) {
            None => {
                let added = after.comparisons@.last();
                lemma_distinct_pushed(before.comparisons@, added);
                lemma_provenance_beside(before.revisions@, before.comparisons@, added);
            },
            Some(_) => {
                lemma_distinct_changed(before.comparisons@, after.comparisons@);
                lemma_provenance_changed(
                    before.revisions@,
                    before.comparisons@,
                    after.comparisons@,
                );
            },
        }
    }
}

proof fn lemma_published_is_first(
    before: Store,
    middle: Store,
    claim: HistoricalComparisonClaim,
    manifest: ManifestView,
    applied: AppliedDelta,
    invalid: Map<i64, String>,
    now_ns: i64,
    published: Result<HistoricalChanges, ManagerError>,
)
    requires
        comparisons_distinct(before.comparisons@),
        publishes_comparison(before, middle, claim, manifest, applied, invalid, now_ns, published),
        published is Ok,
    ensures
        first(middle.comparisons@, comparing(claim.from_snapshot_id, claim.to_snapshot_id))
            matches Some(at) && middle.comparisons@[at].state == ComparisonState::IndexReady
            && events_view(middle.comparisons@[at].events@) == events_view(applied.events@),
{
    let picks = comparing(claim.from_snapshot_id, claim.to_snapshot_id);
    let at = slot(before.comparisons@, claim.comparison_id)->0;
    lemma_slot(before.comparisons@, claim.comparison_id, 0);
    lemma_first(middle.comparisons@, picks, 0);
    assert(claim_stands(before, claim, now_ns));
    assert(picks(middle.comparisons@[at]));
    let found = first(middle.comparisons@, picks)->0;
    if found != at {
        assert(picks(before.comparisons@[found]));
        assert(picks(before.comparisons@[at]));
        assert(compare_same(before.comparisons@[found], before.comparisons@[at]));
    }
}

/// A comparison that was published is given to everyone who asks for the same
/// snapshots later: the same changes, and nobody has to find them again.
pub proof fn law_published_comparison_is_given_back(
    before: Store,
    middle: Store,
    after: Store,
    claim: HistoricalComparisonClaim,
    manifest: ManifestView,
    applied: AppliedDelta,
    invalid: Map<i64, String>,
    now_ns: i64,
    published: Result<HistoricalChanges, ManagerError>,
    request: HistoricalComparisonRequest,
    admitted: Result<HistoricalComparisonAdmission, ManagerError>,
)
    requires
        before.well_formed(),
        publishes_comparison(before, middle, claim, manifest, applied, invalid, now_ns, published),
        published is Ok,
        claims_comparison(middle, after, request, admitted),
        comparison_ends(middle, request) matches Ok(ends) && ends.from_sequence
            != ends.to_sequence && ends.from.0 == claim.from_snapshot_id && ends.to.0
            == claim.to_snapshot_id,
    ensures
        after == middle,
        admitted matches Ok(HistoricalComparisonAdmission::Ready(changes)) && events_view(
            changes.events@,
        ) == events_view(published->Ok_0.events@) && !changes.fresh_instance,
{
    lemma_published_is_first(before, middle, claim, manifest, applied, invalid, now_ns, published);
}

proof fn lemma_placed_alike(
    before: Store,
    after: Store,
    watch_id: [u8; 16],
    subvol_uuid: [u8; 16],
    n: int,
)
    requires
        after == (Store { comparisons: after.comparisons, pins: after.pins, ..before }),
    ensures
        placement_before(after, watch_id, subvol_uuid, n) == placement_before(
            before,
            watch_id,
            subvol_uuid,
            n,
        ),
    decreases n,
{
    if n > 0 {
        lemma_placed_alike(before, after, watch_id, subvol_uuid, n - 1);
    }
}

/// What one caller claimed, found and published, the next caller who may read
/// the watch and names the same two snapshots is given at once, whoever owns its
/// lease: the same changes, field for field, and the store stays as it is.
pub proof fn law_claimed_comparison_is_shared(
    before: Store,
    claimed: Store,
    middle: Store,
    after: Store,
    request: HistoricalComparisonRequest,
    claim: HistoricalComparisonClaim,
    manifest: ManifestView,
    applied: AppliedDelta,
    invalid: Map<i64, String>,
    now_ns: i64,
    published: Result<HistoricalChanges, ManagerError>,
    again: HistoricalComparisonRequest,
    admitted: Result<HistoricalComparisonAdmission, ManagerError>,
)
    requires
        before.well_formed(),
        claims_comparison(
            before,
            claimed,
            request,
            Ok(HistoricalComparisonAdmission::Claimed(claim)),
        ),
        publishes_comparison(claimed, middle, claim, manifest, applied, invalid, now_ns, published),
        published is Ok,
        claims_comparison(middle, after, again, admitted),
        again.watch_id == request.watch_id,
        again.from_snapshot_uuid == request.from_snapshot_uuid,
        again.to_snapshot_uuid == request.to_snapshot_uuid,
        again.lease_expires_ns > again.now_ns,
        history_readable(
            middle,
            again.watch_id,
            again.authorization_id,
            again.requester_uid,
        ),
    ensures
        after == middle,
        admitted matches Ok(HistoricalComparisonAdmission::Ready(changes)) && same_changes(
            changes,
            published->Ok_0,
        ),
{
    lemma_claim_keeps_sound(
        before,
        claimed,
        request,
        Ok(HistoricalComparisonAdmission::Claimed(claim)),
    );
    lemma_published_is_first(claimed, middle, claim, manifest, applied, invalid, now_ns, published);
    let cuts = before.cuts@.len() as int;
    lemma_placed_alike(before, middle, request.watch_id, request.from_snapshot_uuid, cuts);
    lemma_placed_alike(before, middle, request.watch_id, request.to_snapshot_uuid, cuts);
    assert(comparison_ends(middle, again) == comparison_ends(before, request));
}

/// Whether two answers tell of the same changes between the same snapshots.
pub open spec fn same_changes(left: HistoricalChanges, right: HistoricalChanges) -> bool {
    &&& left.watch_id == right.watch_id
    &&& left.from_snapshot_uuid == right.from_snapshot_uuid
    &&& left.to_snapshot_uuid == right.to_snapshot_uuid
    &&& left.from_sequence == right.from_sequence
    &&& left.to_sequence == right.to_sequence
    &&& left.fresh_instance == right.fresh_instance
    &&& events_view(left.events@) == events_view(right.events@)
}

} // verus!
