//! The life of a comparison between two old snapshots.

use crate::index::events_view;
use crate::manager::delta::AppliedDelta;
use crate::manager::history::{
    claims_comparison, comparing, comparison_ends, publishes_comparison, ready_of, retained_as,
    retained_revision, same_pin, with_pin,
};
use crate::manager::pins::pins_of;
use crate::manager::revisions::revision_loaded;
use crate::manager::rows::{
    Comparison, ComparisonKind, ComparisonState, GrantState, PhysicalState, Pin, PinOwner,
    PinReason, RevisionState, Store, WatchState,
};
use crate::manager::table::{
    first, law_removing, lemma_first, lemma_slot, numbered, row, slot, some,
};
use crate::manager::types::{
    HistoricalChanges, HistoricalComparisonAdmission, HistoricalComparisonClaim,
    HistoricalComparisonRequest, ManagerError, Principal,
};
use crate::manifest::ManifestView;
use vstd::prelude::*;

verus! {

/// Whether the numbers are those of a present snapshot of the watch's filesystem that is
/// the subvolume, and of a ready revision of it.
pub open spec fn is_end(
    store: Store,
    watch_id: [u8; 16],
    subvol_uuid: [u8; 16],
    snapshot_id: i64,
    revision_id: i64,
) -> bool {
    &&& exists|i: int|
        0 <= i < store.snapshots@.len() && (#[trigger] store.snapshots@[i]).id == snapshot_id
            && store.snapshots@[i].subvol_uuid == subvol_uuid && store.snapshots@[i].physical_state
            == PhysicalState::Present && store.snapshots@[i].filesystem_id == row(
            store.watches@,
            watch_id,
        )->0.filesystem_id
    &&& exists|i: int|
        0 <= i < store.revisions@.len() && (#[trigger] store.revisions@[i]).id == revision_id
            && store.revisions@[i].snapshot_id == snapshot_id && store.revisions@[i].state
            == RevisionState::Ready
}

proof fn lemma_end(store: Store, watch_id: [u8; 16], subvol_uuid: [u8; 16])
    ensures
        retained_revision(store, watch_id, subvol_uuid) matches Some((snapshot_id, revision_id))
            ==> is_end(store, watch_id, subvol_uuid, snapshot_id, revision_id),
{
    if let Some((snapshot_id, revision_id)) = retained_revision(store, watch_id, subvol_uuid) {
        let filesystem_id = row(store.watches@, watch_id)->0.filesystem_id;
        let picks = retained_as(store.revisions@, filesystem_id, subvol_uuid);
        lemma_first(store.snapshots@, picks, 0);
        let at = first(store.snapshots@, picks)->0;
        assert(store.snapshots@[at].id == snapshot_id);
        let ready = ready_of(snapshot_id);
        lemma_first(store.revisions@, ready, 0);
        let j = choose|j: int|
            0 <= j < store.revisions@.len() && ready(#[trigger] store.revisions@[j]);
        assert(ready(store.revisions@[j]));
        let revision = first(store.revisions@, ready)->0;
        assert(store.revisions@[revision].id == revision_id);
    }
}

/// Whether the user may read the watch under the grant.
pub open spec fn may_read(
    store: Store,
    watch_id: [u8; 16],
    grant_id: [u8; 16],
    uid: u32,
) -> bool {
    &&& row(store.watches@, watch_id) matches Some(watch)
    &&& watch.state == WatchState::Active || watch.state == WatchState::Blocked
    &&& row(store.grants@, grant_id) matches Some(grant)
    &&& grant.watch_id == watch_id
    &&& grant.state == GrantState::Active
    &&& grant.permissions & 1 == 1
    &&& grant.principal == Principal::Uid(uid as u64)
}

/// Whether the row is the comparison that was claimed.
pub open spec fn claimed_row(
    comparison: Comparison,
    claim: HistoricalComparisonClaim,
) -> bool {
    &&& comparison.id == claim.comparison_id
    &&& comparison.from_snapshot_id == claim.from_snapshot_id
    &&& comparison.to_snapshot_id == claim.to_snapshot_id
    &&& comparison.kind == ComparisonKind::Incremental
    &&& comparison.algorithm_version == 2
    &&& comparison.state == ComparisonState::Claimed
    &&& comparison.lease_owner == Some(claim.lease_owner)
    &&& comparison.lease_fence == claim.lease_fence
}

proof fn lemma_with(pins: Seq<Pin>, pin: Pin)
    ensures
        with_pin(pins, pin).contains(pin),
        forall|other: Pin|
            #[trigger] with_pin(pins, pin).contains(other) <==> pins.contains(other) || other
                == pin,
{
    let same = same_pin(pin);
    let all = with_pin(pins, pin);
    if some(pins, same) {
        let i = choose|i: int| 0 <= i < pins.len() && same(#[trigger] pins[i]);
        assert(pins[i] == pin);
    } else {
        assert(all[pins.len() as int] == pin);
        assert forall|other: Pin|
            #[trigger] all.contains(other) <==> pins.contains(other) || other == pin by {
            if pins.contains(other) {
                let i = choose|i: int| 0 <= i < pins.len() && pins[i] == other;
                assert(all[i] == other);
            }
            if all.contains(other) {
                let i = choose|i: int| 0 <= i < all.len() && all[i] == other;
                if i < pins.len() {
                    assert(pins[i] == other);
                }
            }
        }
    }
}

/// A comparison is claimed for a time to come, by who may read the watch, from an older
/// snapshot of it to a newer one. It is the owner's from that time on, nobody else's
/// whose time has not run out is taken, and both of its ends are kept.
pub proof fn law_claimed_comparison(
    before: Store,
    after: Store,
    request: HistoricalComparisonRequest,
    claim: HistoricalComparisonClaim,
)
    requires
        claims_comparison(
            before,
            after,
            request,
            Ok(HistoricalComparisonAdmission::Claimed(claim)),
        ),
    ensures
        request.now_ns < request.lease_expires_ns,
        may_read(before, request.watch_id, request.authorization_id, request.requester_uid),
        claim.watch_id == request.watch_id,
        claim.authorization_id == request.authorization_id,
        claim.from_snapshot_uuid == request.from_snapshot_uuid,
        claim.to_snapshot_uuid == request.to_snapshot_uuid,
        claim.lease_owner == request.lease_owner,
        claim.from_sequence < claim.to_sequence,
        is_end(
            before,
            request.watch_id,
            request.from_snapshot_uuid,
            claim.from_snapshot_id,
            claim.from_revision_id,
        ),
        is_end(
            before,
            request.watch_id,
            request.to_snapshot_uuid,
            claim.to_snapshot_id,
            claim.to_revision_id,
        ),
        exists|i: int|
            0 <= i < after.comparisons@.len() && #[trigger] claimed_row(
                after.comparisons@[i],
                claim,
            ),
        forall|i: int|
            0 <= i < before.comparisons@.len() && #[trigger] after.comparisons@[i]
                != before.comparisons@[i] ==> {
                let earlier = before.comparisons@[i];
                &&& earlier.state != ComparisonState::IndexReady
                &&& earlier.from_snapshot_id == claim.from_snapshot_id
                &&& earlier.to_snapshot_id == claim.to_snapshot_id
                &&& (earlier.lease_owner matches Some(other) && other != request.lease_owner) ==> (
                earlier.lease_expires_ns matches Some(expires) && expires <= request.now_ns)
                &&& claim.lease_fence > earlier.lease_fence
            },
        forall|pin: Pin|
            #[trigger] after.pins@.contains(pin) <==> before.pins@.contains(pin) || pin == (Pin {
                snapshot_id: claim.from_snapshot_id,
                owner: PinOwner::Comparison(claim.comparison_id),
                reason: PinReason::HistoricalComparisonSource,
            }) || pin == (Pin {
                snapshot_id: claim.to_snapshot_id,
                owner: PinOwner::Comparison(claim.comparison_id),
                reason: PinReason::HistoricalComparisonTarget,
            }),
{
    lemma_end(before, request.watch_id, request.from_snapshot_uuid);
    lemma_end(before, request.watch_id, request.to_snapshot_uuid);
    let picks = comparing(claim.from_snapshot_id, claim.to_snapshot_id);
    lemma_first(before.comparisons@, picks, 0);
    match first(before.comparisons@, picks) {
        None => {
            let last = before.comparisons@.len() as int;
            assert(claimed_row(after.comparisons@[last], claim));
        },
        Some(at) => {
            assert(claimed_row(after.comparisons@[at], claim));
        },
    }
    let source = Pin {
        snapshot_id: claim.from_snapshot_id,
        owner: PinOwner::Comparison(claim.comparison_id),
        reason: PinReason::HistoricalComparisonSource,
    };
    let target = Pin {
        snapshot_id: claim.to_snapshot_id,
        owner: PinOwner::Comparison(claim.comparison_id),
        reason: PinReason::HistoricalComparisonTarget,
    };
    lemma_with(before.pins@, source);
    lemma_with(with_pin(before.pins@, source), target);
}

/// Where nothing lies between two snapshots, there is nothing to compare and nothing to
/// tell. Who may not read the watch, or names them the wrong way round, is refused.
pub proof fn law_answered_comparison(
    before: Store,
    after: Store,
    request: HistoricalComparisonRequest,
    changes: HistoricalChanges,
)
    requires
        claims_comparison(
            before,
            after,
            request,
            Ok(HistoricalComparisonAdmission::Ready(changes)),
        ),
    ensures
        after == before,
        request.now_ns < request.lease_expires_ns,
        may_read(before, request.watch_id, request.authorization_id, request.requester_uid),
        changes.watch_id == request.watch_id,
        changes.from_snapshot_uuid == request.from_snapshot_uuid,
        changes.to_snapshot_uuid == request.to_snapshot_uuid,
        changes.from_sequence <= changes.to_sequence,
        !changes.fresh_instance,
        changes.from_sequence == changes.to_sequence ==> changes.events@.len() == 0,
        changes.from_sequence < changes.to_sequence ==> exists|i: int|
            0 <= i < before.comparisons@.len() && (#[trigger] before.comparisons@[i]).state
                == ComparisonState::IndexReady && before.comparisons@[i].algorithm_version == 2
                && events_view(before.comparisons@[i].events@) == events_view(changes.events@),
{
    let ends = comparison_ends(before, request)->Ok_0;
    if changes.from_sequence < changes.to_sequence {
        let picks = comparing(ends.from.0, ends.to.0);
        lemma_first(before.comparisons@, picks, 0);
        let at = first(before.comparisons@, picks)->0;
        assert(before.comparisons@[at].state == ComparisonState::IndexReady);
    } else {
        assert(events_view(changes.events@).len() == changes.events@.len());
    }
}

/// A comparison is published by who claimed it and while the claim lasts, where it leads
/// from what the one end holds to just what the other holds. It is ready from that time
/// on, and its ends are not kept for it any more.
pub proof fn law_published_comparison(
    before: Store,
    after: Store,
    claim: HistoricalComparisonClaim,
    manifest: ManifestView,
    applied: AppliedDelta,
    invalid: Map<i64, String>,
    now_ns: i64,
    published: Result<HistoricalChanges, ManagerError>,
)
    requires
        publishes_comparison(
            before,
            after,
            claim,
            manifest,
            applied,
            invalid,
            now_ns,
            published,
        ),
    ensures
        published is Err ==> after == before,
        published matches Ok(changes) ==> {
            &&& numbered(before.comparisons@, claim.comparison_id) matches Some(comparison)
            &&& claimed_row(comparison, claim)
            &&& comparison.lease_expires_ns matches Some(expires)
            &&& now_ns < expires
            &&& revision_loaded(before.revisions@, claim.to_revision_id, invalid) == Ok::<
                crate::index::IndexView,
                Seq<char>,
            >(applied.index@)
            &&& numbered(before.snapshots@, claim.from_snapshot_id)->0.physical_state
                == PhysicalState::Present
            &&& numbered(before.snapshots@, claim.to_snapshot_id)->0.physical_state
                == PhysicalState::Present
            &&& row(before.grants@, claim.authorization_id) matches Some(grant)
            &&& grant.watch_id == claim.watch_id
            &&& grant.state == GrantState::Active
            &&& grant.permissions & 1 == 1
            &&& exists|i: int|
                0 <= i < after.comparisons@.len() && #[trigger] ready_row(
                    before.comparisons@[i],
                    after.comparisons@[i],
                    claim,
                    manifest,
                    applied,
                ) && forall|j: int|
                    0 <= j < after.comparisons@.len() && j != i ==> #[trigger] after.comparisons@[j]
                        == before.comparisons@[j]
            &&& changes.watch_id == claim.watch_id
            &&& changes.from_snapshot_uuid == claim.from_snapshot_uuid
            &&& changes.to_snapshot_uuid == claim.to_snapshot_uuid
            &&& changes.from_sequence == claim.from_sequence
            &&& changes.to_sequence == claim.to_sequence
            &&& !changes.fresh_instance
            &&& events_view(changes.events@) == events_view(applied.events@)
            &&& forall|pin: Pin|
                #[trigger] after.pins@.contains(pin) <==> before.pins@.contains(pin) && pin.owner
                    != PinOwner::Comparison(claim.comparison_id)
        },
{
    if published is Ok {
        lemma_slot(before.comparisons@, claim.comparison_id, 0);
        let at = slot(before.comparisons@, claim.comparison_id)->0;
        assert(ready_row(
            before.comparisons@[at],
            after.comparisons@[at],
            claim,
            manifest,
            applied,
        ));
        let gone = pins_of(PinOwner::Comparison(claim.comparison_id));
        assert forall|pin: Pin|
            #[trigger] after.pins@.contains(pin) <==> before.pins@.contains(pin) && pin.owner
                != PinOwner::Comparison(claim.comparison_id) by {
            law_removing(before.pins@, gone, pin);
        }
    }
}

/// Whether the claimed comparison became ready.
pub open spec fn ready_row(
    old_row: Comparison,
    new_row: Comparison,
    claim: HistoricalComparisonClaim,
    manifest: ManifestView,
    applied: AppliedDelta,
) -> bool {
    &&& old_row.id == claim.comparison_id
    &&& new_row.id == claim.comparison_id
    &&& new_row.from_snapshot_id == claim.from_snapshot_id
    &&& new_row.to_snapshot_id == claim.to_snapshot_id
    &&& new_row.kind == ComparisonKind::Incremental
    &&& new_row.algorithm_version == 2
    &&& new_row.state == ComparisonState::IndexReady
    &&& new_row.lease_owner is None
    &&& new_row.lease_expires_ns is None
    &&& new_row.lease_fence == claim.lease_fence
    &&& new_row.raw_ref_adds == Some(manifest.raw_ref_adds as i64)
    &&& new_row.raw_ref_deletes == Some(manifest.raw_ref_deletes as i64)
    &&& events_view(new_row.events@) == events_view(applied.events@)
}

} // verus!
