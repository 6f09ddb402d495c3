//! What callers that wait for a cut are given.

use crate::index::events_view;
use crate::manager::compact::RevisionReport;
use crate::manager::cuts::{awaits, polls_admission, publishes_cut, ready_cut, revision_from};
use crate::manager::delta::{
    delta_base, publishes_adjacent, publishes_delta, readies_base, AppliedDelta,
};
use crate::manager::fencing::lemma_place_kept;
use crate::manager::fresh::{publishes_fresh, PathLookup};
use crate::manager::metadata::DeltaDigests;
use crate::manager::provenance::{lemma_held, provenance_held, provenance_stored};
use crate::manager::publish::{cut_at, settled, CheckedIndex};
use crate::manager::reading::{law_next_number_is_new, law_row_is_found};
use crate::manager::rows::{AdmissionState, CutState, RevisionState, Store, WatchCut};
use crate::manager::table::{
    changing, first, first_from, fresh, lemma_first, lemma_place, lemma_slot, row, slot,
};
use crate::manager::types::{
    CutAdmission, CutReservation, ManagerError, PublishedCut, RecordedSnapshot,
};
use crate::manifest::ManifestView;
use vstd::prelude::*;

verus! {

/// Whether two published cuts are the same.
pub open spec fn same_cut(left: PublishedCut, right: PublishedCut) -> bool {
    &&& left.watch_id == right.watch_id
    &&& left.sequence == right.sequence
    &&& left.snapshot_id == right.snapshot_id
    &&& left.revision_id == right.revision_id
    &&& left.comparison_id == right.comparison_id
    &&& events_view(left.events@) == events_view(right.events@)
}

/// Whether no cut that the operation made is ready.
pub open spec fn none_ready(cuts: Seq<WatchCut>, operation_id: [u8; 16]) -> bool {
    forall|i: int|
        0 <= i < cuts.len() && (#[trigger] cuts[i]).operation_id == operation_id ==> cuts[i].state
            != CutState::Ready
}

/// Whether the operation made the cut at its sequence, and none that it made is
/// ready.
pub open spec fn cut_made(cuts: Seq<WatchCut>, reservation: CutReservation) -> bool {
    &&& first(cuts, cut_at(reservation.watch_id, reservation.sequence)) matches Some(at)
    &&& cuts[at].operation_id == reservation.operation_id
    &&& none_ready(cuts, reservation.operation_id)
}

/// Whether the caller waits for the cut, and still has time at `now_ns`.
pub open spec fn waits_for(
    store: Store,
    admission: CutAdmission,
    reservation: CutReservation,
    now_ns: i64,
) -> bool {
    &&& admission.reservation.operation_id == reservation.operation_id
    &&& admission.reservation.watch_id == reservation.watch_id
    &&& row(store.admissions@, admission.id) matches Some(waiting)
    &&& awaits(waiting, admission)
    &&& waiting.expires_ns > now_ns
}

proof fn lemma_only_first<T>(rows: Seq<T>, picks: spec_fn(T) -> bool, at: int, from: int)
    requires
        0 <= from <= at < rows.len(),
        picks(rows[at]),
        forall|i: int| 0 <= i < at ==> !picks(#[trigger] rows[i]),
    ensures
        first_from(rows, picks, from) == Some(at),
    decreases at - from,
{
    if from < at {
        lemma_only_first(rows, picks, at, from + 1);
    }
}

proof fn lemma_given_the_cut(
    before: Store,
    after: Store,
    reservation: CutReservation,
    published: PublishedCut,
    admission: CutAdmission,
    now_ns: i64,
    polled: Result<Option<PublishedCut>, ManagerError>,
)
    requires
        cut_made(before.cuts@, reservation),
        provenance_stored(before.revisions@, before.comparisons@),
        waits_for(before, admission, reservation, now_ns),
        polls_admission(after, admission, now_ns, polled),
        fresh(before.comparisons@) == Some(published.comparison_id),
        after.comparisons@ == before.comparisons@.push(after.comparisons@.last()),
        after.comparisons@.last().id == published.comparison_id,
        events_view(after.comparisons@.last().events@) == events_view(published.events@),
        after.revisions@ == before.revisions@.push(after.revisions@.last()),
        after.revisions@.last().id == published.revision_id,
        after.revisions@.last().snapshot_id == published.snapshot_id,
        after.revisions@.last().provenance_comparison_id == Some(published.comparison_id),
        after.revisions@.last().state == RevisionState::Ready,
        published.watch_id == reservation.watch_id,
        published.sequence == reservation.sequence,
        ({
            let at = first(before.cuts@, cut_at(reservation.watch_id, reservation.sequence))->0;
            &&& before.cuts@[at].target_snapshot_id == published.snapshot_id
            &&& after.cuts@ == before.cuts@.update(at, after.cuts@[at])
            &&& after.cuts@[at] == (WatchCut {
                comparison_id: Some(published.comparison_id),
                comparison_from_snapshot_id: after.cuts@[at].comparison_from_snapshot_id,
                state: CutState::Ready,
                fresh_instance: after.cuts@[at].fresh_instance,
                ..before.cuts@[at]
            })
        }),
        after.admissions@ == changing(
            before.admissions@,
            settled(reservation.operation_id, reservation.watch_id, AdmissionState::Fulfilled),
        ),
    ensures
        polled matches Ok(Some(cut)) && same_cut(cut, published),
{
    let at = first(before.cuts@, cut_at(reservation.watch_id, reservation.sequence))->0;
    lemma_first(before.cuts@, cut_at(reservation.watch_id, reservation.sequence), 0);
    lemma_place_kept(before.admissions@, after.admissions@, admission.id, 0);
    lemma_place(before.admissions@, admission.id, 0);
    law_next_number_is_new(before.comparisons@);
    lemma_held(before.comparisons@, published.comparison_id);
    law_row_is_found(
        before.comparisons@,
        after.comparisons@.last(),
        published.comparison_id,
    );
    let revised = revision_from(published.snapshot_id, published.comparison_id);
    let last = before.revisions@.len() as int;
    assert forall|i: int| 0 <= i < last implies !revised(#[trigger] after.revisions@[i]) by {
        assert(after.revisions@[i] == before.revisions@[i]);
        assert(provenance_held(before.revisions@[i], before.comparisons@));
    }
    lemma_only_first(after.revisions@, revised, last, 0);
    assert(revised(after.revisions@[last]));
    let ready = ready_cut(reservation.operation_id, after.revisions@);
    assert forall|i: int| 0 <= i < at implies !ready(#[trigger] after.cuts@[i]) by {
        assert(after.cuts@[i] == before.cuts@[i]);
    }
    lemma_only_first(after.cuts@, ready, at, 0);
}

/// A physical cut is the one at its sequence, and is not ready yet.
pub proof fn law_physical_cut_is_made(
    before: Store,
    after: Store,
    reservation: CutReservation,
    lease_owner: [u8; 16],
    snapshot: RecordedSnapshot,
    now_ns: i64,
    published: Result<(), ManagerError>,
)
    requires
        publishes_cut(before, after, reservation, lease_owner, snapshot, now_ns, published),
        published is Ok,
        none_ready(before.cuts@, reservation.operation_id),
    ensures
        cut_made(after.cuts@, reservation),
{
    let picks = cut_at(reservation.watch_id, reservation.sequence);
    let last = before.cuts@.len() as int;
    assert forall|i: int| 0 <= i < last implies !picks(#[trigger] after.cuts@[i]) by {
        assert(after.cuts@[i] == before.cuts@[i]);
    }
    lemma_only_first(after.cuts@, picks, last, 0);
    assert forall|i: int|
        0 <= i < after.cuts@.len() && (#[trigger] after.cuts@[i]).operation_id
            == reservation.operation_id implies after.cuts@[i].state != CutState::Ready by {
        if i < last {
            assert(after.cuts@[i] == before.cuts@[i]);
        }
    }
}

/// A caller that waits for a cut which is then indexed as a whole is given that
/// very cut.
pub proof fn law_waiting_caller_gets_the_fresh_cut(
    before: Store,
    after: Store,
    reservation: CutReservation,
    lease_owner: [u8; 16],
    snapshot_id: i64,
    snapshot_uuid: [u8; 16],
    checked: CheckedIndex,
    paths: Map<u64, PathLookup>,
    published_ns: i64,
    published: Result<PublishedCut, ManagerError>,
    admission: CutAdmission,
    now_ns: i64,
    polled: Result<Option<PublishedCut>, ManagerError>,
)
    requires
        publishes_fresh(
            before,
            after,
            reservation,
            lease_owner,
            snapshot_id,
            snapshot_uuid,
            checked,
            paths,
            published_ns,
            published,
        ),
        before.well_formed(),
        cut_made(before.cuts@, reservation),
        waits_for(before, admission, reservation, now_ns),
        polls_admission(after, admission, now_ns, polled),
    ensures
        published matches Ok(published) ==> (polled matches Ok(Some(cut)) && same_cut(
            cut,
            published,
        )),
{
    if let Ok(published) = published {
        lemma_first(before.cuts@, cut_at(reservation.watch_id, reservation.sequence), 0);
        lemma_given_the_cut(before, after, reservation, published, admission, now_ns, polled);
    }
}

/// A caller that waits for a cut which is then indexed on the one before it is
/// given that very cut.
pub proof fn law_waiting_caller_gets_the_cut(
    before: Store,
    after: Store,
    reservation: CutReservation,
    lease_owner: [u8; 16],
    snapshot: RecordedSnapshot,
    manifest: ManifestView,
    applied: AppliedDelta,
    base_report: RevisionReport,
    digests: DeltaDigests,
    published_ns: i64,
    published: Result<PublishedCut, ManagerError>,
    admission: CutAdmission,
    now_ns: i64,
    polled: Result<Option<PublishedCut>, ManagerError>,
)
    requires
        publishes_adjacent(
            before,
            after,
            reservation,
            lease_owner,
            snapshot,
            manifest,
            applied,
            base_report,
            digests,
            published_ns,
            published,
        ),
        before.well_formed(),
        cut_made(before.cuts@, reservation),
        waits_for(before, admission, reservation, now_ns),
        polls_admission(after, admission, now_ns, polled),
    ensures
        published matches Ok(published) ==> (polled matches Ok(Some(cut)) && same_cut(
            cut,
            published,
        )),
{
    if published is Ok {
        let (middle, readied) = choose|middle: Store, readied: Result<i64, Seq<char>>| #[trigger]
            readies_base(before, middle, reservation, lease_owner, base_report, readied)
                && match readied {
                Err(fault) => after == middle && (published matches Err(error) && error@ == fault),
                Ok(base_revision_id) => publishes_delta(
                    middle,
                    after,
                    base_revision_id,
                    reservation,
                    lease_owner,
                    snapshot.snapshot_id,
                    manifest,
                    applied,
                    digests,
                    published_ns,
                    published,
                ),
            };
        let id = delta_base(before, reservation)->Ok_0;
        if middle != before {
            lemma_slot(before.revisions@, id, 0);
            let at = slot(before.revisions@, id)->0;
            assert forall|i: int| 0 <= i < middle.revisions@.len() implies provenance_held(
                #[trigger] middle.revisions@[i],
                middle.comparisons@,
            ) by {
                assert(provenance_held(before.revisions@[i], before.comparisons@));
            }
        }
        lemma_first(middle.cuts@, cut_at(reservation.watch_id, reservation.sequence), 0);
        lemma_given_the_cut(
            middle,
            after,
            reservation,
            published->Ok_0,
            admission,
            now_ns,
            polled,
        );
    }
}

} // verus!
