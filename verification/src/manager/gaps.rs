//! The cuts of a watch, of which there is one at each sequence, and the gaps that
//! failed cuts leave.

use crate::manager::fresh::{failed_between, head_before, publishes_fresh, PathLookup};
use crate::manager::publish::{cut_at, CheckedIndex};
use crate::manager::rows::{Store, WatchCut};
use crate::manager::table::{law_removing, removing, some, tally};
use crate::manager::types::{CutReservation, ManagerError, PublishedCut};
use crate::text::same_array;
use vstd::prelude::*;

verus! {

/// Whether two cuts are at one sequence of one watch.
pub open spec fn same_place(left: WatchCut, right: WatchCut) -> bool {
    left.watch_id == right.watch_id && left.sequence == right.sequence
}

/// Whether a watch has at most one cut at each sequence.
pub open spec fn cuts_distinct(cuts: Seq<WatchCut>) -> bool {
    forall|i: int, j: int|
        0 <= i < j < cuts.len() ==> !same_place(#[trigger] cuts[i], #[trigger] cuts[j])
}

/// Whether a watch has at most one cut at each sequence.
pub fn are_cuts_distinct(cuts: &Vec<WatchCut>) -> (distinct: bool)
    ensures
        distinct == cuts_distinct(cuts@),
{
    let mut at: usize = 0;
    while at < cuts.len()
        invariant
            at <= cuts@.len(),
            forall|i: int, j: int|
                0 <= i < j < cuts@.len() && i < at ==> !same_place(
                    #[trigger] cuts@[i],
                    #[trigger] cuts@[j],
                ),
        decreases cuts@.len() - at,
    {
        let mut other: usize = at + 1;
        while other < cuts.len()
            invariant
                at < other <= cuts@.len(),
                forall|j: int|
                    at < j < other ==> !same_place(cuts@[at as int], #[trigger] cuts@[j]),
            decreases cuts@.len() - other,
        {
            if cuts[at].sequence == cuts[other].sequence && same_array(
                &cuts[at].watch_id,
                &cuts[other].watch_id,
            ) {
                assert(same_place(cuts@[at as int], cuts@[other as int]));
                return false;
            }
            other += 1;
        }
        at += 1;
    }
    true
}

/// A cut at a sequence that has none can be added.
pub(crate) proof fn lemma_cut_pushed(cuts: Seq<WatchCut>, added: WatchCut)
    requires
        cuts_distinct(cuts),
        !some(cuts, cut_at(added.watch_id, added.sequence)),
    ensures
        cuts_distinct(cuts.push(added)),
{
    let all = cuts.push(added);
    assert forall|i: int, j: int| 0 <= i < j < all.len() implies !same_place(
        #[trigger] all[i],
        #[trigger] all[j],
    ) by {
        assert(all[i] == cuts[i]);
        if j < cuts.len() {
            assert(all[j] == cuts[j]);
        } else {
            assert(!cut_at(added.watch_id, added.sequence)(cuts[i]));
        }
    }
}

/// Cuts that stay at their sequences stay distinct.
pub(crate) proof fn lemma_cuts_changed(before: Seq<WatchCut>, after: Seq<WatchCut>)
    requires
        cuts_distinct(before),
        before.len() == after.len(),
        forall|i: int| 0 <= i < before.len() ==> same_place(before[i], #[trigger] after[i]),
    ensures
        cuts_distinct(after),
{
    assert forall|i: int, j: int| 0 <= i < j < after.len() implies !same_place(
        #[trigger] after[i],
        #[trigger] after[j],
    ) by {
        assert(!same_place(before[i], before[j]));
    }
}

/// Where cuts go, those that are left stay distinct.
pub(crate) proof fn lemma_cuts_left(cuts: Seq<WatchCut>, gone: spec_fn(WatchCut) -> bool)
    requires
        cuts_distinct(cuts),
    ensures
        cuts_distinct(removing(cuts, gone)),
    decreases cuts.len(),
{
    reveal(Seq::filter);
    if cuts.len() > 0 {
        let front = cuts.drop_last();
        let last = cuts.last();
        assert forall|i: int, j: int| 0 <= i < j < front.len() implies !same_place(
            #[trigger] front[i],
            #[trigger] front[j],
        ) by {
            assert(front[i] == cuts[i]);
            assert(front[j] == cuts[j]);
        }
        lemma_cuts_left(front, gone);
        let left = removing(front, gone);
        if !gone(last) {
            assert forall|i: int| 0 <= i < left.len() implies !same_place(
                #[trigger] left[i],
                last,
            ) by {
                law_removing(front, gone, left[i]);
                assert(left.contains(left[i]));
                let k = choose|k: int| 0 <= k < front.len() && front[k] == left[i];
                assert(cuts[k] == left[i]);
                assert(cuts[cuts.len() - 1] == last);
            }
            assert(removing(cuts, gone) =~= left.push(last));
        } else {
            assert(removing(cuts, gone) =~= left);
        }
    }
}

/// The sequences of the cuts that are picked.
pub open spec fn sequences_of(cuts: Seq<WatchCut>, picks: spec_fn(WatchCut) -> bool) -> Set<int>
    decreases cuts.len(),
{
    if cuts.len() == 0 {
        Set::empty()
    } else if picks(cuts.last()) {
        sequences_of(cuts.drop_last(), picks).insert(cuts.last().sequence as int)
    } else {
        sequences_of(cuts.drop_last(), picks)
    }
}

pub(crate) proof fn lemma_sequences(cuts: Seq<WatchCut>, picks: spec_fn(WatchCut) -> bool, watch_id: [u8; 16])
    requires
        cuts_distinct(cuts),
        forall|cut: WatchCut| #[trigger] picks(cut) ==> cut.watch_id == watch_id,
    ensures
        sequences_of(cuts, picks).finite(),
        sequences_of(cuts, picks).len() == tally(cuts, picks),
        forall|sequence: int| #[trigger]
            sequences_of(cuts, picks).contains(sequence) ==> picked_at(cuts, picks, sequence),
    decreases cuts.len(),
{
    reveal(Seq::filter);
    if cuts.len() > 0 {
        let front = cuts.drop_last();
        let last = cuts.last();
        assert forall|i: int, j: int| 0 <= i < j < front.len() implies !same_place(
            #[trigger] front[i],
            #[trigger] front[j],
        ) by {
            assert(front[i] == cuts[i]);
            assert(front[j] == cuts[j]);
        }
        lemma_sequences(front, picks, watch_id);
        let all = sequences_of(cuts, picks);
        assert forall|sequence: int| #[trigger] all.contains(sequence) implies picked_at(
            cuts,
            picks,
            sequence,
        ) by {
            if sequences_of(front, picks).contains(sequence) {
                let i = choose|i: int|
                    0 <= i < front.len() && picks(front[i]) && (#[trigger] front[i]).sequence
                        == sequence;
                assert(cuts[i] == front[i]);
            } else {
                assert(cuts[cuts.len() - 1].sequence == sequence);
            }
        }
        if picks(last) && sequences_of(front, picks).contains(last.sequence as int) {
            let i = choose|i: int|
                0 <= i < front.len() && picks(front[i]) && (#[trigger] front[i]).sequence
                    == last.sequence;
            assert(same_place(cuts[i], cuts[cuts.len() - 1]));
        }
    }
}

/// Whether a picked cut is at the sequence.
pub open spec fn picked_at(
    cuts: Seq<WatchCut>,
    picks: spec_fn(WatchCut) -> bool,
    sequence: int,
) -> bool {
    exists|i: int|
        0 <= i < cuts.len() && picks(cuts[i]) && (#[trigger] cuts[i]).sequence == sequence
}

/// A cut is published behind a gap only where the gap is a whole row of failures:
/// at every sequence in it there is a cut, and every cut in it has failed for
/// good, as has its operation.
pub proof fn law_every_cut_in_the_gap_failed(
    before: Store,
    after: Store,
    reservation: CutReservation,
    lease_owner: [u8; 16],
    snapshot_id: i64,
    snapshot_uuid: [u8; 16],
    checked: CheckedIndex,
    paths: Map<u64, PathLookup>,
    now_ns: i64,
    published: Result<PublishedCut, ManagerError>,
)
    requires
        before.well_formed(),
        publishes_fresh(
            before,
            after,
            reservation,
            lease_owner,
            snapshot_id,
            snapshot_uuid,
            checked,
            paths,
            now_ns,
            published,
        ),
        published is Ok,
    ensures
        head_before(before, reservation.watch_id, reservation.sequence) matches Some((_, head)) && {
            let failed = failed_between(
                before.operations@,
                reservation.watch_id,
                head,
                reservation.sequence,
            );
            &&& forall|sequence: int|
                head < sequence < reservation.sequence ==> #[trigger] picked_at(
                    before.cuts@,
                    failed,
                    sequence,
                )
            &&& forall|i: int|
                0 <= i < before.cuts@.len() && before.cuts@[i].watch_id == reservation.watch_id
                    && head < before.cuts@[i].sequence < reservation.sequence ==> failed(
                    #[trigger] before.cuts@[i],
                )
        },
{
    let watch_id = reservation.watch_id;
    let head = (head_before(before, watch_id, reservation.sequence)->0).1;
    let failed = failed_between(before.operations@, watch_id, head, reservation.sequence);
    let cuts = before.cuts@;
    lemma_sequences(cuts, failed, watch_id);
    let found = sequences_of(cuts, failed);
    let range = vstd::set_lib::set_int_range(head + 1, reservation.sequence as int);
    vstd::set_lib::lemma_int_range(head + 1, reservation.sequence as int);
    assert forall|sequence: int| #[trigger] found.contains(sequence) implies range.contains(
        sequence,
    ) by {
        assert(picked_at(cuts, failed, sequence));
    }
    vstd::set_lib::lemma_subset_equality(found, range);
    assert forall|sequence: int| head < sequence < reservation.sequence implies #[trigger] picked_at(
        cuts,
        failed,
        sequence,
    ) by {
        assert(range.contains(sequence));
        assert(found.contains(sequence));
    }
    assert forall|i: int|
        0 <= i < cuts.len() && cuts[i].watch_id == watch_id && head < cuts[i].sequence
            < reservation.sequence implies failed(#[trigger] cuts[i]) by {
        assert(picked_at(cuts, failed, cuts[i].sequence as int));
        let k = choose|k: int|
            0 <= k < cuts.len() && failed(cuts[k]) && (#[trigger] cuts[k]).sequence
                == cuts[i].sequence;
        if k < i {
            assert(!same_place(cuts[k], cuts[i]));
        } else if i < k {
            assert(!same_place(cuts[i], cuts[k]));
        }
    }
}

} // verus!
