//! That the summary of every stored revision stays right, whatever is done with
//! the revisions.

use crate::index::IndexView;
use crate::manager::compact::{
    checkpoint_differs, compact_fault, compaction, is_compact, law_compaction_keeps_indexes,
    lemma_chain_lower, lemma_slot_kept, read_fault, IndexDigest, RevisionReport,
};
use crate::manager::delta::{
    delta_base, needs_compaction, publishes_adjacent, publishes_delta, readies_base, AppliedDelta,
};
use crate::manager::floor::{
    compacts, floor_of, lemma_chain_stays, lemma_index_stays, lemma_row_stays, moves_floor,
    needed_revisions, stored_on, truncates, unneeded,
};
use crate::manager::fresh::{publishes_fresh, PathLookup};
use crate::manager::hashes::{delta_hashed, Hashing};
use crate::manager::metadata::{covers, DeltaDigests};
use crate::manager::publish::{publishes_initial, CheckedIndex};
use crate::manager::reading::{
    applies_to, law_added_revision_keeps_indexes, law_next_number_is_new, law_row_is_found,
    lemma_chain_push, lemma_checkpoint_is_loaded, lemma_depth, lemma_depths_compacted,
};
use crate::manager::revisions::{
    chain_from, chain_owner_count_from, depths_sound, lemma_chain_stored, revision_index,
    storage_chain, MAX_DEPTH,
};
use crate::manager::rows::{
    Boundary, Pin, Revision, RevisionPin, RevisionState, Store, Watch, Worktree,
};
use crate::manager::summary::{
    digest_right, is_owned, law_delta_is_summarized, law_fresh_checkpoint_is_summarized,
    law_initial_checkpoint_is_summarized, lemma_compacted_summarized, lemma_count_push,
    lemma_count_shift, picked, summarized,
};
use crate::manager::table::{first, lemma_first, lemma_slot, numbered, slot, some};
use crate::manager::types::{
    CutReservation, InitializeReservation, InitializedWatch, ManagerError, PublishedCut,
    RecordedSnapshot,
};
use crate::manifest::ManifestView;
use vstd::prelude::*;

verus! {

/// Whether a ready revision has the summary of what it holds, and a checkpoint
/// that it has holds the same.
pub open spec fn summary_kept(revisions: Seq<Revision>, id: i64, hashing: Hashing) -> bool {
    numbered(revisions, id) matches Some(revision) ==> (revision.state == RevisionState::Ready
        ==> {
        &&& summarized(revisions, id, hashing)
        &&& revision.checkpoint matches Some(checkpoint) ==> revision_index(revisions, id) == Ok::<
            IndexView,
            Seq<char>,
        >(checkpoint.index@)
    })
}

/// Whether no two revisions have one number.
pub open spec fn numbers_distinct(revisions: Seq<Revision>) -> bool {
    forall|i: int, j: int|
        0 <= i < j < revisions.len() ==> (#[trigger] revisions[i]).id != (
        #[trigger] revisions[j]).id
}

/// Whether every ready revision has the summary of what it holds.
pub open spec fn summaries_kept(revisions: Seq<Revision>, hashing: Hashing) -> bool {
    &&& numbers_distinct(revisions)
    &&& forall|id: i64| #[trigger] summary_kept(revisions, id, hashing)
}

/// A store that holds nothing yet has nothing wrong in it.
pub proof fn law_new_store_is_summarized(store: Store, hashing: Hashing)
    requires
        store.is_empty(),
    ensures
        summaries_kept(store.revisions@, hashing),
{
}

proof fn lemma_summary_pushed(revisions: Seq<Revision>, added: Revision, hashing: Hashing)
    requires
        summaries_kept(revisions, hashing),
        numbered(revisions, added.id) is None,
        summary_kept(revisions.push(added), added.id, hashing),
    ensures
        summaries_kept(revisions.push(added), hashing),
{
    let all = revisions.push(added);
    lemma_slot(revisions, added.id, 0);
    assert forall|id: i64| #[trigger] summary_kept(all, id, hashing) by {
        if id != added.id {
            law_row_is_found(revisions, added, id);
            assert(summary_kept(revisions, id, hashing));
            if summarized(revisions, id, hashing) {
                let chain = storage_chain(revisions, id)->Ok_0;
                let index = revision_index(revisions, id)->Ok_0;
                law_added_revision_keeps_indexes(revisions, added, id);
                lemma_chain_push(revisions, added, id, 0);
                lemma_chain_stored(revisions, id, 0);
                assert forall|uid: u64| #[trigger] chain_owner_count_from(all, chain, uid, 0)
                    == picked(index.objects, is_owned(uid)).len() by {
                    lemma_count_push(revisions, added, chain, uid, 0);
                }
            }
        }
    }
}

/// Publishing a first checkpoint keeps every summary right, and its own is.
pub proof fn law_initial_checkpoint_keeps_summaries(
    before: Store,
    after: Store,
    reservation: InitializeReservation,
    lease_owner: [u8; 16],
    snapshot_id: i64,
    snapshot_uuid: [u8; 16],
    checked: CheckedIndex,
    now_ns: i64,
    published: Result<InitializedWatch, ManagerError>,
    hashing: Hashing,
)
    requires
        summaries_kept(before.revisions@, hashing),
        publishes_initial(
            before,
            after,
            reservation,
            lease_owner,
            snapshot_id,
            snapshot_uuid,
            checked,
            now_ns,
            published,
        ),
        digest_right(checked.digest, checked.index@, hashing),
    ensures
        summaries_kept(after.revisions@, hashing),
{
    law_initial_checkpoint_is_summarized(
        before,
        after,
        reservation,
        lease_owner,
        snapshot_id,
        snapshot_uuid,
        checked,
        now_ns,
        published,
        hashing,
    );
    if published is Ok {
        law_next_number_is_new(before.revisions@);
        let added = after.revisions@.last();
        lemma_checkpoint_is_loaded(before.revisions@, added, added.id);
        law_row_is_found(before.revisions@, added, added.id);
        lemma_summary_pushed(before.revisions@, added, hashing);
    }
}

/// Publishing a cut as a whole keeps every summary right, and its own is.
pub proof fn law_fresh_checkpoint_keeps_summaries(
    before: Store,
    after: Store,
    reservation: CutReservation,
    lease_owner: [u8; 16],
    snapshot_id: i64,
    snapshot_uuid: [u8; 16],
    checked: CheckedIndex,
    paths: Map<u64, PathLookup>,
    now_ns: i64,
    published: Result<PublishedCut, ManagerError>,
    hashing: Hashing,
)
    requires
        summaries_kept(before.revisions@, hashing),
        publishes_fresh(
            before,
            after,
            reservation,
            lease_owner,
            snapshot_id,
            snapshot_uuid,
            checked,
            paths,
            now_ns,
            published,
        ),
        digest_right(checked.digest, checked.index@, hashing),
    ensures
        summaries_kept(after.revisions@, hashing),
{
    law_fresh_checkpoint_is_summarized(
        before,
        after,
        reservation,
        lease_owner,
        snapshot_id,
        snapshot_uuid,
        checked,
        paths,
        now_ns,
        published,
        hashing,
    );
    if published is Ok {
        law_next_number_is_new(before.revisions@);
        let added = after.revisions@.last();
        lemma_checkpoint_is_loaded(before.revisions@, added, added.id);
        law_row_is_found(before.revisions@, added, added.id);
        lemma_summary_pushed(before.revisions@, added, hashing);
    }
}

proof fn lemma_counts_compacted(
    before: Seq<Revision>,
    after: Seq<Revision>,
    id: i64,
    builder_owner: [u8; 16],
    digest: IndexDigest,
    current: i64,
    above: nat,
    uid: u64,
    hashing: Hashing,
)
    requires
        compact_fault(before, id, digest) is None,
        compaction(before, after, id, builder_owner, digest),
        !is_compact(numbered(before, id)->0),
        summarized(before, id, hashing),
        summarized(after, id, hashing),
        revision_index(after, id) == revision_index(before, id),
        chain_from(before, current, above) is Ok,
    ensures
        chain_from(after, current, above) is Ok,
        chain_from(after, current, above)->Ok_0.len() > 0,
        chain_owner_count_from(after, chain_from(after, current, above)->Ok_0, uid, 0)
            == chain_owner_count_from(before, chain_from(before, current, above)->Ok_0, uid, 0),
    decreases MAX_DEPTH + 1 - above,
{
    let place = slot(before, id)->0;
    lemma_slot(before, id, 0);
    lemma_slot(before, current, 0);
    lemma_slot_kept(before, after, place, current, 0);
    let chain = chain_from(before, current, above)->Ok_0;
    if current == id {
        lemma_chain_lower(before, id, above, 0);
        let made = seq![id];
        assert(chain_from(after, id, above) == Ok::<Seq<i64>, Seq<char>>(made));
        assert(storage_chain(after, id) == Ok::<Seq<i64>, Seq<char>>(made));
        let objects = revision_index(before, id)->Ok_0.objects;
        assert(chain_owner_count_from(before, chain, uid, 0) == picked(
            objects,
            is_owned(uid),
        ).len());
        assert(chain_owner_count_from(after, made, uid, 0) == picked(
            objects,
            is_owned(uid),
        ).len());
    } else {
        assert(numbered(after, current) == numbered(before, current));
        match numbered(before, current)->0.storage_base_revision_id {
            None => {
                assert(chain == seq![current]);
                assert(chain.last() == current);
            },
            Some(base) => {
                let rest = chain_from(before, base, above + 1)->Ok_0;
                lemma_chain_stored(before, base, above + 1);
                lemma_count_shift(before, current, rest, uid, 0);
                assert(chain[0] == current);
                lemma_counts_compacted(
                    before,
                    after,
                    id,
                    builder_owner,
                    digest,
                    base,
                    above + 1,
                    uid,
                    hashing,
                );
                let new_rest = chain_from(after, base, above + 1)->Ok_0;
                let new_chain = seq![current] + new_rest;
                lemma_count_shift(after, current, new_rest, uid, 0);
                assert(new_chain[0] == current);
            },
        }
    }
}

/// Compacting a revision keeps every summary right, where the digest is that of
/// its index.
pub proof fn law_compaction_keeps_summaries(
    before: Seq<Revision>,
    after: Seq<Revision>,
    id: i64,
    builder_owner: [u8; 16],
    digest: IndexDigest,
    hashing: Hashing,
)
    requires
        summaries_kept(before, hashing),
        compact_fault(before, id, digest) is None,
        compaction(before, after, id, builder_owner, digest),
        digest_right(digest, revision_index(before, id)->Ok_0, hashing),
    ensures
        summaries_kept(after, hashing),
        !checkpoint_differs(numbered(before, id)->0, revision_index(before, id)->Ok_0),
{
    let at = slot(before, id)->0;
    lemma_slot(before, id, 0);
    assert(summary_kept(before, id, hashing));
    let revision = numbered(before, id)->0;
    if !is_compact(revision) {
        lemma_compacted_summarized(before, after, id, builder_owner, digest, hashing);
        law_compaction_keeps_indexes(before, after, id, builder_owner, digest, id);
        assert forall|other: i64| #[trigger] summary_kept(after, other, hashing) by {
            lemma_slot(before, other, 0);
            lemma_slot_kept(before, after, at, other, 0);
            assert(summary_kept(before, other, hashing));
            if other != id && summarized(before, other, hashing) {
                law_compaction_keeps_indexes(before, after, id, builder_owner, digest, other);
                let chain = storage_chain(before, other)->Ok_0;
                let made = storage_chain(after, other)->Ok_0;
                let objects = revision_index(before, other)->Ok_0.objects;
                assert forall|uid: u64| #[trigger] chain_owner_count_from(after, made, uid, 0)
                    == picked(objects, is_owned(uid)).len() by {
                    assert(chain_owner_count_from(before, chain, uid, 0) == picked(
                        objects,
                        is_owned(uid),
                    ).len());
                    lemma_counts_compacted(
                        before,
                        after,
                        id,
                        builder_owner,
                        digest,
                        other,
                        0,
                        uid,
                        hashing,
                    );
                }
            }
        }
    }
}

/// Publishing an indexed cut keeps every summary right, and its own is.
pub proof fn law_adjacent_delta_keeps_summaries(
    before: Store,
    after: Store,
    reservation: CutReservation,
    lease_owner: [u8; 16],
    snapshot: RecordedSnapshot,
    manifest: ManifestView,
    applied: AppliedDelta,
    base_report: RevisionReport,
    digests: DeltaDigests,
    now_ns: i64,
    published: Result<PublishedCut, ManagerError>,
    hashing: Hashing,
)
    requires
        summaries_kept(before.revisions@, hashing),
        depths_sound(before.revisions@),
        publishes_adjacent(
            before,
            after,
            reservation,
            lease_owner,
            snapshot,
            manifest,
            applied,
            base_report,
            digests,
            now_ns,
            published,
        ),
        delta_base(before, reservation) matches Ok(id) ==> (revision_index(
            before.revisions@,
            id,
        ) matches Ok(base) ==> applies_to(manifest, base) && delta_hashed(
            digests,
            base.objects,
            applied.index.objects@,
            manifest,
            hashing,
        ) && (base_report.digest matches Ok(digest) ==> digest_right(digest, base, hashing))),
        covers(digests, manifest),
    ensures
        summaries_kept(after.revisions@, hashing),
{
    let (middle, readied) = choose|middle: Store, readied: Result<i64, Seq<char>>| #[trigger]
        readies_base(before, middle, reservation, lease_owner, base_report, readied)
            && match readied {
            Err(fault) => after == middle && (published matches Err(error) && error@ == fault),
            Ok(base_revision_id) => publishes_delta(
                middle,
                after,
                base_revision_id,
                reservation,
                lease_owner,
                snapshot.snapshot_id,
                manifest,
                applied,
                digests,
                now_ns,
                published,
            ),
        };
    if let Ok(id) = delta_base(before, reservation) {
        let revision = numbered(before.revisions@, id)->0;
        lemma_depth(before.revisions@, id);
        assert(summary_kept(before.revisions@, id, hashing));
        if needs_compaction(revision) && read_fault(
            before.revisions@,
            id,
            base_report,
        ) is None {
            lemma_depths_compacted(
                before.revisions@,
                middle.revisions@,
                id,
                lease_owner,
                base_report.digest->Ok_0,
            );
            law_compaction_keeps_summaries(
                before.revisions@,
                middle.revisions@,
                id,
                lease_owner,
                base_report.digest->Ok_0,
                hashing,
            );
            law_compaction_keeps_indexes(
                before.revisions@,
                middle.revisions@,
                id,
                lease_owner,
                base_report.digest->Ok_0,
                id,
            );
        }
        if published is Ok {
            assert(summary_kept(middle.revisions@, id, hashing));
            law_delta_is_summarized(
                middle,
                after,
                id,
                reservation,
                lease_owner,
                snapshot.snapshot_id,
                manifest,
                applied,
                digests,
                now_ns,
                published,
                hashing,
            );
            law_next_number_is_new(middle.revisions@);
            let added = after.revisions@.last();
            law_row_is_found(middle.revisions@, added, added.id);
            lemma_summary_pushed(middle.revisions@, added, hashing);
        }
    }
}

proof fn lemma_count_stays(
    revisions: Seq<Revision>,
    at: int,
    chain: Seq<i64>,
    uid: u64,
    from: int,
)
    requires
        0 <= at < revisions.len(),
        0 <= from,
        chain.len() > 0,
        forall|i: int| 0 <= i < chain.len() ==> #[trigger] chain[i] != revisions[at].id,
        forall|i: int|
            0 <= i < chain.len() ==> numbered(revisions, #[trigger] chain[i]) is Some,
    ensures
        chain_owner_count_from(revisions.remove(at), chain, uid, from) == chain_owner_count_from(
            revisions,
            chain,
            uid,
            from,
        ),
    decreases chain.len() - from,
{
    if from >= chain.len() - 1 {
        assert(chain.last() == chain[chain.len() - 1]);
        lemma_row_stays(revisions, at, chain.last(), 0);
    } else {
        lemma_row_stays(revisions, at, chain[from], 0);
        lemma_count_stays(revisions, at, chain, uid, from + 1);
    }
}

proof fn lemma_summaries_left(revisions: Seq<Revision>, at: int, hashing: Hashing)
    requires
        summaries_kept(revisions, hashing),
        0 <= at < revisions.len(),
        !some(revisions, stored_on(revisions[at].id)),
    ensures
        summaries_kept(revisions.remove(at), hashing),
{
    let left = revisions.remove(at);
    assert forall|i: int, j: int| 0 <= i < j < left.len() implies (#[trigger] left[i]).id != (
    #[trigger] left[j]).id by {
        let a = if i < at {
            i
        } else {
            i + 1
        };
        let b = if j < at {
            j
        } else {
            j + 1
        };
        assert(left[i] == revisions[a] && left[j] == revisions[b]);
    }
    assert forall|id: i64| #[trigger] summary_kept(left, id, hashing) by {
        assert(summary_kept(revisions, id, hashing));
        if id == revisions[at].id {
            lemma_slot(left, id, 0);
            if let Some(found) = slot(left, id) {
                let place = if found < at {
                    found
                } else {
                    found + 1
                };
                assert(left[found] == revisions[place]);
            }
        } else {
            lemma_row_stays(revisions, at, id, 0);
            lemma_slot(revisions, id, 0);
            if summarized(revisions, id, hashing) {
                let chain = storage_chain(revisions, id)->Ok_0;
                let objects = revision_index(revisions, id)->Ok_0.objects;
                lemma_chain_stays(revisions, at, id, 0);
                lemma_chain_stored(revisions, id, 0);
                lemma_index_stays(revisions, at, chain, 0);
                assert forall|uid: u64| #[trigger] chain_owner_count_from(left, chain, uid, 0)
                    == picked(objects, is_owned(uid)).len() by {
                    lemma_count_stays(revisions, at, chain, uid, 0);
                    assert(chain_owner_count_from(revisions, chain, uid, 0) == picked(
                        objects,
                        is_owned(uid),
                    ).len());
                }
            }
        }
    }
}

/// Letting revisions go that nothing needs keeps every summary right.
pub proof fn law_reclaiming_keeps_summaries(
    watches: Seq<Watch>,
    worktrees: Seq<Worktree>,
    query_pins: Seq<RevisionPin>,
    pins: Seq<Pin>,
    boundaries: Seq<Boundary>,
    revisions: Seq<Revision>,
    hashing: Hashing,
)
    requires
        summaries_kept(revisions, hashing),
    ensures
        summaries_kept(
            needed_revisions(watches, worktrees, query_pins, pins, boundaries, revisions),
            hashing,
        ),
    decreases revisions.len(),
{
    let picks = unneeded(watches, worktrees, query_pins, pins, boundaries, revisions);
    lemma_first(revisions, picks, 0);
    if let Some(at) = first(revisions, picks) {
        assert(picks(revisions[at]));
        lemma_summaries_left(revisions, at, hashing);
        law_reclaiming_keeps_summaries(
            watches,
            worktrees,
            query_pins,
            pins,
            boundaries,
            revisions.remove(at),
            hashing,
        );
    }
}

/// Letting old history go keeps every summary right, where the digest is that of
/// the index that the watch is indexed to.
pub proof fn law_floor_keeps_summaries(
    before: Store,
    after: Store,
    watch_id: [u8; 16],
    new_floor: i64,
    now_ns: i64,
    owner: [u8; 16],
    report: RevisionReport,
    reclaimed: Result<usize, ManagerError>,
    hashing: Hashing,
)
    requires
        summaries_kept(before.revisions@, hashing),
        moves_floor(before, after, watch_id, new_floor, now_ns, owner, report, reclaimed),
        report.digest matches Ok(digest) ==> (floor_of(before, watch_id) matches Ok((_, _, revision_id))
            ==> (revision_index(before.revisions@, revision_id) matches Ok(index) ==> digest_right(
            digest,
            index,
            hashing,
        ))),
    ensures
        summaries_kept(after.revisions@, hashing),
{
    if after != before {
        let (_, _, revision_id) = floor_of(before, watch_id)->Ok_0;
        let middle = choose|middle: Store| #[trigger]
            compacts(before, middle, revision_id, owner, report.digest->Ok_0) && if reclaimed is Ok {
                truncates(middle, after, watch_id, new_floor, now_ns)
            } else {
                after == middle
            };
        law_compaction_keeps_summaries(
            before.revisions@,
            middle.revisions@,
            revision_id,
            owner,
            report.digest->Ok_0,
            hashing,
        );
        if reclaimed is Ok {
            law_reclaiming_keeps_summaries(
                after.watches@,
                after.worktrees@,
                after.revision_pins@,
                after.pins@,
                after.boundaries@,
                middle.revisions@,
                hashing,
            );
        }
    }
}

} // verus!
