//! What is told of the changes that were published: nothing else, and all of it.

use crate::index::{events_view, Event, EventKind, EventView, Object};
use crate::inodes::{lemma_numbers_in_order, numbers_in_order};
use crate::manager::compact::RevisionReport;
use crate::manager::delta::{
    publishes_adjacent, publishes_delta, readies_base, AppliedDelta,
};
use crate::manager::fresh::{
    fresh_events, fresh_events_from, paths_added, publishes_fresh, PathLookup,
};
use crate::manager::gaps::{cuts_distinct, lemma_sequences, picked_at, same_place, sequences_of};
use crate::manager::history::{events_from, placement_before, replayable, replays, Placement};
use crate::manager::metadata::DeltaDigests;
use crate::manager::publish::{cut_at, CheckedIndex};
use crate::manager::reading::{law_next_number_is_new, law_row_is_found};
use crate::manager::rows::{CutState, GrantState, Store, WatchCut, WatchState};
use crate::manager::table::{first, lemma_first, numbered, row, tally};
use crate::manager::types::{
    CutReservation, HistoricalChanges, ManagerError, Principal, PublishedCut, RecordedSnapshot,
};
use crate::manifest::ManifestView;
use vstd::prelude::*;

verus! {

/// Two events that look the same are the same in every respect.
pub proof fn law_events_are_told_whole(left: Event, right: Event)
    requires
        left@ == right@,
    ensures
        left.kind == right.kind,
        left.ino == right.ino,
        left.old_generation == right.old_generation,
        left.new_generation == right.new_generation,
        left.change_mask == right.change_mask,
        left.old_path is Some == right.old_path is Some,
        left.old_path is Some ==> left.old_path->0@ == right.old_path->0@,
        left.new_path is Some == right.new_path is Some,
        left.new_path is Some ==> left.new_path->0@ == right.new_path->0@,
{
}

/// Whether an event tells that the object is new at the path: nothing of it was
/// there before.
pub open spec fn tells_new(event: EventView, object: Object, path: Seq<u8>) -> bool {
    &&& event.kind == EventKind::PathAdded
    &&& event.ino == object.ino
    &&& event.old_generation is None
    &&& event.new_generation == Some(object.generation)
    &&& event.change_mask == 35
    &&& event.old_path is None
    &&& event.new_path == Some(path)
}

/// Whether an event tells of one of the paths that the objects have.
pub open spec fn tells_some_path(
    event: EventView,
    objects: Map<u64, Object>,
    paths: Map<u64, PathLookup>,
) -> bool {
    exists|ino: u64, j: int| #[trigger]
        has_path(objects, paths, ino, j) && tells_new(
            event,
            objects[ino],
            (paths[ino]->Ok_0)@[j]@,
        )
}

/// Whether the object with the inode number has a path in the place.
pub open spec fn has_path(
    objects: Map<u64, Object>,
    paths: Map<u64, PathLookup>,
    ino: u64,
    j: int,
) -> bool {
    &&& objects.contains_key(ino)
    &&& paths[ino] is Ok
    &&& 0 <= j < (paths[ino]->Ok_0)@.len()
}

/// Whether some event tells that the object is new at the path.
pub open spec fn is_told(events: Seq<EventView>, object: Object, path: Seq<u8>) -> bool {
    exists|k: int| 0 <= k < events.len() && tells_new(#[trigger] events[k], object, path)
}

/// How many paths the objects from `at` on have.
pub open spec fn paths_from(paths: Map<u64, PathLookup>, inos: Seq<u64>, at: int) -> nat
    decreases inos.len() - at,
{
    if at < 0 || at >= inos.len() {
        0
    } else {
        match paths[inos[at]] {
            Ok(found) => found@.len() + paths_from(paths, inos, at + 1),
            Err(_) => 0,
        }
    }
}

proof fn lemma_mask()
    ensures
        32u64 | 1u64 | 2u64 == 35u64,
{
    assert(32u64 | 1u64 | 2u64 == 35u64) by (bit_vector);
}

proof fn lemma_fresh_told(
    objects: Map<u64, Object>,
    paths: Map<u64, PathLookup>,
    inos: Seq<u64>,
    at: int,
)
    requires
        0 <= at <= inos.len(),
        forall|i: int| 0 <= i < inos.len() ==> objects.contains_key(#[trigger] inos[i]),
    ensures
        fresh_events_from(objects, paths, inos, at) matches Ok(events) ==> {
            &&& forall|k: int|
                0 <= k < events.len() ==> tells_some_path(#[trigger] events[k], objects, paths)
            &&& forall|i: int, j: int|
                at <= i < inos.len() && #[trigger] has_path(objects, paths, inos[i], j) ==> is_told(
                    events,
                    objects[inos[i]],
                    (paths[inos[i]]->Ok_0)@[j]@,
                )
            &&& forall|i: int| at <= i < inos.len() ==> paths[#[trigger] inos[i]] is Ok
            &&& events.len() == paths_from(paths, inos, at)
        },
    decreases inos.len() - at,
{
    lemma_mask();
    if at < inos.len() {
        lemma_fresh_told(objects, paths, inos, at + 1);
        if let Ok(events) = fresh_events_from(objects, paths, inos, at) {
            let ino = inos[at];
            let found = (paths[ino]->Ok_0)@;
            let here = paths_added(objects[ino], found);
            let rest = fresh_events_from(objects, paths, inos, at + 1)->Ok_0;
            assert forall|k: int| 0 <= k < events.len() implies tells_some_path(
                #[trigger] events[k],
                objects,
                paths,
            ) by {
                if k < here.len() {
                    assert(has_path(objects, paths, ino, k));
                    assert(tells_new(events[k], objects[ino], found[k]@));
                } else {
                    assert(events[k] == rest[k - here.len()]);
                }
            }
            assert forall|i: int, j: int|
                at <= i < inos.len() && #[trigger] has_path(objects, paths, inos[i], j) implies
                is_told(events, objects[inos[i]], (paths[inos[i]]->Ok_0)@[j]@) by {
                if i == at {
                    assert(events[j] == here[j]);
                    assert(tells_new(events[j], objects[ino], found[j]@));
                } else {
                    let path = (paths[inos[i]]->Ok_0)@[j]@;
                    let k = choose|k: int|
                        0 <= k < rest.len() && tells_new(
                            #[trigger] rest[k],
                            objects[inos[i]],
                            path,
                        );
                    assert(events[here.len() + k] == rest[k]);
                }
            }
        }
    }
}

/// A cut of which everything is new tells of every path of every object in its index
/// that it was added, of no other path, and once each: nothing is told to have been
/// there before. The same is kept for later.
pub proof fn law_fresh_cut_tells_every_path(
    before: Store,
    after: Store,
    reservation: CutReservation,
    lease_owner: [u8; 16],
    snapshot_id: i64,
    snapshot_uuid: [u8; 16],
    checked: CheckedIndex,
    paths: Map<u64, PathLookup>,
    now_ns: i64,
    published: Result<PublishedCut, ManagerError>,
)
    requires
        publishes_fresh(
            before,
            after,
            reservation,
            lease_owner,
            snapshot_id,
            snapshot_uuid,
            checked,
            paths,
            now_ns,
            published,
        ),
        published is Ok,
    ensures
        ({
            let objects = checked.index.objects@;
            let events = events_view(published->Ok_0.events@);
            &&& forall|k: int|
                0 <= k < events.len() ==> tells_some_path(#[trigger] events[k], objects, paths)
            &&& forall|ino: u64, j: int| #[trigger]
                has_path(objects, paths, ino, j) ==> is_told(
                    events,
                    objects[ino],
                    (paths[ino]->Ok_0)@[j]@,
                )
            &&& events.len() == paths_from(paths, numbers_in_order(objects.dom()), 0)
            &&& numbered(after.comparisons@, published->Ok_0.comparison_id) matches Some(comparison)
            &&& events_view(comparison.events@) == events
        }),
{
    let objects = checked.index.objects@;
    let inos = numbers_in_order(objects.dom());
    assert(objects.dom().finite());
    lemma_numbers_in_order(objects.dom());
    assert forall|i: int| 0 <= i < inos.len() implies objects.contains_key(#[trigger] inos[i]) by {
        assert(inos.to_set().contains(inos[i]));
    }
    lemma_fresh_told(objects, paths, inos, 0);
    let events = events_view(published->Ok_0.events@);
    assert(fresh_events(objects, paths) == Ok::<Seq<EventView>, Seq<char>>(events));
    assert forall|ino: u64, j: int| #[trigger] has_path(objects, paths, ino, j) implies is_told(
        events,
        objects[ino],
        (paths[ino]->Ok_0)@[j]@,
    ) by {
        assert(inos.to_set().contains(ino));
        let i = choose|i: int| 0 <= i < inos.len() && inos[i] == ino;
        assert(has_path(objects, paths, inos[i], j));
    }
    law_next_number_is_new(before.comparisons@);
    law_row_is_found(
        before.comparisons@,
        after.comparisons@.last(),
        published->Ok_0.comparison_id,
    );
}

/// A cut that was indexed on the one before it tells exactly the events that its
/// manifest makes, and the same are kept for later.
pub proof fn law_indexed_cut_tells_its_events(
    before: Store,
    after: Store,
    reservation: CutReservation,
    lease_owner: [u8; 16],
    snapshot: RecordedSnapshot,
    manifest: ManifestView,
    applied: AppliedDelta,
    base_report: RevisionReport,
    digests: DeltaDigests,
    now_ns: i64,
    published: Result<PublishedCut, ManagerError>,
)
    requires
        publishes_adjacent(
            before,
            after,
            reservation,
            lease_owner,
            snapshot,
            manifest,
            applied,
            base_report,
            digests,
            now_ns,
            published,
        ),
        published is Ok,
    ensures
        ({
            let cut = published->Ok_0;
            &&& cut.watch_id == reservation.watch_id
            &&& cut.sequence == reservation.sequence
            &&& cut.snapshot_id == snapshot.snapshot_id
            &&& events_view(cut.events@) == events_view(applied.events@)
            &&& numbered(after.comparisons@, cut.comparison_id) matches Some(comparison)
            &&& events_view(comparison.events@) == events_view(applied.events@)
            &&& exists|i: int|
                0 <= i < after.cuts@.len() && is_published(#[trigger] after.cuts@[i], cut)
        }),
{
    let (middle, readied) = choose|middle: Store, readied: Result<i64, Seq<char>>| #[trigger]
        readies_base(before, middle, reservation, lease_owner, base_report, readied)
            && match readied {
            Err(fault) => after == middle && (published matches Err(error) && error@ == fault),
            Ok(base_revision_id) => publishes_delta(
                middle,
                after,
                base_revision_id,
                reservation,
                lease_owner,
                snapshot.snapshot_id,
                manifest,
                applied,
                digests,
                now_ns,
                published,
            ),
        };
    law_next_number_is_new(middle.comparisons@);
    law_row_is_found(
        middle.comparisons@,
        after.comparisons@.last(),
        published->Ok_0.comparison_id,
    );
    let picks = cut_at(reservation.watch_id, reservation.sequence);
    let at = first(middle.cuts@, picks)->0;
    lemma_first(middle.cuts@, picks, 0);
    assert(is_published(after.cuts@[at], published->Ok_0));
}

/// Whether the row is that of the published cut.
pub open spec fn is_published(row: WatchCut, cut: PublishedCut) -> bool {
    &&& row.watch_id == cut.watch_id
    &&& row.sequence == cut.sequence
    &&& row.target_snapshot_id == cut.snapshot_id
    &&& row.state == CutState::Ready
    &&& row.comparison_id == Some(cut.comparison_id)
}

proof fn lemma_cut_found(cuts: Seq<WatchCut>, at: int)
    requires
        cuts_distinct(cuts),
        0 <= at < cuts.len(),
    ensures
        first(cuts, cut_at(cuts[at].watch_id, cuts[at].sequence)) == Some(at),
{
    let picks = cut_at(cuts[at].watch_id, cuts[at].sequence);
    lemma_first(cuts, picks, 0);
    assert(picks(cuts[at]));
    let found = first(cuts, picks)->0;
    if found < at {
        assert(!same_place(cuts[found], cuts[at]));
    } else if at < found {
        assert(!same_place(cuts[at], cuts[found]));
    }
}

/// What is replayed over one cut is what that cut told.
pub proof fn law_replay_over_one_cut(
    store: Store,
    watch_id: [u8; 16],
    authorization_id: [u8; 16],
    requester_uid: u32,
    from_snapshot_uuid: [u8; 16],
    to_snapshot_uuid: [u8; 16],
    replayed: HistoricalChanges,
    at: int,
    comparison_id: i64,
)
    requires
        store.well_formed(),
        replays(
            store,
            watch_id,
            authorization_id,
            requester_uid,
            from_snapshot_uuid,
            to_snapshot_uuid,
            Ok(replayed),
        ),
        !replayed.fresh_instance,
        replayed.from_sequence + 1 == replayed.to_sequence,
        0 <= at < store.cuts@.len(),
        store.cuts@[at].watch_id == watch_id,
        store.cuts@[at].sequence == replayed.to_sequence,
        store.cuts@[at].comparison_id == Some(comparison_id),
        numbered(store.comparisons@, comparison_id) is Some,
    ensures
        events_view(replayed.events@) == events_view(
            numbered(store.comparisons@, comparison_id)->0.events@,
        ),
        store.cuts@[at].state == CutState::Ready,
        !store.cuts@[at].fresh_instance,
{
    lemma_cut_found(store.cuts@, at);
    let (from, to) = (replayed.from_sequence, replayed.to_sequence);
    lemma_known_throughout(store, watch_id, from, to);
    assert(picked_at(store.cuts@, replayable(watch_id, from, to), to as int));
    let i = choose|i: int|
        0 <= i < store.cuts@.len() && replayable(watch_id, from, to)(store.cuts@[i]) && (
        #[trigger] store.cuts@[i]).sequence == to;
    lemma_cut_found(store.cuts@, i);
    assert(events_from(store, watch_id, to + 1, to as int) =~= Seq::<EventView>::empty());
    let told = events_view(numbered(store.comparisons@, comparison_id)->0.events@);
    assert(events_from(store, watch_id, to as int, to as int) =~= told);
}

/// Whether the watch has a cut at the sequence whose changes are known: it is ready,
/// not everything in it counts as new, and it was compared.
pub open spec fn known_at(store: Store, watch_id: [u8; 16], sequence: int) -> bool {
    exists|i: int|
        0 <= i < store.cuts@.len() && (#[trigger] store.cuts@[i]).watch_id == watch_id
            && store.cuts@[i].sequence == sequence && store.cuts@[i].state == CutState::Ready
            && !store.cuts@[i].fresh_instance && store.cuts@[i].comparison_id is Some
}

proof fn lemma_known_throughout(store: Store, watch_id: [u8; 16], from: i64, to: i64)
    requires
        store.well_formed(),
        from <= to,
    ensures
        (tally(store.cuts@, replayable(watch_id, from, to)) == to - from) == (forall|s: int|
            from < s <= to ==> #[trigger] known_at(store, watch_id, s)),
        tally(store.cuts@, replayable(watch_id, from, to)) == to - from ==> forall|s: int|
            from < s <= to ==> #[trigger] picked_at(
                store.cuts@,
                replayable(watch_id, from, to),
                s,
            ),
{
    let picks = replayable(watch_id, from, to);
    let cuts = store.cuts@;
    lemma_sequences(cuts, picks, watch_id);
    let found = sequences_of(cuts, picks);
    let range = vstd::set_lib::set_int_range(from + 1, to + 1);
    vstd::set_lib::lemma_int_range(from + 1, to + 1);
    assert forall|s: int| #[trigger] found.contains(s) implies range.contains(s) by {
        assert(picked_at(cuts, picks, s));
    }
    assert forall|s: int| from < s <= to implies #[trigger] known_at(store, watch_id, s)
        == found.contains(s) by {
        if known_at(store, watch_id, s) {
            let i = choose|i: int|
                0 <= i < cuts.len() && (#[trigger] cuts[i]).watch_id == watch_id
                    && cuts[i].sequence == s && cuts[i].state == CutState::Ready
                    && !cuts[i].fresh_instance && cuts[i].comparison_id is Some;
            assert(picks(cuts[i]));
            lemma_sequence_of(cuts, picks, i);
        }
        if found.contains(s) {
            assert(picked_at(cuts, picks, s));
            let i = choose|i: int|
                0 <= i < cuts.len() && picks(cuts[i]) && (#[trigger] cuts[i]).sequence == s;
            assert(cuts[i].watch_id == watch_id);
        }
    }
    assert(found.subset_of(range));
    if found.len() == to - from {
        vstd::set_lib::lemma_subset_equality(found, range);
        assert forall|s: int| from < s <= to implies #[trigger] known_at(store, watch_id, s) by {
            assert(range.contains(s));
        }
        assert forall|s: int| from < s <= to implies #[trigger] picked_at(cuts, picks, s) by {
            assert(range.contains(s));
            assert(found.contains(s));
        }
    }
    if forall|s: int| from < s <= to ==> #[trigger] known_at(store, watch_id, s) {
        assert forall|s: int| range.contains(s) implies found.contains(s) by {
            assert(known_at(store, watch_id, s));
        }
        assert(found =~= range);
    }
}

proof fn lemma_sequence_of(cuts: Seq<WatchCut>, picks: spec_fn(WatchCut) -> bool, i: int)
    requires
        0 <= i < cuts.len(),
        picks(cuts[i]),
    ensures
        sequences_of(cuts, picks).contains(cuts[i].sequence as int),
    decreases cuts.len(),
{
    if i < cuts.len() - 1 {
        assert(cuts.drop_last()[i] == cuts[i]);
        lemma_sequence_of(cuts.drop_last(), picks, i);
    }
}

/// A history is replayed as a whole or not at all: where every cut in it is known
/// and none of it was let go, it is told; and where any is missing, or it begins
/// before what is kept, everything counts as new and nothing is told.
pub proof fn law_replay_is_complete_or_fresh(
    store: Store,
    watch_id: [u8; 16],
    authorization_id: [u8; 16],
    requester_uid: u32,
    from_snapshot_uuid: [u8; 16],
    to_snapshot_uuid: [u8; 16],
    replayed: HistoricalChanges,
)
    requires
        store.well_formed(),
        replays(
            store,
            watch_id,
            authorization_id,
            requester_uid,
            from_snapshot_uuid,
            to_snapshot_uuid,
            Ok(replayed),
        ),
    ensures
        row(store.watches@, watch_id) matches Some(watch) && watch.replay_floor_seq matches Some(
            floor,
        ) && {
            &&& replayed.fresh_instance <==> (replayed.from_sequence < floor || exists|s: int|
                replayed.from_sequence < s <= replayed.to_sequence && !(#[trigger] known_at(
                    store,
                    watch_id,
                    s,
                )))
            &&& replayed.fresh_instance ==> replayed.events@.len() == 0
        },
        replayed.from_sequence <= replayed.to_sequence,
        replayed.watch_id == watch_id,
        replayed.from_snapshot_uuid == from_snapshot_uuid,
        replayed.to_snapshot_uuid == to_snapshot_uuid,
{
    lemma_known_throughout(store, watch_id, replayed.from_sequence, replayed.to_sequence);
    if replayed.fresh_instance {
        assert(events_view(replayed.events@).len() == replayed.events@.len());
    }
}

/// What is replayed over a whole stretch is what is replayed over its first part and
/// then over the rest.
pub proof fn law_replay_adds_up(
    store: Store,
    watch_id: [u8; 16],
    authorization_id: [u8; 16],
    requester_uid: u32,
    from_uuid: [u8; 16],
    between_uuid: [u8; 16],
    to_uuid: [u8; 16],
    first_part: HistoricalChanges,
    second_part: HistoricalChanges,
    whole: HistoricalChanges,
)
    requires
        store.well_formed(),
        replays(
            store,
            watch_id,
            authorization_id,
            requester_uid,
            from_uuid,
            between_uuid,
            Ok(first_part),
        ),
        replays(
            store,
            watch_id,
            authorization_id,
            requester_uid,
            between_uuid,
            to_uuid,
            Ok(second_part),
        ),
        replays(store, watch_id, authorization_id, requester_uid, from_uuid, to_uuid, Ok(whole)),
        !first_part.fresh_instance,
        !second_part.fresh_instance,
    ensures
        whole.from_sequence == first_part.from_sequence,
        first_part.to_sequence == second_part.from_sequence,
        whole.to_sequence == second_part.to_sequence,
        !whole.fresh_instance,
        events_view(whole.events@) == events_view(first_part.events@) + events_view(
            second_part.events@,
        ),
{
    let (from, between, to) = (
        first_part.from_sequence,
        first_part.to_sequence,
        second_part.to_sequence,
    );
    lemma_known_throughout(store, watch_id, from, between);
    lemma_known_throughout(store, watch_id, between, to);
    lemma_known_throughout(store, watch_id, from, to);
    assert forall|s: int| from < s <= to implies #[trigger] known_at(store, watch_id, s) by {
        if s <= between {
            assert(known_at(store, watch_id, s));
        }
    }
    crate::manager::fencing::law_replay_is_a_concatenation(
        store,
        watch_id,
        from + 1,
        between as int,
        to as int,
    );
}

proof fn lemma_placed(store: Store, watch_id: [u8; 16], subvol_uuid: [u8; 16], n: int, i: int)
    requires
        0 <= i < n <= store.cuts@.len(),
        store.cuts@[i].watch_id == watch_id,
    ensures
        numbered(store.snapshots@, store.cuts@[i].target_snapshot_id) matches Some(snapshot)
            && snapshot.subvol_uuid == subvol_uuid ==> {
            let placed = placement_before(store, watch_id, subvol_uuid, n);
            placed == Placement::At(store.cuts@[i].sequence) || placed == Placement::Inconsistent
        },
        store.cuts@[i].sequence > i64::MIN && (numbered(
            store.snapshots@,
            store.cuts@[i].base_snapshot_id,
        ) matches Some(snapshot) && snapshot.subvol_uuid == subvol_uuid) ==> {
            let placed = placement_before(store, watch_id, subvol_uuid, n);
            placed == Placement::At((store.cuts@[i].sequence - 1) as i64) || placed
                == Placement::Inconsistent
        },
    decreases n,
{
    if i < n - 1 {
        lemma_placed(store, watch_id, subvol_uuid, n - 1, i);
    }
}

/// A snapshot is at the sequence of the cut that made it, and just before the cut
/// that it is the base of: from there to there is replayed.
pub proof fn law_replay_runs_between_the_snapshots(
    store: Store,
    watch_id: [u8; 16],
    authorization_id: [u8; 16],
    requester_uid: u32,
    from_snapshot_uuid: [u8; 16],
    to_snapshot_uuid: [u8; 16],
    replayed: HistoricalChanges,
    i: int,
)
    requires
        replays(
            store,
            watch_id,
            authorization_id,
            requester_uid,
            from_snapshot_uuid,
            to_snapshot_uuid,
            Ok(replayed),
        ),
        0 <= i < store.cuts@.len(),
        store.cuts@[i].watch_id == watch_id,
        store.cuts@[i].sequence > i64::MIN,
    ensures
        numbered(store.snapshots@, store.cuts@[i].target_snapshot_id) matches Some(snapshot) ==> {
            &&& snapshot.subvol_uuid == from_snapshot_uuid ==> replayed.from_sequence
                == store.cuts@[i].sequence
            &&& snapshot.subvol_uuid == to_snapshot_uuid ==> replayed.to_sequence
                == store.cuts@[i].sequence
        },
        numbered(store.snapshots@, store.cuts@[i].base_snapshot_id) matches Some(snapshot) ==> {
            &&& snapshot.subvol_uuid == from_snapshot_uuid ==> replayed.from_sequence
                == store.cuts@[i].sequence - 1
            &&& snapshot.subvol_uuid == to_snapshot_uuid ==> replayed.to_sequence
                == store.cuts@[i].sequence - 1
        },
{
    let n = store.cuts@.len() as int;
    assert(crate::manager::history::cuts_of(watch_id)(store.cuts@[i]));
    lemma_placed(store, watch_id, from_snapshot_uuid, n, i);
    lemma_placed(store, watch_id, to_snapshot_uuid, n, i);
}

/// Only who may read a watch is told its history: the watch lives, and the grant is
/// active on it, allows reading and is the user's.
pub proof fn law_only_readers_are_told(
    store: Store,
    watch_id: [u8; 16],
    authorization_id: [u8; 16],
    requester_uid: u32,
    from_snapshot_uuid: [u8; 16],
    to_snapshot_uuid: [u8; 16],
    replayed: Result<HistoricalChanges, ManagerError>,
)
    requires
        replays(
            store,
            watch_id,
            authorization_id,
            requester_uid,
            from_snapshot_uuid,
            to_snapshot_uuid,
            replayed,
        ),
        replayed is Ok,
    ensures
        row(store.watches@, watch_id) matches Some(watch) && (watch.state == WatchState::Active
            || watch.state == WatchState::Blocked),
        row(store.grants@, authorization_id) matches Some(grant) && grant.watch_id == watch_id
            && grant.state == GrantState::Active && grant.permissions & 1 == 1 && grant.principal
            == Principal::Uid(requester_uid as u64),
{
}

/// What a cut told when it was published is replayed over it afterwards, whatever
/// its sequence.
pub proof fn law_published_cut_is_replayed(
    before: Store,
    after: Store,
    reservation: CutReservation,
    lease_owner: [u8; 16],
    snapshot: RecordedSnapshot,
    manifest: ManifestView,
    applied: AppliedDelta,
    base_report: RevisionReport,
    digests: DeltaDigests,
    now_ns: i64,
    published: PublishedCut,
    authorization_id: [u8; 16],
    requester_uid: u32,
    from_snapshot_uuid: [u8; 16],
    to_snapshot_uuid: [u8; 16],
    replayed: HistoricalChanges,
)
    requires
        publishes_adjacent(
            before,
            after,
            reservation,
            lease_owner,
            snapshot,
            manifest,
            applied,
            base_report,
            digests,
            now_ns,
            Ok(published),
        ),
        after.well_formed(),
        replays(
            after,
            reservation.watch_id,
            authorization_id,
            requester_uid,
            from_snapshot_uuid,
            to_snapshot_uuid,
            Ok(replayed),
        ),
        replayed.from_sequence + 1 == replayed.to_sequence,
        replayed.to_sequence == published.sequence,
        !replayed.fresh_instance,
    ensures
        events_view(replayed.events@) == events_view(published.events@),
{
    law_indexed_cut_tells_its_events(
        before,
        after,
        reservation,
        lease_owner,
        snapshot,
        manifest,
        applied,
        base_report,
        digests,
        now_ns,
        Ok(published),
    );
    let i = choose|i: int|
        0 <= i < after.cuts@.len() && is_published(#[trigger] after.cuts@[i], published);
    law_replay_over_one_cut(
        after,
        reservation.watch_id,
        authorization_id,
        requester_uid,
        from_snapshot_uuid,
        to_snapshot_uuid,
        replayed,
        i,
        published.comparison_id,
    );
}

/// Over a cut of which everything is new nothing is replayed: everything counts as
/// new.
pub proof fn law_fresh_cut_is_not_replayed(
    before: Store,
    after: Store,
    reservation: CutReservation,
    lease_owner: [u8; 16],
    snapshot_id: i64,
    snapshot_uuid: [u8; 16],
    checked: CheckedIndex,
    paths: Map<u64, PathLookup>,
    now_ns: i64,
    published: PublishedCut,
    authorization_id: [u8; 16],
    requester_uid: u32,
    from_snapshot_uuid: [u8; 16],
    to_snapshot_uuid: [u8; 16],
    replayed: HistoricalChanges,
)
    requires
        publishes_fresh(
            before,
            after,
            reservation,
            lease_owner,
            snapshot_id,
            snapshot_uuid,
            checked,
            paths,
            now_ns,
            Ok(published),
        ),
        after.well_formed(),
        replays(
            after,
            reservation.watch_id,
            authorization_id,
            requester_uid,
            from_snapshot_uuid,
            to_snapshot_uuid,
            Ok(replayed),
        ),
        replayed.from_sequence < published.sequence <= replayed.to_sequence,
    ensures
        replayed.fresh_instance,
        replayed.events@.len() == 0,
{
    law_replay_is_complete_or_fresh(
        after,
        reservation.watch_id,
        authorization_id,
        requester_uid,
        from_snapshot_uuid,
        to_snapshot_uuid,
        replayed,
    );
    let picks = cut_at(reservation.watch_id, reservation.sequence);
    let at = first(before.cuts@, picks)->0;
    lemma_first(before.cuts@, picks, 0);
    assert(picks(before.cuts@[at]));
    assert(after.cuts@[at].fresh_instance);
    if known_at(after, reservation.watch_id, published.sequence as int) {
        let i = choose|i: int|
            0 <= i < after.cuts@.len() && (#[trigger] after.cuts@[i]).watch_id
                == reservation.watch_id && after.cuts@[i].sequence == published.sequence
                && after.cuts@[i].state == CutState::Ready && !after.cuts@[i].fresh_instance
                && after.cuts@[i].comparison_id is Some;
        if i < at {
            assert(!same_place(after.cuts@[i], after.cuts@[at]));
        } else {
            assert(!same_place(after.cuts@[at], after.cuts@[i]));
        }
    }
}

} // verus!
