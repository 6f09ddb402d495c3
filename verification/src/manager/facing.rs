//! The life of a facade and of its precision journal, and the boundaries that queries
//! start from and end at.

use crate::manager::cutting::lemma_others;
use crate::manager::facade::{
    activates_facade, appends_events, begins_guard, boundary_at, completes_guard, cut_boundary,
    finalizes_boundary, finalizes_seed, finds_watch, gaps_guard, invalidates_facade, newest_before,
    responses, seeded, usable_at,
};
use crate::manager::publish::cut_at;
use crate::manager::rows::{
    Boundary, BoundarySource, CutState, FacadeView, FsmonitorState, Grant, GrantState, GuardJournal,
    QueryState, Store, Watch, WatchState, WorktreeState,
};
use crate::manager::table::{first, lemma_first, lemma_place, numbered, place, row, some};
use crate::manager::types::{
    FacadeActivation, GuardCursor, ManagerError, MutationHint, Principal, ProvedWorktreeSeed,
};
use crate::namespace::ViewBinding;
use vstd::prelude::*;

verus! {

/// Whether the grant lets the user do what is required on an active watch at the path.
pub open spec fn serves(
    store: Store,
    grant: Grant,
    live_path: Seq<u8>,
    uid: u32,
    required: u8,
) -> bool {
    &&& grant.state == GrantState::Active
    &&& grant.principal == Principal::Uid(uid as u64)
    &&& grant.permissions & required == required
    &&& row(store.watches@, grant.watch_id) matches Some(watch)
    &&& watch.state == WatchState::Active
    &&& watch.live_path@ == live_path
}

proof fn lemma_newest(grants: Seq<Grant>, picks: spec_fn(Grant) -> bool, n: int)
    requires
        0 <= n <= grants.len(),
    ensures
        match newest_before(grants, picks, n) {
            Some(at) => 0 <= at < n && picks(grants[at]) && forall|i: int|
                0 <= i < n && picks(#[trigger] grants[i]) ==> grants[i].created_ns
                    <= grants[at].created_ns,
            None => forall|i: int| 0 <= i < n ==> !picks(#[trigger] grants[i]),
        },
    decreases n,
{
    if n > 0 {
        lemma_newest(grants, picks, n - 1);
    }
}

/// The watch that a user finds at a path is an active one there, under a grant of
/// theirs that allows what they require and is newer than every other such grant;
/// where there is no such grant, they find none.
pub proof fn law_found_watch(
    store: Store,
    live_path: Seq<u8>,
    uid: u32,
    required: u8,
    found: Result<Option<([u8; 16], [u8; 16])>, ManagerError>,
)
    requires
        finds_watch(store, live_path, uid, required, found),
    ensures
        found is Err <==> live_path.len() == 0 || required == 0 || required & 0xc0 != 0,
        found matches Ok(Some((watch_id, grant_id))) ==> exists|i: int|
            0 <= i < store.grants@.len() && serves(
                store,
                #[trigger] store.grants@[i],
                live_path,
                uid,
                required,
            ) && store.grants@[i].id == grant_id && store.grants@[i].watch_id == watch_id
                && forall|j: int|
                0 <= j < store.grants@.len() && serves(
                    store,
                    #[trigger] store.grants@[j],
                    live_path,
                    uid,
                    required,
                ) ==> store.grants@[j].created_ns <= store.grants@[i].created_ns,
        found matches Ok(None) ==> forall|j: int|
            0 <= j < store.grants@.len() ==> !serves(
                store,
                #[trigger] store.grants@[j],
                live_path,
                uid,
                required,
            ),
{
    assert(required & !0x3fu8 == required & 0xc0) by (bit_vector);
    let picks = usable_at(store.watches@, live_path, uid, required);
    let n = store.grants@.len() as int;
    lemma_newest(store.grants@, picks, n);
    assert forall|j: int| 0 <= j < n implies serves(
        store,
        #[trigger] store.grants@[j],
        live_path,
        uid,
        required,
    ) == picks(store.grants@[j]) by {}
    if let Ok(Some(_)) = found {
        let at = newest_before(store.grants@, picks, n)->0;
        assert(serves(store, store.grants@[at], live_path, uid, required));
    }
}

/// Whether the facade is up on the watch under the activation.
pub open spec fn up(store: Store, activation: FacadeActivation) -> bool {
    &&& row(store.watches@, activation.watch_id) matches Some(watch)
    &&& watch.state == WatchState::Active
    &&& watch.clock_epoch == activation.clock_epoch
    &&& watch.view matches Some(view)
    &&& view.owner_grant_id == activation.authorization_id
    &&& view.monitor_session_id == activation.monitor_session_id
}

/// Whether the facade of the watch looks through the mount view.
pub open spec fn looks_through(view: FacadeView, binding: ViewBinding) -> bool {
    &&& view.root@ == binding.root_path@
    &&& view.mount_ns_dev == binding.mount_ns_dev
    &&& view.mount_ns_ino == binding.mount_ns_ino
    &&& view.root_dev == binding.process_root_dev
    &&& view.root_ino == binding.process_root_ino
    &&& view.root_mnt_id == binding.process_root_mnt_id
}

/// A facade is put up on an active watch where the view shows the very tree that is
/// watched, under a grant that allows reading and cutting, and only where no other
/// grant has one up. It starts without a journal.
pub proof fn law_facade_is_put_up(
    before: Store,
    after: Store,
    watch_id: [u8; 16],
    grant_id: [u8; 16],
    binding: ViewBinding,
    epoch: [u8; 16],
    activated: Result<FacadeActivation, ManagerError>,
)
    requires
        activates_facade(before, after, watch_id, grant_id, binding, epoch, activated),
    ensures
        activated is Err ==> after == before,
        activated is Ok <==> {
            &&& row(before.watches@, watch_id) matches Some(watch)
            &&& watch.state == WatchState::Active
            &&& watch.live_path@ == binding.root_path@
            &&& watch.live_subvol_uuid == binding.subvol_uuid
            &&& numbered(before.filesystems@, watch.filesystem_id) matches Some(filesystem)
            &&& filesystem.fs_uuid == binding.fs_uuid
            &&& row(before.grants@, grant_id) matches Some(grant)
            &&& grant.watch_id == watch_id
            &&& grant.state == GrantState::Active
            &&& grant.permissions & 3 == 3
            &&& watch.fsmonitor_state == FsmonitorState::Disabled || (
            watch.view matches Some(view) && view.owner_grant_id == grant_id)
        },
        activated matches Ok(activation) ==> {
            &&& activation.watch_id == watch_id
            &&& activation.authorization_id == grant_id
            &&& activation.clock_epoch == epoch
            &&& activation.monitor_session_id == binding.monitor_session_id
            &&& up(after, activation)
            &&& row(after.watches@, watch_id) matches Some(watch)
            &&& looks_through(watch.view->0, binding)
            &&& watch.guard is None
            &&& watch.fsmonitor_state == FsmonitorState::SnapshotOnly
            &&& watch == (Watch {
                clock_epoch: watch.clock_epoch,
                view: watch.view,
                guard: watch.guard,
                fsmonitor_state: watch.fsmonitor_state,
                ..row(before.watches@, watch_id)->0
            })
            &&& forall|id: [u8; 16]|
                id != watch_id ==> #[trigger] row(after.watches@, id) == row(before.watches@, id)
            &&& after == (Store { watches: after.watches, ..before })
        },
{
    lemma_place(before.watches@, watch_id, 0);
    if activated is Ok {
        let at = place(before.watches@, watch_id)->0;
        lemma_others(before.watches@, at, after.watches@[at]);
    }
}

/// A facade is taken down by who put it up, once no response of theirs is out. The
/// watch is disabled under a new epoch, and no query through the facade holds anything
/// any more.
pub proof fn law_facade_is_taken_down(
    before: Store,
    after: Store,
    activation: FacadeActivation,
    epoch: [u8; 16],
    down: Result<(), ManagerError>,
)
    requires
        invalidates_facade(before, after, activation, epoch, down),
    ensures
        down is Err ==> after == before,
        down is Ok <==> up(before, activation) && forall|i: int|
            0 <= i < before.query_leases@.len() && (#[trigger] before.query_leases@[i]).watch_id
                == activation.watch_id && before.query_leases@[i].authorization_id
                == activation.authorization_id && before.query_leases@[i].clock_epoch
                == activation.clock_epoch ==> before.query_leases@[i].state != QueryState::Active,
        down is Ok ==> {
            &&& row(after.watches@, activation.watch_id) == Some(
                Watch {
                    clock_epoch: epoch,
                    view: None,
                    guard: None,
                    fsmonitor_state: FsmonitorState::Disabled,
                    ..row(before.watches@, activation.watch_id)->0
                },
            )
            &&& !up(after, activation)
            &&& after.query_leases@.len() == before.query_leases@.len()
            &&& forall|i: int|
                0 <= i < after.query_leases@.len() ==> {
                    let (old_row, new_row) = (
                        before.query_leases@[i],
                        #[trigger] after.query_leases@[i],
                    );
                    if old_row.state == QueryState::Active && old_row.watch_id
                        == activation.watch_id && old_row.clock_epoch == activation.clock_epoch {
                        new_row.state == QueryState::Released
                    } else {
                        new_row == old_row
                    }
                }
        },
{
    lemma_place(before.watches@, activation.watch_id, 0);
    let out = responses(activation);
    if some(before.query_leases@, out) {
        let i = choose|i: int|
            0 <= i < before.query_leases@.len() && out(#[trigger] before.query_leases@[i]);
        assert(before.query_leases@[i].watch_id == activation.watch_id);
    } else {
        assert forall|i: int|
            0 <= i < before.query_leases@.len() && (#[trigger] before.query_leases@[i]).watch_id
                == activation.watch_id && before.query_leases@[i].authorization_id
                == activation.authorization_id && before.query_leases@[i].clock_epoch
                == activation.clock_epoch implies before.query_leases@[i].state
            != QueryState::Active by {
            assert(!out(before.query_leases@[i]));
        }
    }
    if down is Ok {
        let at = place(before.watches@, activation.watch_id)->0;
        lemma_others(before.watches@, at, after.watches@[at]);
    }
}

/// The journal of the watch, where it is in the state.
pub open spec fn journal_of(
    store: Store,
    activation: FacadeActivation,
    state: FsmonitorState,
) -> Option<GuardJournal> {
    match row(store.watches@, activation.watch_id) {
        Some(watch) => if watch.fsmonitor_state == state {
            watch.guard
        } else {
            None
        },
        None => None,
    }
}

/// Whether a journal of the epoch is kept for the facade: one that is being armed, or
/// one that is complete.
pub open spec fn keeps_journal(
    store: Store,
    activation: FacadeActivation,
    epoch: [u8; 16],
) -> bool {
    &&& up(store, activation)
    &&& ({
        ||| journal_of(store, activation, FsmonitorState::GuardArming) matches Some(journal)
            && journal.epoch == epoch
        ||| journal_of(store, activation, FsmonitorState::GuardActive) matches Some(journal)
            && journal.epoch == epoch
    })
}

/// A journal begins empty, where the facade is up and no journal is kept, or the one
/// that was kept has a gap.
pub proof fn law_journal_begins(
    before: Store,
    after: Store,
    activation: FacadeActivation,
    epoch: [u8; 16],
    begun: Result<GuardCursor, ManagerError>,
)
    requires
        begins_guard(before, after, activation, epoch, begun),
    ensures
        begun is Err ==> after == before,
        begun is Ok <==> up(before, activation) && ({
            let state = row(before.watches@, activation.watch_id)->0.fsmonitor_state;
            state == FsmonitorState::SnapshotOnly || state == FsmonitorState::GuardGapped
        }),
        begun matches Ok(cursor) ==> {
            &&& cursor.epoch == epoch
            &&& cursor.sequence == 0
            &&& up(after, activation)
            &&& journal_of(after, activation, FsmonitorState::GuardArming) == Some(
                GuardJournal { epoch, head_seq: 0, replay_floor_seq: 0 },
            )
            &&& after == (Store { watches: after.watches, ..before })
        },
{
    lemma_place(before.watches@, activation.watch_id, 0);
    if begun is Ok {
        let at = place(before.watches@, activation.watch_id)->0;
        lemma_others(before.watches@, at, after.watches@[at]);
    }
}

/// Events are added to a journal that is kept, each with the next number, as they
/// were seen and when. The head moves to the last of them.
pub proof fn law_journal_takes_events(
    before: Store,
    after: Store,
    activation: FacadeActivation,
    epoch: [u8; 16],
    events: Seq<MutationHint>,
    observed_ns: i64,
    appended: Result<GuardCursor, ManagerError>,
)
    requires
        appends_events(before, after, activation, epoch, events, observed_ns, appended),
    ensures
        appended is Err ==> after == before,
        appended is Ok <==> {
            &&& observed_ns >= 0
            &&& keeps_journal(before, activation, epoch)
            &&& row(before.watches@, activation.watch_id)->0.guard->0.head_seq + events.len()
                <= i64::MAX
        },
        appended matches Ok(cursor) ==> {
            let watch = row(before.watches@, activation.watch_id)->0;
            let count = before.mutation_events@.len();
            &&& cursor.epoch == epoch
            &&& cursor.sequence == watch.guard->0.head_seq + events.len()
            &&& up(after, activation)
            &&& row(after.watches@, activation.watch_id) == Some(
                Watch {
                    guard: Some(
                        GuardJournal {
                            epoch,
                            head_seq: cursor.sequence,
                            replay_floor_seq: watch.guard->0.replay_floor_seq,
                        },
                    ),
                    ..watch
                },
            )
            &&& after.mutation_events@.len() == count + events.len()
            &&& forall|i: int|
                0 <= i < count ==> #[trigger] after.mutation_events@[i]
                    == before.mutation_events@[i]
            &&& forall|i: int|
                count <= i < after.mutation_events@.len() ==> {
                    let event = #[trigger] after.mutation_events@[i];
                    &&& event.watch_id == activation.watch_id
                    &&& event.guard_epoch == epoch
                    &&& event.sequence == watch.guard->0.head_seq + (i - count) + 1
                    &&& event.observed_ns == observed_ns
                    &&& same_told(event.hint, events[i - count])
                }
        },
{
    lemma_place(before.watches@, activation.watch_id, 0);
    if appended is Ok {
        let at = place(before.watches@, activation.watch_id)->0;
        lemma_others(before.watches@, at, after.watches@[at]);
        let count = before.mutation_events@.len() as int;
        assert forall|i: int| 0 <= i < count implies #[trigger] after.mutation_events@[i]
            == before.mutation_events@[i] by {
            assert(after.mutation_events@.take(count)[i] == before.mutation_events@[i]);
        }
        let rest = after.mutation_events@.skip(count);
        assert forall|i: int| count <= i < after.mutation_events@.len() implies {
            let event = #[trigger] after.mutation_events@[i];
            &&& event.watch_id == activation.watch_id
            &&& event.guard_epoch == epoch
            &&& event.sequence == row(before.watches@, activation.watch_id)->0.guard->0.head_seq + (
            i - count) + 1
            &&& event.observed_ns == observed_ns
            &&& same_told(event.hint, events[i - count])
        } by {
            assert(rest[i - count] == after.mutation_events@[i]);
        }
    }
}

/// A journal that is being armed is complete where nothing was added behind the cursor
/// that it is said to be complete up to.
pub proof fn law_journal_is_complete(
    before: Store,
    after: Store,
    activation: FacadeActivation,
    cursor: GuardCursor,
    completed: Result<(), ManagerError>,
)
    requires
        completes_guard(before, after, activation, cursor, completed),
    ensures
        completed is Err ==> after == before,
        completed is Ok <==> up(before, activation) && (journal_of(
            before,
            activation,
            FsmonitorState::GuardArming,
        ) matches Some(journal) && journal.epoch == cursor.epoch && journal.head_seq
            == cursor.sequence),
        completed is Ok ==> {
            &&& up(after, activation)
            &&& journal_of(after, activation, FsmonitorState::GuardActive) == journal_of(
                before,
                activation,
                FsmonitorState::GuardArming,
            )
            &&& after == (Store { watches: after.watches, ..before })
        },
{
    lemma_place(before.watches@, activation.watch_id, 0);
    if completed is Ok {
        let at = place(before.watches@, activation.watch_id)->0;
        lemma_others(before.watches@, at, after.watches@[at]);
    }
}

/// A journal that is kept can be given up, and is not kept any more.
pub proof fn law_journal_is_given_up(
    before: Store,
    after: Store,
    activation: FacadeActivation,
    epoch: [u8; 16],
    gapped: Result<(), ManagerError>,
)
    requires
        gaps_guard(before, after, activation, epoch, gapped),
    ensures
        gapped is Err ==> after == before,
        gapped is Ok <==> keeps_journal(before, activation, epoch),
        gapped is Ok ==> {
            &&& up(after, activation)
            &&& !keeps_journal(after, activation, epoch)
            &&& row(after.watches@, activation.watch_id)->0.fsmonitor_state
                == FsmonitorState::GuardGapped
        },
{
    lemma_place(before.watches@, activation.watch_id, 0);
    if gapped is Ok {
        let at = place(before.watches@, activation.watch_id)->0;
        lemma_others(before.watches@, at, after.watches@[at]);
    }
}

/// From a facade that was put up, a journal can be begun, filled and completed, and the
/// cursor at its end is the one that it is complete up to.
pub proof fn law_journal_goes_all_the_way(
    stores: Seq<Store>,
    watch_id: [u8; 16],
    grant_id: [u8; 16],
    binding: ViewBinding,
    clock_epoch: [u8; 16],
    activated: Result<FacadeActivation, ManagerError>,
    epoch: [u8; 16],
    begun: Result<GuardCursor, ManagerError>,
    events: Seq<MutationHint>,
    observed_ns: i64,
    appended: Result<GuardCursor, ManagerError>,
    completed: Result<(), ManagerError>,
)
    requires
        stores.len() == 5,
        activates_facade(
            stores[0],
            stores[1],
            watch_id,
            grant_id,
            binding,
            clock_epoch,
            activated,
        ),
        activated is Ok,
        begins_guard(stores[1], stores[2], activated->Ok_0, epoch, begun),
        observed_ns >= 0,
        events.len() <= i64::MAX,
        appends_events(
            stores[2],
            stores[3],
            activated->Ok_0,
            epoch,
            events,
            observed_ns,
            appended,
        ),
        appended is Ok ==> completes_guard(
            stores[3],
            stores[4],
            activated->Ok_0,
            appended->Ok_0,
            completed,
        ),
    ensures
        begun is Ok,
        appended matches Ok(cursor) && cursor.epoch == epoch && cursor.sequence == events.len(),
        completed is Ok,
        journal_of(
            stores[4],
            activated->Ok_0,
            FsmonitorState::GuardActive,
        ) matches Some(journal) && journal.epoch == epoch && journal.head_seq == events.len(),
{
    let activation = activated->Ok_0;
    law_facade_is_put_up(
        stores[0],
        stores[1],
        watch_id,
        grant_id,
        binding,
        clock_epoch,
        activated,
    );
    law_journal_begins(stores[1], stores[2], activation, epoch, begun);
    law_journal_takes_events(
        stores[2],
        stores[3],
        activation,
        epoch,
        events,
        observed_ns,
        appended,
    );
    law_journal_is_complete(stores[3], stores[4], activation, appended->Ok_0, completed);
}

/// Whether two hints say the same.
pub open spec fn same_told(left: MutationHint, right: MutationHint) -> bool {
    match (left, right) {
        (MutationHint::Path(a), MutationHint::Path(b)) => a@ == b@,
        (MutationHint::DirectoryPrefix(a), MutationHint::DirectoryPrefix(b)) => a@ == b@,
        (
            MutationHint::Object { path: a, ino: m, generation: v },
            MutationHint::Object { path: b, ino: n, generation: w },
        ) => a@ == b@ && m == n && v == w,
        (MutationHint::FullInvalidation, MutationHint::FullInvalidation) => true,
        _ => false,
    }
}

/// A cut becomes a boundary of a facade that is up, where the cut is ready and done.
/// The boundary leads to the snapshot of the cut, and has a cursor exactly where one was
/// given at which the journal was complete.
pub proof fn law_cut_becomes_a_boundary(
    before: Store,
    after: Store,
    activation: FacadeActivation,
    binding: ViewBinding,
    sequence: i64,
    guard: Option<GuardCursor>,
    finalized: Result<(), ManagerError>,
)
    requires
        finalizes_boundary(before, after, activation, binding, sequence, guard, finalized),
    ensures
        finalized is Err ==> after == before,
        finalized is Ok ==> {
            let watch = row(before.watches@, activation.watch_id)->0;
            &&& sequence > 0
            &&& up(before, activation)
            &&& watch.fsmonitor_state != FsmonitorState::Disabled
            &&& looks_through(watch.view->0, binding)
            &&& activation.monitor_session_id == binding.monitor_session_id
            &&& row(before.grants@, activation.authorization_id) matches Some(grant)
            &&& grant.watch_id == activation.watch_id
            &&& grant.state == GrantState::Active
            &&& exists|i: int, j: int|
                #![trigger before.cuts@[i], after.boundaries@[j]]
                0 <= i < before.cuts@.len() && 0 <= j < after.boundaries@.len()
                    && before.cuts@[i].watch_id == activation.watch_id && before.cuts@[i].sequence
                    == sequence && before.cuts@[i].state == CutState::Ready && leads_from(
                    after.boundaries@[j],
                    activation,
                    sequence,
                    before.cuts@[i].target_snapshot_id,
                    before.cuts@[i].operation_id,
                )
            &&& after.boundaries@ == before.boundaries@ || (after.boundaries@.len()
                == before.boundaries@.len() + 1 && after.boundaries@.last().guard == (
            if watch.fsmonitor_state == FsmonitorState::GuardActive && (
            guard matches Some(cursor) && watch.guard matches Some(journal) && journal.epoch
                == cursor.epoch && journal.head_seq == cursor.sequence) {
                guard
            } else {
                None
            }) && forall|i: int|
                0 <= i < before.boundaries@.len() ==> #[trigger] after.boundaries@[i]
                    == before.boundaries@[i])
        },
{
    if finalized is Ok {
        lemma_first(before.cuts@, cut_at(activation.watch_id, sequence), 0);
        let i = first(before.cuts@, cut_at(activation.watch_id, sequence))->0;
        let there = cut_boundary(activation.watch_id, sequence);
        lemma_first(before.boundaries@, there, 0);
        let j = match first(before.boundaries@, there) {
            Some(j) => j,
            None => after.boundaries@.len() - 1,
        };
        assert(leads_from(
            after.boundaries@[j],
            activation,
            sequence,
            before.cuts@[i].target_snapshot_id,
            before.cuts@[i].operation_id,
        ));
    }
}

/// Whether the boundary of the facade at the sequence leads to the snapshot, by the
/// operation that made the cut.
pub open spec fn leads_from(
    boundary: Boundary,
    activation: FacadeActivation,
    sequence: i64,
    snapshot_id: i64,
    operation_id: [u8; 16],
) -> bool {
    &&& boundary.watch_id == activation.watch_id
    &&& boundary.cut_sequence == sequence
    &&& boundary.target_snapshot_id == snapshot_id
    &&& boundary.source == BoundarySource::Cut(operation_id)
    &&& boundary.clock_epoch == activation.clock_epoch
}

/// The seed of a worktree becomes the boundary that its watch starts from, where nothing
/// was cut of it yet, and leads to the snapshot that the worktree was made of.
pub proof fn law_seed_becomes_a_boundary(
    before: Store,
    after: Store,
    activation: FacadeActivation,
    binding: ViewBinding,
    finalized: Result<ProvedWorktreeSeed, ManagerError>,
)
    requires
        finalizes_seed(before, after, activation, binding, finalized),
    ensures
        finalized is Err ==> after == before,
        finalized matches Ok(seed) ==> {
            let watch = row(before.watches@, activation.watch_id)->0;
            let added = after.boundaries@.last();
            &&& up(before, activation)
            &&& looks_through(watch.view->0, binding)
            &&& activation.monitor_session_id == binding.monitor_session_id
            &&& watch.indexed_seq == Some(0i64)
            &&& watch.last_cut_seq == Some(0i64)
            &&& watch.indexed_revision_id matches Some(revision_id)
            &&& numbered(before.revisions@, revision_id) matches Some(revision)
            &&& watch.last_cut_snapshot_id == Some(revision.snapshot_id)
            &&& numbered(before.snapshots@, revision.snapshot_id) matches Some(snapshot)
            &&& seed.snapshot_uuid == snapshot.subvol_uuid
            &&& exists|i: int|
                0 <= i < before.worktrees@.len() && (#[trigger] before.worktrees@[i]).id
                    == seed.worktree_id && before.worktrees@[i].watch_id == Some(watch.id)
                    && before.worktrees@[i].state == WorktreeState::Present
                    && before.worktrees@[i].seed_revision_id == revision_id
            &&& forall|i: int|
                0 <= i < before.boundaries@.len() && (#[trigger] before.boundaries@[i]).watch_id
                    == activation.watch_id ==> before.boundaries@[i].cut_sequence != 0
            &&& after.boundaries@ == before.boundaries@.push(added)
            &&& added.watch_id == activation.watch_id
            &&& added.cut_sequence == 0
            &&& added.target_snapshot_id == snapshot.id
            &&& added.source == BoundarySource::ProvedWorktreeSeed(seed.worktree_id)
            &&& added.clock_epoch == activation.clock_epoch
            &&& added.guard is None
        },
{
    if let Ok(seed) = finalized {
        let watch = row(before.watches@, activation.watch_id)->0;
        let revision_id = watch.indexed_revision_id->0;
        lemma_first(before.worktrees@, seeded(watch.id, revision_id), 0);
        let at = first(before.worktrees@, seeded(watch.id, revision_id))->0;
        assert(before.worktrees@[at].id == seed.worktree_id);
        let there = boundary_at(activation.watch_id, 0);
        assert forall|i: int|
            0 <= i < before.boundaries@.len() && (#[trigger] before.boundaries@[i]).watch_id
                == activation.watch_id implies before.boundaries@[i].cut_sequence != 0 by {
            assert(!there(before.boundaries@[i]));
        }
        assert(after.boundaries@ =~= before.boundaries@.push(after.boundaries@.last()));
    }
}

} // verus!
