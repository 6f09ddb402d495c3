//! Facades: the mount view through which a client looks at a watch, and the
//! precision journal that may come with it.

use crate::digest::{drawn, random_id};
use crate::manager::cuts::{filesystem_uuid, CUT_PERMISSIONS};
use crate::manager::publish::{cut_at, find_cut};
use crate::manager::queries::{
    release_queries, released, revision_pins_of, comparison_pins_of, QueryChoice,
};
use crate::manager::rows::{
    find_active_grant, grant_active, grant_allows, is_allowed, none_changed, Boundary,
    BoundarySource, CutState, FacadeView, FsmonitorState, Grant, GrantState, GuardJournal,
    MutationEvent, Operation, OperationKind, OperationState, QueryLease, QueryState, Snapshot,
    Store, Watch, WatchCut, WatchState, Worktree, WorktreeState,
};
use crate::manager::table::{
    any, changing, find, find_first, find_number, first, numbered, place, removing, row, some,
};
use crate::manager::types::{
    holds, row_count_text, same_hint, FacadeActivation, GuardCursor, ManagerError, MutationHint,
    Principal, ProvedWorktreeSeed, PERMISSION_MASK,
};
use crate::namespace::ViewBinding;
use crate::text::{copy_bytes, same_array, same_bytes};
use vstd::prelude::*;

verus! {

/// The active grants of a user that allow what is required on an active watch
/// at the path.
pub open spec fn usable_at(
    watches: Seq<Watch>,
    live_path: Seq<u8>,
    uid: u32,
    required: u8,
) -> spec_fn(Grant) -> bool {
    |grant: Grant|
        {
            &&& grant.state == GrantState::Active
            &&& grant.principal == Principal::Uid(uid as u64)
            &&& grant.permissions & required == required
            &&& row(watches, grant.watch_id) matches Some(watch)
            &&& watch.live_path@ == live_path
            &&& watch.state == WatchState::Active
        }
}

/// The newest of the first `n` grants that `picks` picks.
pub open spec fn newest_before(grants: Seq<Grant>, picks: spec_fn(Grant) -> bool, n: int) -> Option<
    int,
>
    decreases n,
{
    if n <= 0 {
        None
    } else {
        let earlier = newest_before(grants, picks, n - 1);
        if picks(grants[n - 1]) && (earlier is None || grants[n - 1].created_ns
            > grants[earlier->0].created_ns) {
            Some(n - 1)
        } else {
            earlier
        }
    }
}

/// The newest grant that `picks` picks.
pub open spec fn newest(grants: Seq<Grant>, picks: spec_fn(Grant) -> bool) -> Option<int> {
    newest_before(grants, picks, grants.len() as int)
}

/// Whether the watch is active and its facade is the one that was activated.
pub open spec fn facade_is(watch: Watch, activation: FacadeActivation) -> bool {
    &&& watch.state == WatchState::Active
    &&& watch.clock_epoch == activation.clock_epoch
    &&& watch.view matches Some(view)
    &&& view.owner_grant_id == activation.authorization_id
    &&& view.monitor_session_id == activation.monitor_session_id
}

pub fn is_facade(watch: &Watch, activation: &FacadeActivation) -> (is_facade: bool)
    ensures
        is_facade == facade_is(*watch, *activation),
{
    match &watch.view {
        Some(view) => watch.state == WatchState::Active && same_array(
            &watch.clock_epoch,
            &activation.clock_epoch,
        ) && same_array(&view.owner_grant_id, &activation.authorization_id) && same_array(
            &view.monitor_session_id,
            &activation.monitor_session_id,
        ),
        None => false,
    }
}

/// Whether the facade of a watch looks through the mount view.
pub open spec fn views(watch: Watch, binding: ViewBinding) -> bool {
    &&& watch.view matches Some(view)
    &&& view.root@ == binding.root_path@
    &&& view.mount_ns_dev == binding.mount_ns_dev
    &&& view.mount_ns_ino == binding.mount_ns_ino
    &&& view.root_dev == binding.process_root_dev
    &&& view.root_ino == binding.process_root_ino
    &&& view.root_mnt_id == binding.process_root_mnt_id
}

fn has_view(watch: &Watch, binding: &ViewBinding) -> (has_view: bool)
    ensures
        has_view == views(*watch, *binding),
{
    match &watch.view {
        Some(view) => same_bytes(&view.root, &binding.root_path) && view.mount_ns_dev
            == binding.mount_ns_dev && view.mount_ns_ino == binding.mount_ns_ino && view.root_dev
            == binding.process_root_dev && view.root_ino == binding.process_root_ino
            && view.root_mnt_id == binding.process_root_mnt_id,
        None => false,
    }
}

/// The watch without a facade.
pub open spec fn unbound(watch: Watch, clock_epoch: [u8; 16]) -> Watch {
    Watch {
        clock_epoch,
        view: None,
        guard: None,
        fsmonitor_state: FsmonitorState::Disabled,
        ..watch
    }
}

/// Why a facade cannot be activated.
pub open spec fn activate_fault(
    store: Store,
    watch_id: [u8; 16],
    authorization_id: [u8; 16],
    binding: ViewBinding,
) -> Option<Seq<char>> {
    let mismatch = Some("facade binding does not match an authorized active watch"@);
    match row(store.watches@, watch_id) {
        Some(watch) => match filesystem_uuid(store.filesystems@, watch.filesystem_id) {
            Ok(fs_uuid) => if watch.state != WatchState::Active || !grant_allows(
                store.grants@,
                watch_id,
                authorization_id,
                CUT_PERMISSIONS,
            ) || watch.live_path@ != binding.root_path@ || watch.live_subvol_uuid
                != binding.subvol_uuid || fs_uuid != binding.fs_uuid {
                mismatch
            } else if watch.fsmonitor_state == FsmonitorState::Disabled || (
            watch.view matches Some(view) && view.owner_grant_id == authorization_id) {
                None
            } else {
                Some(row_count_text("activate snapshot facade"@, 0))
            },
            Err(_) => mismatch,
        },
        None => mismatch,
    }
}

/// What activating a facade under the epoch does.
pub open spec fn activates_facade(
    before: Store,
    after: Store,
    watch_id: [u8; 16],
    authorization_id: [u8; 16],
    binding: ViewBinding,
    clock_epoch: [u8; 16],
    activated: Result<FacadeActivation, ManagerError>,
) -> bool {
    match activate_fault(before, watch_id, authorization_id, binding) {
        Some(fault) => {
            &&& after == before
            &&& activated matches Err(error)
            &&& error@ == fault
        },
        None => {
            let at = place(before.watches@, watch_id)->0;
            let watch = after.watches@[at];
            &&& after == (Store { watches: after.watches, ..before })
            &&& after.watches@ == before.watches@.update(at, watch)
            &&& watch == (Watch {
                clock_epoch,
                view: watch.view,
                guard: None,
                fsmonitor_state: FsmonitorState::SnapshotOnly,
                ..before.watches@[at]
            })
            &&& views(watch, binding)
            &&& watch.view->0.owner_grant_id == authorization_id
            &&& watch.view->0.monitor_session_id == binding.monitor_session_id
            &&& activated == Ok::<FacadeActivation, ManagerError>(
                FacadeActivation {
                    watch_id,
                    authorization_id,
                    clock_epoch,
                    monitor_session_id: binding.monitor_session_id,
                },
            )
        },
    }
}

/// The active leases that a client of the facade holds.
pub open spec fn responses(activation: FacadeActivation) -> spec_fn(QueryLease) -> bool {
    |lease: QueryLease|
        lease.watch_id == activation.watch_id && lease.authorization_id
            == activation.authorization_id && lease.clock_epoch == activation.clock_epoch
            && lease.state == QueryState::Active
}

/// Why a facade cannot be taken down.
pub open spec fn invalidate_fault(store: Store, activation: FacadeActivation) -> Option<
    Seq<char>,
> {
    if some(store.query_leases@, responses(activation)) {
        Some("snapshot facade has a response lease which must drain before invalidation"@)
    } else if row(store.watches@, activation.watch_id) matches Some(watch) && facade_is(
        watch,
        activation,
    ) {
        None
    } else {
        Some(row_count_text("invalidate snapshot facade"@, 0))
    }
}

/// What taking a facade down under a replacement epoch does.
pub open spec fn invalidates_facade(
    before: Store,
    after: Store,
    activation: FacadeActivation,
    epoch: [u8; 16],
    invalidated: Result<(), ManagerError>,
) -> bool {
    match invalidate_fault(before, activation) {
        Some(fault) => {
            &&& after == before
            &&& invalidated matches Err(error)
            &&& error@ == fault
        },
        None => {
            let at = place(before.watches@, activation.watch_id)->0;
            let choice = QueryChoice::Facade(activation.watch_id, activation.clock_epoch);
            &&& invalidated is Ok
            &&& after == (Store {
                watches: after.watches,
                query_leases: after.query_leases,
                revision_pins: after.revision_pins,
                comparison_pins: after.comparison_pins,
                ..before
            })
            &&& after.watches@ == before.watches@.update(at, unbound(before.watches@[at], epoch))
            &&& after.query_leases@ == changing(before.query_leases@, released(choice))
            &&& after.revision_pins@ == removing(
                before.revision_pins@,
                revision_pins_of(before.query_leases@, choice),
            )
            &&& after.comparison_pins@ == removing(
                before.comparison_pins@,
                comparison_pins_of(before.query_leases@, choice),
            )
        },
    }
}

/// Whether a new precision journal can be begun.
pub open spec fn guard_ready(store: Store, activation: FacadeActivation) -> bool {
    &&& row(store.watches@, activation.watch_id) matches Some(watch)
    &&& facade_is(watch, activation)
    &&& watch.fsmonitor_state == FsmonitorState::SnapshotOnly || watch.fsmonitor_state
        == FsmonitorState::GuardGapped
}

/// What beginning a precision journal with the epoch does.
pub open spec fn begins_guard(
    before: Store,
    after: Store,
    activation: FacadeActivation,
    epoch: [u8; 16],
    begun: Result<GuardCursor, ManagerError>,
) -> bool {
    if guard_ready(before, activation) {
        let at = place(before.watches@, activation.watch_id)->0;
        &&& after == (Store { watches: after.watches, ..before })
        &&& after.watches@ == before.watches@.update(
            at,
            Watch {
                guard: Some(GuardJournal { epoch, head_seq: 0, replay_floor_seq: 0 }),
                fsmonitor_state: FsmonitorState::GuardArming,
                ..before.watches@[at]
            },
        )
        &&& begun == Ok::<GuardCursor, ManagerError>(GuardCursor { epoch, sequence: 0 })
    } else {
        &&& after == before
        &&& begun matches Err(error)
        &&& error@ == row_count_text("begin precision guard"@, 0)
    }
}

/// Whether the precision journal with the epoch still runs.
pub open spec fn guard_runs(store: Store, activation: FacadeActivation, epoch: [u8; 16]) -> bool {
    &&& row(store.watches@, activation.watch_id) matches Some(watch)
    &&& facade_is(watch, activation)
    &&& watch.guard matches Some(guard)
    &&& guard.epoch == epoch
    &&& watch.fsmonitor_state == FsmonitorState::GuardArming || watch.fsmonitor_state
        == FsmonitorState::GuardActive
}

/// Why events cannot be added to a precision journal.
pub open spec fn append_fault(
    store: Store,
    activation: FacadeActivation,
    epoch: [u8; 16],
    number: nat,
    observed_ns: i64,
) -> Option<Seq<char>> {
    if observed_ns < 0 {
        Some("invalid mutation observation time"@)
    } else if !guard_runs(store, activation, epoch) {
        Some("precision guard is stale or gapped"@)
    } else if row(store.watches@, activation.watch_id)->0.guard->0.head_seq + number > i64::MAX {
        Some("precision sequence overflow"@)
    } else {
        None
    }
}

/// Whether the rows are the hints, numbered from behind `head`.
pub open spec fn journal_rows(
    rows: Seq<MutationEvent>,
    hints: Seq<MutationHint>,
    watch_id: [u8; 16],
    epoch: [u8; 16],
    head: i64,
    observed_ns: i64,
) -> bool {
    &&& rows.len() == hints.len()
    &&& forall|i: int|
        0 <= i < rows.len() ==> {
            let event = #[trigger] rows[i];
            &&& event.watch_id == watch_id
            &&& event.guard_epoch == epoch
            &&& event.sequence == head + 1 + i
            &&& same_hint(event.hint, hints[i])
            &&& event.observed_ns == observed_ns
        }
}

/// Whether a certified cursor stands for a cut: the journal was complete and
/// nothing came behind the cursor.
pub open spec fn certified(watch: Watch, guard: Option<GuardCursor>) -> Option<GuardCursor> {
    match (guard, watch.guard) {
        (Some(cursor), Some(journal)) => if watch.fsmonitor_state == FsmonitorState::GuardActive
            && journal.epoch == cursor.epoch && journal.head_seq == cursor.sequence {
            Some(cursor)
        } else {
            None
        },
        _ => None,
    }
}

/// The boundary that a cut of the watch established at the sequence.
pub open spec fn cut_boundary(watch_id: [u8; 16], sequence: i64) -> spec_fn(Boundary) -> bool {
    |boundary: Boundary|
        boundary.watch_id == watch_id && boundary.cut_sequence == sequence && (
        boundary.source is Cut)
}

/// Why a cut cannot become a boundary.
pub open spec fn boundary_fault(
    store: Store,
    activation: FacadeActivation,
    binding: ViewBinding,
    sequence: i64,
) -> Option<Seq<char>> {
    let stale = Some("cut boundary binding or authorization is stale"@);
    if sequence <= 0 || activation.monitor_session_id != binding.monitor_session_id || (forall|
        i: int,
    |
        0 <= i < 16 ==> #[trigger] activation.watch_id[i] == 0) {
        Some("invalid facade cut boundary"@)
    } else {
        match row(store.watches@, activation.watch_id) {
            None => stale,
            Some(watch) => match first(store.cuts@, cut_at(activation.watch_id, sequence)) {
                None => stale,
                Some(cut_place) => {
                    let cut = store.cuts@[cut_place];
                    if !facade_is(watch, activation) || watch.fsmonitor_state
                        == FsmonitorState::Disabled || !views(watch, binding) || !grant_active(
                        store.grants@,
                        activation.watch_id,
                        activation.authorization_id,
                    ) || cut.state != CutState::Ready {
                        stale
                    } else {
                        match first(store.boundaries@, cut_boundary(activation.watch_id, sequence)) {
                            Some(at) => {
                                let there = store.boundaries@[at];
                                if there.target_snapshot_id != cut.target_snapshot_id
                                    || there.source != BoundarySource::Cut(cut.operation_id)
                                    || there.clock_epoch != activation.clock_epoch {
                                    Some(
                                        "existing cut boundary conflicts with the current publication"@,
                                    )
                                } else {
                                    None
                                }
                            },
                            None => if row(
                                store.operations@,
                                cut.operation_id,
                            ) matches Some(operation) && operation.kind == OperationKind::Cut
                                && operation.state == OperationState::Done {
                                None
                            } else {
                                Some(row_count_text("record cut precision cursor"@, 0))
                            },
                        }
                    }
                },
            },
        }
    }
}

/// The present worktrees of a watch that were seeded from the revision.
pub open spec fn seeded(watch_id: [u8; 16], revision_id: i64) -> spec_fn(Worktree) -> bool {
    |worktree: Worktree|
        worktree.watch_id == Some(watch_id) && worktree.state == WorktreeState::Present
            && worktree.seed_revision_id == revision_id
}

/// The boundary of the watch at the sequence.
pub open spec fn boundary_at(watch_id: [u8; 16], sequence: i64) -> spec_fn(Boundary) -> bool {
    |boundary: Boundary| boundary.watch_id == watch_id && boundary.cut_sequence == sequence
}

/// The worktree that a watch was seeded as and its snapshot: nothing was cut
/// from it yet.
pub open spec fn proved_seed(store: Store, watch: Watch) -> Option<(Worktree, Snapshot)> {
    match watch.indexed_revision_id {
        None => None,
        Some(revision_id) => match numbered(store.revisions@, revision_id) {
            None => None,
            Some(revision) => match numbered(store.snapshots@, revision.snapshot_id) {
                None => None,
                Some(snapshot) => match first(store.worktrees@, seeded(watch.id, revision_id)) {
                    None => None,
                    Some(at) => if watch.indexed_seq == Some(0i64) && watch.last_cut_seq == Some(
                        0i64,
                    ) && watch.last_cut_snapshot_id == Some(revision.snapshot_id) {
                        Some((store.worktrees@[at], snapshot))
                    } else {
                        None
                    },
                },
            },
        },
    }
}

/// Why a worktree's seed cannot become a boundary.
pub open spec fn seed_fault(
    store: Store,
    activation: FacadeActivation,
    binding: ViewBinding,
) -> Option<Seq<char>> {
    let stale = Some("proved Worktree seed binding or authorization is stale"@);
    if activation.monitor_session_id != binding.monitor_session_id {
        Some("proved Worktree monitor session is stale"@)
    } else {
        match row(store.watches@, activation.watch_id) {
            None => stale,
            Some(watch) => if !facade_is(watch, activation) || !views(watch, binding)
                || !grant_active(
                store.grants@,
                activation.watch_id,
                activation.authorization_id,
            ) || proved_seed(store, watch) is None {
                stale
            } else if some(store.boundaries@, boundary_at(activation.watch_id, 0)) {
                Some(
                    "UNIQUE constraint failed: fsmonitor_boundaries.watch_id, fsmonitor_boundaries.cut_sequence"@,
                )
            } else {
                None
            },
        }
    }
}

fn is_zero(id: &[u8; 16]) -> (zero: bool)
    ensures
        zero == forall|i: int| 0 <= i < 16 ==> #[trigger] id[i] == 0,
{
    let mut at: usize = 0;
    while at < 16
        invariant
            at <= 16,
            forall|i: int| 0 <= i < at ==> #[trigger] id[i] == 0,
        decreases 16 - at,
    {
        if id[at] != 0 {
            return false;
        }
        at += 1;
    }
    true
}

/// Finds the boundary of the watch at the sequence.
pub fn find_boundary(boundaries: &Vec<Boundary>, watch_id: &[u8; 16], sequence: i64) -> (at: Option<
    usize,
>)
    ensures
        match at {
            Some(at) => first(boundaries@, boundary_at(*watch_id, sequence)) == Some(at as int)
                && at < boundaries@.len() && some(boundaries@, boundary_at(*watch_id, sequence))
                && boundary_at(*watch_id, sequence)(boundaries@[at as int]),
            None => first(boundaries@, boundary_at(*watch_id, sequence)) is None && !some(
                boundaries@,
                boundary_at(*watch_id, sequence),
            ),
        },
{
    let test = |boundary: &Boundary| -> (picked: bool)
        ensures
            picked == boundary_at(*watch_id, sequence)(*boundary),
        { same_array(&boundary.watch_id, watch_id) && boundary.cut_sequence == sequence };
    find_first(boundaries, test, Ghost(boundary_at(*watch_id, sequence)))
}

/// What [`Store::append_precision_events`] does.
pub open spec fn appends_events(
    before: Store,
    after: Store,
    activation: FacadeActivation,
    epoch: [u8; 16],
    events: Seq<MutationHint>,
    observed_ns: i64,
    appended: Result<GuardCursor, ManagerError>,
) -> bool {
    match append_fault(before, activation, epoch, events.len(), observed_ns) {
        Some(fault) => {
            &&& after == before
            &&& appended matches Err(error)
            &&& error@ == fault
        },
        None => {
            let at = place(before.watches@, activation.watch_id)->0;
            let watch = before.watches@[at];
            let head = watch.guard->0.head_seq;
            let sequence = (head + events.len()) as i64;
            let count = before.mutation_events@.len() as int;
            &&& after == (Store {
                watches: after.watches,
                mutation_events: after.mutation_events,
                ..before
            })
            &&& after.watches@ =~= before.watches@.update(
                at,
                Watch {
                    guard: Some(GuardJournal { head_seq: sequence, ..watch.guard->0 }),
                    ..watch
                },
            )
            &&& after.mutation_events@.len() == count + events.len()
            &&& after.mutation_events@.take(count) =~= before.mutation_events@
            &&& journal_rows(
                after.mutation_events@.skip(count),
                events,
                activation.watch_id,
                epoch,
                head,
                observed_ns,
            )
            &&& appended == Ok::<GuardCursor, ManagerError>(
                GuardCursor { epoch, sequence },
            )
        },
    }
}

/// What [`Store::gap_precision_guard`] does.
pub open spec fn gaps_guard(
    before: Store,
    after: Store,
    activation: FacadeActivation,
    epoch: [u8; 16],
    gapped: Result<(), ManagerError>,
) -> bool {
    let at = place(before.watches@, activation.watch_id)->0;
    let watch = before.watches@[at];
    if guard_runs(before, activation, epoch) {
        &&& gapped is Ok
        &&& after == (Store { watches: after.watches, ..before })
        &&& after.watches@ =~= before.watches@.update(
            at,
            Watch { fsmonitor_state: FsmonitorState::GuardGapped, ..watch },
        )
    } else {
        &&& after == before
        &&& gapped matches Err(error)
        &&& error@ == row_count_text("gap precision guard"@, 0)
    }
}

/// What [`Store::finalize_proved_worktree_seed`] does.
pub open spec fn finalizes_seed(
    before: Store,
    after: Store,
    activation: FacadeActivation,
    binding: ViewBinding,
    finalized: Result<ProvedWorktreeSeed, ManagerError>,
) -> bool {
    match seed_fault(before, activation, binding) {
        Some(fault) => {
            &&& after == before
            &&& finalized matches Err(error)
            &&& error@ == fault
        },
        None => {
            let watch = row(before.watches@, activation.watch_id)->0;
            let (worktree, snapshot) = proved_seed(before, watch)->0;
            &&& after == (Store {
                boundaries: after.boundaries,
                ..before
            })
            &&& after.boundaries@ =~= before.boundaries@.push(
                Boundary {
                    watch_id: activation.watch_id,
                    cut_sequence: 0,
                    target_snapshot_id: snapshot.id,
                    source: BoundarySource::ProvedWorktreeSeed(worktree.id),
                    clock_epoch: activation.clock_epoch,
                    guard: None,
                },
            )
            &&& finalized == Ok::<ProvedWorktreeSeed, ManagerError>(
                ProvedWorktreeSeed {
                    worktree_id: worktree.id,
                    snapshot_uuid: snapshot.subvol_uuid,
                },
            )
        },
    }
}

/// What [`Store::complete_precision_guard`] does.
pub open spec fn completes_guard(
    before: Store,
    after: Store,
    activation: FacadeActivation,
    cursor: GuardCursor,
    completed: Result<(), ManagerError>,
) -> bool {
    let at = place(before.watches@, activation.watch_id)->0;
    let watch = before.watches@[at];
    if guard_runs(before, activation, cursor.epoch) && watch.fsmonitor_state
        == FsmonitorState::GuardArming && watch.guard->0.head_seq == cursor.sequence {
        &&& completed is Ok
        &&& after == (Store { watches: after.watches, ..before })
        &&& after.watches@ =~= before.watches@.update(
            at,
            Watch { fsmonitor_state: FsmonitorState::GuardActive, ..watch },
        )
    } else {
        &&& after == before
        &&& completed matches Err(error)
        &&& error@ == row_count_text("complete precision guard"@, 0)
    }
}

/// What [`Store::finalize_cut_boundary`] does.
pub open spec fn finalizes_boundary(
    before: Store,
    after: Store,
    activation: FacadeActivation,
    binding: ViewBinding,
    sequence: i64,
    guard: Option<GuardCursor>,
    finalized: Result<(), ManagerError>,
) -> bool {
    match boundary_fault(before, activation, binding, sequence) {
        Some(fault) => {
            &&& after == before
            &&& finalized matches Err(error)
            &&& error@ == fault
        },
        None => {
            let watch = row(before.watches@, activation.watch_id)->0;
            let cut = before.cuts@[first(
                before.cuts@,
                cut_at(activation.watch_id, sequence),
            )->0];
            let at = place(before.operations@, cut.operation_id)->0;
            &&& finalized is Ok
            &&& if first(
                before.boundaries@,
                cut_boundary(activation.watch_id, sequence),
            ) is Some {
                after == before
            } else {
                &&& after == (Store {
                    operations: after.operations,
                    boundaries: after.boundaries,
                    ..before
                })
                &&& after.operations@ =~= before.operations@.update(
                    at,
                    Operation {
                        guard: certified(watch, guard),
                        ..before.operations@[at]
                    },
                )
                &&& after.boundaries@ =~= before.boundaries@.push(
                    Boundary {
                        watch_id: activation.watch_id,
                        cut_sequence: sequence,
                        target_snapshot_id: cut.target_snapshot_id,
                        source: BoundarySource::Cut(cut.operation_id),
                        clock_epoch: activation.clock_epoch,
                        guard: certified(watch, guard),
                    },
                )
            }
        },
    }
}

/// What [`Store::active_uid_watch_at_path`] finds.
pub open spec fn finds_watch(
    store: Store,
    live_path: Seq<u8>,
    requester_uid: u32,
    required_permissions: u8,
    found: Result<Option<([u8; 16], [u8; 16])>, ManagerError>,
) -> bool {
    match found {
        Err(error) => (live_path.len() == 0 || required_permissions == 0
            || required_permissions & !PERMISSION_MASK != 0) && error@
            == "invalid active-watch lookup"@,
        Ok(found) => {
            &&& live_path.len() > 0
            &&& required_permissions != 0
            &&& required_permissions & !PERMISSION_MASK == 0
            &&& found == match newest(
                store.grants@,
                usable_at(
                    store.watches@,
                    live_path,
                    requester_uid,
                    required_permissions,
                ),
            ) {
                Some(at) => Some((store.grants@[at].watch_id, store.grants@[at].id)),
                None => None,
            }
        },
    }
}

impl Store {
    /// Finds an active watch at a path that the user's newest grant allows
    /// what is required on: the watch and the grant.
    pub fn active_uid_watch_at_path(
        &self,
        live_path: &[u8],
        requester_uid: u32,
        required_permissions: u8,
    ) -> (found: Result<Option<([u8; 16], [u8; 16])>, ManagerError>)
        ensures
            finds_watch(
                *self,
                live_path@,
                requester_uid,
                required_permissions,
                found,
            ),
    {
        if live_path.len() == 0 || required_permissions == 0 || required_permissions
            & !PERMISSION_MASK != 0 {
            return Err(ManagerError::new("invalid active-watch lookup"));
        }
        let ghost picks = usable_at(
            self.watches@,
            live_path@,
            requester_uid,
            required_permissions,
        );
        let mut found: Option<usize> = None;
        let mut at: usize = 0;
        while at < self.grants.len()
            invariant
                at <= self.grants.len(),
                picks == usable_at(
                    self.watches@,
                    live_path@,
                    requester_uid,
                    required_permissions,
                ),
                match found {
                    Some(found) => found < at && newest_before(self.grants@, picks, at as int)
                        == Some(found as int),
                    None => newest_before(self.grants@, picks, at as int) is None,
                },
            decreases self.grants.len() - at,
        {
            let grant = &self.grants[at];
            let usable: bool = match find(&self.watches, &grant.watch_id) {
                Some(watch_at) => grant.state == GrantState::Active && grant.principal.is_uid(
                    requester_uid as u64,
                ) && grant.permissions & required_permissions == required_permissions
                    && same_bytes(&self.watches[watch_at].live_path, live_path)
                    && self.watches[watch_at].state == WatchState::Active,
                None => false,
            };
            assert(usable == picks(self.grants@[at as int]));
            let newer: bool = match found {
                Some(found) => grant.created_ns > self.grants[found].created_ns,
                None => true,
            };
            if usable && newer {
                found = Some(at);
            }
            at += 1;
        }
        Ok(
            match found {
                Some(found) => Some((self.grants[found].watch_id, self.grants[found].id)),
                None => None,
            },
        )
    }

    /// Activates a facade on a watch under the epoch.
    pub fn activate_snapshot_facade_as(
        &mut self,
        watch_id: [u8; 16],
        authorization_id: [u8; 16],
        binding: &ViewBinding,
        clock_epoch: [u8; 16],
    ) -> (activated: Result<FacadeActivation, ManagerError>)
        ensures
            activates_facade(
                *old(self),
                *final(self),
                watch_id,
                authorization_id,
                *binding,
                clock_epoch,
                activated,
            ),
            old(self).well_formed() ==> final(self).well_formed(),
    {
        let at: usize = match find(&self.watches, &watch_id) {
            Some(at) => at,
            None => {
                return Err(
                    ManagerError::new("facade binding does not match an authorized active watch"),
                );
            },
        };
        let filesystem_at: usize = match find_number(
            &self.filesystems,
            self.watches[at].filesystem_id,
        ) {
            Some(filesystem_at) => filesystem_at,
            None => {
                return Err(
                    ManagerError::new("facade binding does not match an authorized active watch"),
                );
            },
        };
        let watch = &self.watches[at];
        if watch.state != WatchState::Active || !is_allowed(
            &self.grants,
            &watch_id,
            &authorization_id,
            CUT_PERMISSIONS,
        ) || !same_bytes(&watch.live_path, &binding.root_path) || !same_array(
            &watch.live_subvol_uuid,
            &binding.subvol_uuid,
        ) || !same_array(&self.filesystems[filesystem_at].fs_uuid, &binding.fs_uuid) {
            return Err(
                ManagerError::new("facade binding does not match an authorized active watch"),
            );
        }
        let own: bool = match &watch.view {
            Some(view) => same_array(&view.owner_grant_id, &authorization_id),
            None => false,
        };
        if watch.fsmonitor_state != FsmonitorState::Disabled && !own {
            return Err(none_changed("activate snapshot facade"));
        }
        self.watches[at].clock_epoch = clock_epoch;
        self.watches[at].view = Some(
            FacadeView {
                owner_grant_id: authorization_id,
                root: copy_bytes(&binding.root_path),
                mount_ns_dev: binding.mount_ns_dev,
                mount_ns_ino: binding.mount_ns_ino,
                root_dev: binding.process_root_dev,
                root_ino: binding.process_root_ino,
                root_mnt_id: binding.process_root_mnt_id,
                monitor_session_id: binding.monitor_session_id,
            },
        );
        self.watches[at].guard = None;
        self.watches[at].fsmonitor_state = FsmonitorState::SnapshotOnly;
        assert(self.watches@ =~= old(self).watches@.update(at as int, self.watches@[at as int]));
        Ok(
            FacadeActivation {
                watch_id,
                authorization_id,
                clock_epoch,
                monitor_session_id: binding.monitor_session_id,
            },
        )
    }

    /// Activates a facade on a watch.
    pub fn activate_snapshot_facade(
        &mut self,
        watch_id: [u8; 16],
        authorization_id: [u8; 16],
        binding: &ViewBinding,
    ) -> (activated: Result<FacadeActivation, ManagerError>)
        ensures
            exists|clock_epoch: [u8; 16]|
                drawn(clock_epoch) && #[trigger] activates_facade(
                    *old(self),
                    *final(self),
                    watch_id,
                    authorization_id,
                    *binding,
                    clock_epoch,
                    activated,
                ),
            old(self).well_formed() ==> final(self).well_formed(),
    {
        let clock_epoch: [u8; 16] = random_id();
        self.activate_snapshot_facade_as(watch_id, authorization_id, binding, clock_epoch)
    }

    /// Takes a facade down. `epoch` replaces the epoch of its clocks.
    pub fn invalidate_snapshot_facade_as(
        &mut self,
        activation: &FacadeActivation,
        epoch: [u8; 16],
    ) -> (invalidated: Result<(), ManagerError>)
        ensures
            invalidates_facade(*old(self), *final(self), *activation, epoch, invalidated),
            old(self).well_formed() ==> final(self).well_formed(),
    {
        let test = |lease: &QueryLease| -> (picked: bool)
            ensures
                picked == responses(*activation)(*lease),
            {
                same_array(&lease.watch_id, &activation.watch_id) && same_array(
                    &lease.authorization_id,
                    &activation.authorization_id,
                ) && same_array(&lease.clock_epoch, &activation.clock_epoch) && lease.state
                    == QueryState::Active
            };
        if any(&self.query_leases, test, Ghost(responses(*activation))) {
            return Err(
                ManagerError::new(
                    "snapshot facade has a response lease which must drain before invalidation",
                ),
            );
        }
        let at: usize = match find(&self.watches, &activation.watch_id) {
            Some(at) => at,
            None => {
                return Err(none_changed("invalidate snapshot facade"));
            },
        };
        if !is_facade(&self.watches[at], activation) {
            return Err(none_changed("invalidate snapshot facade"));
        }
        release_queries(
            &mut self.query_leases,
            &mut self.revision_pins,
            &mut self.comparison_pins,
            &QueryChoice::Facade(activation.watch_id, activation.clock_epoch),
        );
        self.watches[at].clock_epoch = epoch;
        self.watches[at].view = None;
        self.watches[at].guard = None;
        self.watches[at].fsmonitor_state = FsmonitorState::Disabled;
        assert(self.watches@ =~= old(self).watches@.update(
            at as int,
            unbound(old(self).watches@[at as int], epoch),
        ));
        Ok(())
    }

    /// Takes a facade down.
    pub fn invalidate_snapshot_facade(&mut self, activation: &FacadeActivation) -> (invalidated:
        Result<(), ManagerError>)
        ensures
            exists|epoch: [u8; 16]|
                drawn(epoch) && #[trigger] invalidates_facade(
                    *old(self),
                    *final(self),
                    *activation,
                    epoch,
                    invalidated,
                ),
            old(self).well_formed() ==> final(self).well_formed(),
    {
        let epoch: [u8; 16] = random_id();
        self.invalidate_snapshot_facade_as(activation, epoch)
    }

    /// Begins a precision journal with the epoch.
    pub fn begin_precision_guard_as(
        &mut self,
        activation: &FacadeActivation,
        epoch: [u8; 16],
    ) -> (begun: Result<GuardCursor, ManagerError>)
        ensures
            begins_guard(*old(self), *final(self), *activation, epoch, begun),
            old(self).well_formed() ==> final(self).well_formed(),
    {
        let at: usize = match find(&self.watches, &activation.watch_id) {
            Some(at) => at,
            None => {
                return Err(none_changed("begin precision guard"));
            },
        };
        if !is_facade(&self.watches[at], activation) || (self.watches[at].fsmonitor_state
            != FsmonitorState::SnapshotOnly && self.watches[at].fsmonitor_state
            != FsmonitorState::GuardGapped) {
            return Err(none_changed("begin precision guard"));
        }
        self.watches[at].guard = Some(GuardJournal { epoch, head_seq: 0, replay_floor_seq: 0 });
        self.watches[at].fsmonitor_state = FsmonitorState::GuardArming;
        assert(self.watches@ =~= old(self).watches@.update(at as int, self.watches@[at as int]));
        Ok(GuardCursor { epoch, sequence: 0 })
    }

    /// Begins a precision journal. It is complete only once its recursive
    /// watches and a marker behind them have been drained.
    pub fn begin_precision_guard(&mut self, activation: &FacadeActivation) -> (begun: Result<
        GuardCursor,
        ManagerError,
    >)
        ensures
            exists|epoch: [u8; 16]|
                drawn(epoch) && #[trigger] begins_guard(
                    *old(self),
                    *final(self),
                    *activation,
                    epoch,
                    begun,
                ),
            old(self).well_formed() ==> final(self).well_formed(),
    {
        let epoch: [u8; 16] = random_id();
        self.begin_precision_guard_as(activation, epoch)
    }

    fn find_guard(&self, activation: &FacadeActivation, epoch: &[u8; 16]) -> (found: Option<
        (usize, GuardJournal),
    >)
        ensures
            match found {
                Some((at, journal)) => {
                    &&& guard_runs(*self, *activation, *epoch)
                    &&& at < self.watches@.len()
                    &&& place(self.watches@, activation.watch_id) == Some(at as int)
                    &&& row(self.watches@, activation.watch_id) == Some(self.watches@[at as int])
                    &&& self.watches@[at as int].guard == Some(journal)
                },
                None => !guard_runs(*self, *activation, *epoch),
            },
    {
        match find(&self.watches, &activation.watch_id) {
            Some(at) => match self.watches[at].guard {
                Some(journal) => if is_facade(&self.watches[at], activation) && same_array(
                    &journal.epoch,
                    epoch,
                ) && (self.watches[at].fsmonitor_state == FsmonitorState::GuardArming
                    || self.watches[at].fsmonitor_state == FsmonitorState::GuardActive) {
                    Some((at, journal))
                } else {
                    None
                },
                None => None,
            },
            None => None,
        }
    }

    /// Adds hints to a precision journal and moves its head behind them.
    pub fn append_precision_events(
        &mut self,
        activation: &FacadeActivation,
        epoch: [u8; 16],
        events: &[MutationHint],
        observed_ns: i64,
    ) -> (appended: Result<GuardCursor, ManagerError>)
        ensures
            appends_events(
                *old(self),
                *final(self),
                *activation,
                epoch,
                events@,
                observed_ns,
                appended,
            ),
            old(self).well_formed() ==> final(self).well_formed(),
    {
        if observed_ns < 0 {
            return Err(ManagerError::new("invalid mutation observation time"));
        }
        let (at, journal): (usize, GuardJournal) = match self.find_guard(activation, &epoch) {
            Some(found) => found,
            None => {
                return Err(ManagerError::new("precision guard is stale or gapped"));
            },
        };
        let head: i64 = journal.head_seq;
        if head as i128 + events.len() as i128 > i64::MAX as i128 {
            return Err(ManagerError::new("precision sequence overflow"));
        }
        let ghost before = self.mutation_events@;
        let ghost count = before.len() as int;
        let mut next: usize = 0;
        let size: usize = events.len();
        assert(self.mutation_events@.take(count) =~= before);
        while next < size
            invariant
                next <= size,
                size == events@.len(),
                head + events@.len() <= i64::MAX,
                count == before.len(),
                self.mutation_events@.len() == count + next,
                self.mutation_events@.take(count) == before,
                journal_rows(
                    self.mutation_events@.skip(count),
                    events@.take(next as int),
                    activation.watch_id,
                    epoch,
                    head,
                    observed_ns,
                ),
                *self == (Store { mutation_events: self.mutation_events, ..*old(self) }),
            decreases size - next,
        {
            let ghost there = self.mutation_events@;
            let sequence: i64 = (head as i128 + next as i128 + 1) as i64;
            self.mutation_events.push(
                MutationEvent {
                    watch_id: activation.watch_id,
                    guard_epoch: epoch,
                    sequence,
                    hint: events[next].copy(),
                    observed_ns,
                },
            );
            proof {
                assert(self.mutation_events@.take(count) =~= there.take(count));
                assert(self.mutation_events@.skip(count) =~= there.skip(count).push(
                    self.mutation_events@.last(),
                ));
                let rows = self.mutation_events@.skip(count);
                let hints = events@.take(next + 1);
                assert forall|i: int| 0 <= i < rows.len() implies ({
                    let event = #[trigger] rows[i];
                    &&& event.watch_id == activation.watch_id
                    &&& event.guard_epoch == epoch
                    &&& event.sequence == head + 1 + i
                    &&& same_hint(event.hint, hints[i])
                    &&& event.observed_ns == observed_ns
                }) by {
                    if i < next {
                        assert(rows[i] == there.skip(count)[i]);
                        assert(hints[i] == events@.take(next as int)[i]);
                    }
                }
            }
            next += 1;
        }
        assert(events@.take(next as int) =~= events@);
        let sequence: i64 = (head as i128 + size as i128) as i64;
        self.watches[at].guard = Some(
            GuardJournal {
                epoch: journal.epoch,
                head_seq: sequence,
                replay_floor_seq: journal.replay_floor_seq,
            },
        );
        assert(self.watches@ =~= old(self).watches@.update(at as int, self.watches@[at as int]));
        Ok(GuardCursor { epoch, sequence })
    }

    /// Declares a precision journal complete up to its head.
    pub fn complete_precision_guard(
        &mut self,
        activation: &FacadeActivation,
        cursor: GuardCursor,
    ) -> (completed: Result<(), ManagerError>)
        ensures
            completes_guard(*old(self), *final(self), *activation, cursor, completed),
            old(self).well_formed() ==> final(self).well_formed(),
    {
        match self.find_guard(activation, &cursor.epoch) {
            Some((at, journal)) => {
                if self.watches[at].fsmonitor_state == FsmonitorState::GuardArming
                    && journal.head_seq == cursor.sequence {
                    self.watches[at].fsmonitor_state = FsmonitorState::GuardActive;
                    return Ok(());
                }
            },
            None => {},
        }
        Err(none_changed("complete precision guard"))
    }

    /// Gives a precision journal up. The facade itself stays as it is.
    pub fn gap_precision_guard(
        &mut self,
        activation: &FacadeActivation,
        epoch: [u8; 16],
    ) -> (gapped: Result<(), ManagerError>)
        ensures
            gaps_guard(*old(self), *final(self), *activation, epoch, gapped),
            old(self).well_formed() ==> final(self).well_formed(),
    {
        match self.find_guard(activation, &epoch) {
            Some((at, _)) => {
                self.watches[at].fsmonitor_state = FsmonitorState::GuardGapped;
                Ok(())
            },
            None => Err(none_changed("gap precision guard")),
        }
    }

    /// Makes a ready cut a boundary that queries can start from and end at.
    /// `guard` certifies the precision journal up to the cut, where it is
    /// still the journal's head.
    pub fn finalize_cut_boundary(
        &mut self,
        activation: &FacadeActivation,
        binding: &ViewBinding,
        sequence: i64,
        guard: Option<GuardCursor>,
    ) -> (finalized: Result<(), ManagerError>)
        ensures
            finalizes_boundary(
                *old(self),
                *final(self),
                *activation,
                *binding,
                sequence,
                guard,
                finalized,
            ),
            old(self).well_formed() ==> final(self).well_formed(),
    {
        if sequence <= 0 || !same_array(
            &activation.monitor_session_id,
            &binding.monitor_session_id,
        ) || is_zero(&activation.watch_id) {
            return Err(ManagerError::new("invalid facade cut boundary"));
        }
        let (watch_at, cut_place): (usize, usize) = match (
            find(&self.watches, &activation.watch_id),
            find_cut(&self.cuts, &activation.watch_id, sequence),
        ) {
            (Some(watch_at), Some(cut_place)) => (watch_at, cut_place),
            _ => {
                return Err(ManagerError::new("cut boundary binding or authorization is stale"));
            },
        };
        let cut: WatchCut = self.cuts[cut_place];
        let watch = &self.watches[watch_at];
        if !is_facade(watch, activation) || watch.fsmonitor_state == FsmonitorState::Disabled
            || !has_view(watch, binding) || find_active_grant(
            &self.grants,
            &activation.watch_id,
            &activation.authorization_id,
        ).is_none() || cut.state != CutState::Ready {
            return Err(ManagerError::new("cut boundary binding or authorization is stale"));
        }
        let certificate: Option<GuardCursor> = match (guard, watch.guard) {
            (Some(cursor), Some(journal)) => if watch.fsmonitor_state
                == FsmonitorState::GuardActive && same_array(&journal.epoch, &cursor.epoch)
                && journal.head_seq == cursor.sequence {
                Some(cursor)
            } else {
                None
            },
            _ => None,
        };
        let test = |boundary: &Boundary| -> (picked: bool)
            ensures
                picked == cut_boundary(activation.watch_id, sequence)(*boundary),
            {
                let by_cut: bool = match boundary.source {
                    BoundarySource::Cut(_) => true,
                    BoundarySource::ProvedWorktreeSeed(_) => false,
                };
                same_array(&boundary.watch_id, &activation.watch_id) && boundary.cut_sequence
                    == sequence && by_cut
            };
        match find_first(
            &self.boundaries,
            test,
            Ghost(cut_boundary(activation.watch_id, sequence)),
        ) {
            Some(at) => {
                let there: Boundary = self.boundaries[at];
                let same_operation: bool = match &there.source {
                    BoundarySource::Cut(operation_id) => same_array(
                        operation_id,
                        &cut.operation_id,
                    ),
                    BoundarySource::ProvedWorktreeSeed(_) => false,
                };
                if there.target_snapshot_id != cut.target_snapshot_id || !same_operation
                    || !same_array(&there.clock_epoch, &activation.clock_epoch) {
                    return Err(
                        ManagerError::new(
                            "existing cut boundary conflicts with the current publication",
                        ),
                    );
                }
                return Ok(());
            },
            None => {},
        }
        let at: usize = match find(&self.operations, &cut.operation_id) {
            Some(at) => at,
            None => {
                return Err(none_changed("record cut precision cursor"));
            },
        };
        if self.operations[at].kind != OperationKind::Cut || self.operations[at].state
            != OperationState::Done {
            return Err(none_changed("record cut precision cursor"));
        }
        self.operations[at].guard = certificate;
        self.boundaries.push(
            Boundary {
                watch_id: activation.watch_id,
                cut_sequence: sequence,
                target_snapshot_id: cut.target_snapshot_id,
                source: BoundarySource::Cut(cut.operation_id),
                clock_epoch: activation.clock_epoch,
                guard: certificate,
            },
        );
        Ok(())
    }

    /// Makes the snapshot that a worktree was seeded from a boundary of its
    /// watch.
    pub fn finalize_proved_worktree_seed(
        &mut self,
        activation: &FacadeActivation,
        binding: &ViewBinding,
    ) -> (finalized: Result<ProvedWorktreeSeed, ManagerError>)
        ensures
            finalizes_seed(*old(self), *final(self), *activation, *binding, finalized),
            old(self).well_formed() ==> final(self).well_formed(),
    {
        if !same_array(&activation.monitor_session_id, &binding.monitor_session_id) {
            return Err(ManagerError::new("proved Worktree monitor session is stale"));
        }
        let at: usize = match find(&self.watches, &activation.watch_id) {
            Some(at) => at,
            None => {
                return Err(
                    ManagerError::new("proved Worktree seed binding or authorization is stale"),
                );
            },
        };
        if !is_facade(&self.watches[at], activation) || !has_view(&self.watches[at], binding)
            || find_active_grant(
            &self.grants,
            &activation.watch_id,
            &activation.authorization_id,
        ).is_none() {
            return Err(
                ManagerError::new("proved Worktree seed binding or authorization is stale"),
            );
        }
        let (worktree_at, snapshot_at): (usize, usize) = match self.find_proved_seed(at) {
            Some(seed) => seed,
            None => {
                return Err(
                    ManagerError::new("proved Worktree seed binding or authorization is stale"),
                );
            },
        };
        if find_boundary(&self.boundaries, &activation.watch_id, 0).is_some() {
            return Err(
                ManagerError::new(
                    "UNIQUE constraint failed: fsmonitor_boundaries.watch_id, fsmonitor_boundaries.cut_sequence",
                ),
            );
        }
        self.boundaries.push(
            Boundary {
                watch_id: activation.watch_id,
                cut_sequence: 0,
                target_snapshot_id: self.snapshots[snapshot_at].id,
                source: BoundarySource::ProvedWorktreeSeed(self.worktrees[worktree_at].id),
                clock_epoch: activation.clock_epoch,
                guard: None,
            },
        );
        Ok(
            ProvedWorktreeSeed {
                worktree_id: self.worktrees[worktree_at].id,
                snapshot_uuid: self.snapshots[snapshot_at].subvol_uuid,
            },
        )
    }

    fn find_proved_seed(&self, at: usize) -> (seed: Option<(usize, usize)>)
        requires
            at < self.watches@.len(),
        ensures
            match seed {
                Some((worktree_at, snapshot_at)) => worktree_at < self.worktrees@.len()
                    && snapshot_at < self.snapshots@.len() && proved_seed(
                    *self,
                    self.watches@[at as int],
                ) == Some(
                    (self.worktrees@[worktree_at as int], self.snapshots@[snapshot_at as int]),
                ),
                None => proved_seed(*self, self.watches@[at as int]) is None,
            },
    {
        let watch = &self.watches[at];
        let revision_id: i64 = match watch.indexed_revision_id {
            Some(revision_id) => revision_id,
            None => {
                return None;
            },
        };
        let revision_at: usize = match find_number(&self.revisions, revision_id) {
            Some(revision_at) => revision_at,
            None => {
                return None;
            },
        };
        let snapshot_id: i64 = self.revisions[revision_at].snapshot_id;
        let snapshot_at: usize = match find_number(&self.snapshots, snapshot_id) {
            Some(snapshot_at) => snapshot_at,
            None => {
                return None;
            },
        };
        let test = |worktree: &Worktree| -> (picked: bool)
            ensures
                picked == seeded(watch.id, revision_id)(*worktree),
            {
                holds(&worktree.watch_id, &watch.id) && worktree.state
                    == WorktreeState::Present && worktree.seed_revision_id == revision_id
            };
        match find_first(&self.worktrees, test, Ghost(seeded(watch.id, revision_id))) {
            Some(worktree_at) => if watch.indexed_seq == Some(0i64) && watch.last_cut_seq == Some(
                0i64,
            ) && watch.last_cut_snapshot_id == Some(snapshot_id) {
                Some((worktree_at, snapshot_at))
            } else {
                None
            },
            None => None,
        }
    }
}

} // verus!
