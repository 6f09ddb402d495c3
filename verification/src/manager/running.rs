//! When the triggers of watches run, and when they rest.

use crate::manager::compact::RevisionReport;
use crate::manager::delta::{publishes_adjacent, publishes_delta, readies_base, AppliedDelta};
use crate::manager::fresh::{publishes_fresh, PathLookup};
use crate::manager::metadata::DeltaDigests;
use crate::manager::publish::CheckedIndex;
use crate::manager::rows::{FsmonitorState, GrantState, Store, Trigger, TriggerState, WatchState};
use crate::manager::table::{first, law_removing, lemma_first, row};
use crate::manager::triggers::{
    claims_run, deletes_trigger, finds_root, finishes_run, has_trigger, is_due,
    law_least_run_trigger_is_next, lists_watches, next_due, next_due_before, registers_trigger,
    serving, trigger_at,
};
use crate::manager::types::{
    CutReservation, ManagerError, Principal, PublishedCut, RecordedSnapshot, TriggerRun,
};
use crate::manifest::ManifestView;
use crate::ordered::{bytes_less, law_bytes_order};
use vstd::prelude::*;

verus! {

/// Whether a trigger ought to run: it, its watch and its grant are active, there is
/// something that it has not looked at, and nobody is at it.
pub open spec fn ought_to_run(store: Store, trigger: Trigger, now_ns: i64) -> bool {
    &&& trigger.state == TriggerState::Active
    &&& row(store.watches@, trigger.watch_id) matches Some(watch)
    &&& watch.state == WatchState::Active
    &&& row(store.grants@, trigger.owner_grant_id) matches Some(grant)
    &&& grant.state == GrantState::Active
    &&& grant.watch_id == trigger.watch_id
    &&& has_news(trigger)
    &&& at_rest(trigger, now_ns)
}

/// Whether there is something that the trigger has not looked at.
pub open spec fn has_news(trigger: Trigger) -> bool {
    match (trigger.last_evaluated_seq, trigger.pending_through_seq) {
        (_, None) => false,
        (None, Some(_)) => true,
        (Some(seen), Some(pending)) => seen < pending,
    }
}

/// Whether nobody is at the trigger, or whoever was ran out of time.
pub open spec fn at_rest(trigger: Trigger, now_ns: i64) -> bool {
    match (trigger.run_owner, trigger.run_expires_ns) {
        (None, _) => true,
        (Some(_), None) => false,
        (Some(_), Some(expires)) => !(now_ns < expires),
    }
}

/// Whether the run is that of the trigger, through all that it has not looked at.
pub open spec fn run_of(trigger: Trigger, run: TriggerRun) -> bool {
    &&& run.watch_id == trigger.watch_id
    &&& run.authorization_id == trigger.owner_grant_id
    &&& trigger.pending_through_seq == Some(run.through_sequence)
}

proof fn lemma_found(store: Store, now_ns: i64, n: int)
    requires
        0 <= n <= store.triggers@.len(),
    ensures
        next_due_before(store, now_ns, n) matches Some(at) ==> 0 <= at < n && is_due(
            store,
            store.triggers@[at],
            now_ns,
        ),
    decreases n,
{
    if n > 0 {
        lemma_found(store, now_ns, n - 1);
    }
}

/// A claim gives a run exactly where a trigger ought to run: that of one which ran no
/// more often than any other that ought to, through all that it has not looked at.
/// Nothing else is touched.
pub proof fn law_claim_gives_what_ought_to_run(
    before: Store,
    after: Store,
    run_owner: [u8; 16],
    now_ns: i64,
    run_expires_ns: i64,
    claimed: Result<Option<TriggerRun>, ManagerError>,
)
    requires
        claims_run(before, after, run_owner, now_ns, run_expires_ns, claimed),
    ensures
        claimed matches Ok(None) ==> after == before && forall|i: int|
            0 <= i < before.triggers@.len() ==> !ought_to_run(
                before,
                #[trigger] before.triggers@[i],
                now_ns,
            ),
        claimed matches Ok(Some(run)) ==> exists|i: int|
            0 <= i < before.triggers@.len() && #[trigger] claimed_at(
                before,
                after,
                run_owner,
                now_ns,
                run_expires_ns,
                run,
                i,
            ),
        run_expires_ns > now_ns && (forall|i: int|
            0 <= i < before.triggers@.len() ==> (#[trigger] before.triggers@[i]).run_fence
                < i64::MAX) ==> claimed is Ok,
        claimed is Err ==> after == before,
{
    let n = before.triggers@.len() as int;
    lemma_found(before, now_ns, n);
    assert forall|i: int| 0 <= i < n implies ought_to_run(
        before,
        #[trigger] before.triggers@[i],
        now_ns,
    ) == is_due(before, before.triggers@[i], now_ns) by {}
    if next_due(before, now_ns) is None {
        assert forall|i: int| 0 <= i < n implies !ought_to_run(
            before,
            #[trigger] before.triggers@[i],
            now_ns,
        ) by {
            if is_due(before, before.triggers@[i], now_ns) {
                law_least_run_trigger_is_next(before, now_ns, i);
            }
        }
    }
    if let Ok(Some(run)) = claimed {
        let at = next_due(before, now_ns)->0;
        assert forall|j: int|
            0 <= j < n && ought_to_run(before, #[trigger] before.triggers@[j], now_ns) implies
            before.triggers@[at].run_fence <= before.triggers@[j].run_fence && (
        before.triggers@[at].run_fence == before.triggers@[j].run_fence ==> ended_at(
            before.triggers@[at],
        ) <= ended_at(before.triggers@[j])) by {
            law_least_run_trigger_is_next(before, now_ns, j);
        }
        assert(claimed_at(before, after, run_owner, now_ns, run_expires_ns, run, at));
    }
}

/// When the last run of the trigger was to end, and zero where it has not run.
pub open spec fn ended_at(trigger: Trigger) -> int {
    match trigger.run_expires_ns {
        Some(expires) => expires as int,
        None => 0,
    }
}

/// Whether the run was given for the trigger in the place, which ought to run, and
/// only that trigger was marked as running.
pub open spec fn claimed_at(
    before: Store,
    after: Store,
    run_owner: [u8; 16],
    now_ns: i64,
    run_expires_ns: i64,
    run: TriggerRun,
    i: int,
) -> bool {
    let trigger = before.triggers@[i];
    &&& ought_to_run(before, trigger, now_ns)
    &&& run_of(trigger, run)
    &&& run.run_owner == run_owner
    &&& run.run_fence == trigger.run_fence + 1
    &&& forall|j: int|
        0 <= j < before.triggers@.len() && ought_to_run(
            before,
            #[trigger] before.triggers@[j],
            now_ns,
        ) ==> trigger.run_fence <= before.triggers@[j].run_fence && (trigger.run_fence
            == before.triggers@[j].run_fence ==> ended_at(trigger) <= ended_at(
            before.triggers@[j],
        ))
    &&& after == (Store { triggers: after.triggers, ..before })
    &&& after.triggers@.len() == before.triggers@.len()
    &&& forall|j: int|
        0 <= j < before.triggers@.len() && j != i ==> #[trigger] after.triggers@[j]
            == before.triggers@[j]
    &&& after.triggers@[i] == (Trigger {
        run_owner: Some(run_owner),
        run_fence: run.run_fence,
        run_expires_ns: Some(run_expires_ns),
        ..trigger
    })
}

/// A trigger that is claimed is not given to anyone else while the claim lasts.
pub proof fn law_claimed_trigger_is_not_given_again(
    before: Store,
    after: Store,
    run_owner: [u8; 16],
    now_ns: i64,
    run_expires_ns: i64,
    run: TriggerRun,
    i: int,
    later_ns: i64,
)
    requires
        claimed_at(before, after, run_owner, now_ns, run_expires_ns, run, i),
        later_ns < run_expires_ns,
    ensures
        !ought_to_run(after, after.triggers@[i], later_ns),
{
}

/// Whether the trigger in the place is the only one of the grant on the watch.
pub open spec fn only_trigger(
    store: Store,
    watch_id: [u8; 16],
    grant_id: [u8; 16],
    i: int,
) -> bool {
    &&& 0 <= i < store.triggers@.len()
    &&& store.triggers@[i].watch_id == watch_id
    &&& store.triggers@[i].owner_grant_id == grant_id
    &&& forall|j: int|
        0 <= j < store.triggers@.len() && j != i ==> !((#[trigger] store.triggers@[j]).watch_id
            == watch_id && store.triggers@[j].owner_grant_id == grant_id)
}

proof fn lemma_only(store: Store, watch_id: [u8; 16], grant_id: [u8; 16], i: int)
    requires
        only_trigger(store, watch_id, grant_id, i),
    ensures
        first(store.triggers@, trigger_at(watch_id, grant_id)) == Some(i),
{
    let picks = trigger_at(watch_id, grant_id);
    lemma_first(store.triggers@, picks, 0);
    assert(picks(store.triggers@[i]));
    assert forall|j: int| 0 <= j < store.triggers@.len() && j != i implies !picks(
        #[trigger] store.triggers@[j],
    ) by {}
}

/// Only who claimed a run can finish it, and only while the trigger was not claimed
/// anew. A finished trigger is at rest; what it ran through counts as looked at
/// where it succeeded, and only there.
pub proof fn law_finished_run(
    before: Store,
    after: Store,
    run: TriggerRun,
    succeeded: bool,
    finished: Result<(), ManagerError>,
    i: int,
    now_ns: i64,
)
    requires
        finishes_run(before, after, run, succeeded, finished),
        only_trigger(before, run.watch_id, run.authorization_id, i),
    ensures
        finished is Ok ==> {
            let trigger = before.triggers@[i];
            &&& trigger.state == TriggerState::Active
            &&& trigger.run_owner == Some(run.run_owner)
            &&& trigger.run_fence == run.run_fence
            &&& at_rest(after.triggers@[i], now_ns)
            &&& after.triggers@.len() == before.triggers@.len()
            &&& after.triggers@[i] == (Trigger {
                last_evaluated_seq: after.triggers@[i].last_evaluated_seq,
                run_owner: after.triggers@[i].run_owner,
                run_expires_ns: after.triggers@[i].run_expires_ns,
                ..trigger
            })
            &&& !succeeded ==> after.triggers@[i].last_evaluated_seq == trigger.last_evaluated_seq
            &&& succeeded ==> {
                &&& after.triggers@[i].last_evaluated_seq matches Some(seen)
                &&& seen >= run.through_sequence
                &&& trigger.last_evaluated_seq matches Some(earlier) ==> seen >= earlier
                &&& seen == run.through_sequence || trigger.last_evaluated_seq == Some(seen)
                &&& has_news(after.triggers@[i]) ==> trigger.pending_through_seq->0
                    > run.through_sequence
            }
            &&& forall|j: int|
                0 <= j < before.triggers@.len() && j != i ==> #[trigger] after.triggers@[j]
                    == before.triggers@[j]
            &&& after == (Store { triggers: after.triggers, ..before })
        },
        finished is Err ==> after == before,
        before.triggers@[i].state == TriggerState::Active && before.triggers@[i].run_owner == Some(
            run.run_owner,
        ) && before.triggers@[i].run_fence == run.run_fence && (succeeded ==> (
        before.triggers@[i].pending_through_seq matches Some(pending) && pending
            >= run.through_sequence)) ==> finished is Ok,
{
    lemma_only(before, run.watch_id, run.authorization_id, i);
}

/// Whether the triggers of the watch were told of the sequence: each active one has
/// it before it, and nothing else of any changed.
pub open spec fn triggers_told(
    before: Store,
    after: Store,
    watch_id: [u8; 16],
    sequence: i64,
) -> bool {
    &&& after.triggers@.len() == before.triggers@.len()
    &&& forall|i: int|
        0 <= i < before.triggers@.len() ==> {
            let (old_row, new_row) = (before.triggers@[i], #[trigger] after.triggers@[i]);
            &&& new_row == (Trigger { pending_through_seq: new_row.pending_through_seq, ..old_row })
            &&& if old_row.watch_id == watch_id && old_row.state == TriggerState::Active {
                &&& new_row.pending_through_seq matches Some(pending)
                &&& pending >= sequence
                &&& old_row.pending_through_seq matches Some(earlier) ==> pending >= earlier
                &&& pending == sequence || old_row.pending_through_seq == Some(pending)
            } else {
                new_row == old_row
            }
        }
}

/// A cut of which everything is new is told to the triggers of its watch.
pub proof fn law_fresh_cut_raises_triggers(
    before: Store,
    after: Store,
    reservation: CutReservation,
    lease_owner: [u8; 16],
    snapshot_id: i64,
    snapshot_uuid: [u8; 16],
    checked: CheckedIndex,
    paths: Map<u64, PathLookup>,
    now_ns: i64,
    published: Result<PublishedCut, ManagerError>,
)
    requires
        publishes_fresh(
            before,
            after,
            reservation,
            lease_owner,
            snapshot_id,
            snapshot_uuid,
            checked,
            paths,
            now_ns,
            published,
        ),
        published is Ok,
    ensures
        triggers_told(before, after, reservation.watch_id, reservation.sequence),
{
}

/// A cut with changes that matter is told to the triggers of its watch, and one
/// without is not.
pub proof fn law_indexed_cut_raises_triggers(
    before: Store,
    after: Store,
    reservation: CutReservation,
    lease_owner: [u8; 16],
    snapshot: RecordedSnapshot,
    manifest: ManifestView,
    applied: AppliedDelta,
    base_report: RevisionReport,
    digests: DeltaDigests,
    now_ns: i64,
    published: Result<PublishedCut, ManagerError>,
)
    requires
        publishes_adjacent(
            before,
            after,
            reservation,
            lease_owner,
            snapshot,
            manifest,
            applied,
            base_report,
            digests,
            now_ns,
            published,
        ),
        published is Ok,
    ensures
        applied.wakes_triggers ==> triggers_told(
            before,
            after,
            reservation.watch_id,
            reservation.sequence,
        ),
        !applied.wakes_triggers ==> after.triggers@ == before.triggers@,
{
    let (middle, readied) = choose|middle: Store, readied: Result<i64, Seq<char>>| #[trigger]
        readies_base(before, middle, reservation, lease_owner, base_report, readied)
            && match readied {
            Err(fault) => after == middle && (published matches Err(error) && error@ == fault),
            Ok(base_revision_id) => publishes_delta(
                middle,
                after,
                base_revision_id,
                reservation,
                lease_owner,
                snapshot.snapshot_id,
                manifest,
                applied,
                digests,
                now_ns,
                published,
            ),
        };
    assert(middle.triggers == before.triggers);
}

/// A trigger that was finished through a sequence runs again once a later one is
/// told to it: the next claim gives a run, and where no other trigger ought to run,
/// its own, through the new sequence.
pub proof fn law_news_run_a_trigger_again(
    before: Store,
    finished_store: Store,
    run: TriggerRun,
    finished: Result<(), ManagerError>,
    told: Store,
    sequence: i64,
    after: Store,
    run_owner: [u8; 16],
    now_ns: i64,
    run_expires_ns: i64,
    claimed: Result<Option<TriggerRun>, ManagerError>,
    i: int,
)
    requires
        finishes_run(before, finished_store, run, true, finished),
        finished is Ok,
        only_trigger(before, run.watch_id, run.authorization_id, i),
        before.triggers@[i].pending_through_seq == Some(run.through_sequence),
        before.triggers@[i].last_evaluated_seq matches Some(seen) ==> seen <= run.through_sequence,
        triggers_told(finished_store, told, run.watch_id, sequence),
        sequence > run.through_sequence,
        row(told.watches@, run.watch_id) matches Some(watch) && watch.state == WatchState::Active,
        row(told.grants@, run.authorization_id) matches Some(grant) && grant.state
            == GrantState::Active && grant.watch_id == run.watch_id,
        claims_run(told, after, run_owner, now_ns, run_expires_ns, claimed),
        claimed is Ok,
    ensures
        claimed matches Ok(Some(_)),
        (forall|j: int|
            0 <= j < told.triggers@.len() && j != i ==> !ought_to_run(
                told,
                #[trigger] told.triggers@[j],
                now_ns,
            )) ==> (claimed matches Ok(Some(given)) && given.watch_id == run.watch_id
            && given.authorization_id == run.authorization_id && given.through_sequence
            == sequence && given.run_owner == run_owner),
{
    law_finished_run(before, finished_store, run, true, finished, i, now_ns);
    law_claim_gives_what_ought_to_run(told, after, run_owner, now_ns, run_expires_ns, claimed);
    assert(ought_to_run(told, told.triggers@[i], now_ns));
}

/// A trigger that was finished through all that it was told of rests.
pub proof fn law_finished_trigger_rests(
    before: Store,
    after: Store,
    run: TriggerRun,
    finished: Result<(), ManagerError>,
    i: int,
    now_ns: i64,
)
    requires
        finishes_run(before, after, run, true, finished),
        finished is Ok,
        only_trigger(before, run.watch_id, run.authorization_id, i),
        before.triggers@[i].pending_through_seq == Some(run.through_sequence),
    ensures
        !ought_to_run(after, after.triggers@[i], now_ns),
{
    law_finished_run(before, after, run, true, finished, i, now_ns);
}

/// A run that failed is given again.
pub proof fn law_failed_run_is_given_again(
    before: Store,
    claimed_store: Store,
    run_owner: [u8; 16],
    now_ns: i64,
    run_expires_ns: i64,
    run: TriggerRun,
    i: int,
    after: Store,
    finished: Result<(), ManagerError>,
    later_ns: i64,
)
    requires
        claimed_at(before, claimed_store, run_owner, now_ns, run_expires_ns, run, i),
        only_trigger(before, run.watch_id, run.authorization_id, i),
        finishes_run(claimed_store, after, run, false, finished),
    ensures
        finished is Ok,
        ought_to_run(after, after.triggers@[i], later_ns),
{
    assert(only_trigger(claimed_store, run.watch_id, run.authorization_id, i)) by {
        assert forall|j: int| 0 <= j < claimed_store.triggers@.len() && j != i implies !((
        #[trigger] claimed_store.triggers@[j]).watch_id == run.watch_id
            && claimed_store.triggers@[j].owner_grant_id == run.authorization_id) by {
            assert(claimed_store.triggers@[j] == before.triggers@[j]);
        }
    }
    law_finished_run(claimed_store, after, run, false, finished, i, later_ns);
}

/// A grant gets a trigger only where it is active on an active watch and allows
/// reading, cutting and triggering. The trigger is active, and told of what the
/// watch is indexed to.
pub proof fn law_registered_trigger(
    before: Store,
    after: Store,
    watch_id: [u8; 16],
    authorization_id: [u8; 16],
    registered: Result<bool, ManagerError>,
)
    requires
        registers_trigger(before, after, watch_id, authorization_id, registered),
    ensures
        registered is Err ==> after == before,
        registered is Ok ==> {
            &&& row(before.watches@, watch_id) matches Some(watch)
            &&& watch.state == WatchState::Active
            &&& watch.indexed_seq is Some
            &&& row(before.grants@, authorization_id) matches Some(grant)
            &&& grant.watch_id == watch_id
            &&& grant.state == GrantState::Active
            &&& grant.permissions & 0x0b == 0x0b
            &&& after == (Store { triggers: after.triggers, ..before })
            &&& exists|i: int|
                0 <= i < after.triggers@.len() && #[trigger] told_trigger(
                    after.triggers@[i],
                    watch_id,
                    authorization_id,
                    watch.indexed_seq->0,
                )
            &&& registered == Ok::<bool, ManagerError>(
                exists|i: int|
                    0 <= i < before.triggers@.len() && (#[trigger] before.triggers@[i]).watch_id
                        == watch_id && before.triggers@[i].owner_grant_id == authorization_id,
            )
            &&& registered == Ok::<bool, ManagerError>(true) ==> after.triggers@.len()
                == before.triggers@.len()
            &&& registered == Ok::<bool, ManagerError>(false) ==> {
                &&& after.triggers@.len() == before.triggers@.len() + 1
                &&& after.triggers@.last().last_evaluated_seq is None
                &&& after.triggers@.last().run_owner is None
                &&& forall|i: int|
                    0 <= i < before.triggers@.len() ==> #[trigger] after.triggers@[i]
                        == before.triggers@[i]
            }
        },
{
    let picks = trigger_at(watch_id, authorization_id);
    lemma_first(before.triggers@, picks, 0);
    if registered is Ok {
        let sequence = row(before.watches@, watch_id)->0.indexed_seq->0;
        match first(before.triggers@, picks) {
            Some(at) => {
                assert(picks(before.triggers@[at]));
                assert(told_trigger(after.triggers@[at], watch_id, authorization_id, sequence));
            },
            None => {
                let last = after.triggers@.len() - 1;
                assert(told_trigger(after.triggers@[last], watch_id, authorization_id, sequence));
                assert forall|i: int| 0 <= i < before.triggers@.len() implies !((
                #[trigger] before.triggers@[i]).watch_id == watch_id
                    && before.triggers@[i].owner_grant_id == authorization_id) by {
                    assert(!picks(before.triggers@[i]));
                }
            },
        }
    }
}

/// Whether it is the active trigger of the grant on the watch, told of the sequence.
pub open spec fn told_trigger(
    trigger: Trigger,
    watch_id: [u8; 16],
    grant_id: [u8; 16],
    sequence: i64,
) -> bool {
    &&& trigger.watch_id == watch_id
    &&& trigger.owner_grant_id == grant_id
    &&& trigger.state == TriggerState::Active
    &&& trigger.pending_through_seq matches Some(pending)
    &&& pending >= sequence
}

/// A trigger that was taken away is gone, and every other one is still there.
pub proof fn law_deleted_trigger_is_gone(
    before: Store,
    after: Store,
    watch_id: [u8; 16],
    authorization_id: [u8; 16],
    deleted: Result<bool, ManagerError>,
    trigger: Trigger,
)
    requires
        deletes_trigger(before, after, watch_id, authorization_id, deleted),
    ensures
        deleted is Err ==> after == before,
        deleted is Ok ==> after == (Store { triggers: after.triggers, ..before }),
        deleted is Ok ==> (after.triggers@.contains(trigger) <==> before.triggers@.contains(trigger)
            && !(trigger.watch_id == watch_id && trigger.owner_grant_id == authorization_id)),
        deleted is Ok <==> (row(before.grants@, authorization_id) matches Some(grant)
            && grant.watch_id == watch_id && grant.state == GrantState::Active),
{
    law_removing(before.triggers@, trigger_at(watch_id, authorization_id), trigger);
}

/// Whether the trigger can be run for the user: it, its watch and its grant are active,
/// the grant is the user's, and the facade of the watch is up and owned by the grant.
pub open spec fn runs_for(store: Store, trigger: Trigger, uid: u32) -> bool {
    &&& trigger.state == TriggerState::Active
    &&& row(store.watches@, trigger.watch_id) matches Some(watch)
    &&& watch.state == WatchState::Active
    &&& watch.fsmonitor_state != FsmonitorState::Disabled
    &&& watch.view matches Some(view)
    &&& view.owner_grant_id == trigger.owner_grant_id
    &&& row(store.grants@, trigger.owner_grant_id) matches Some(grant)
    &&& grant.state == GrantState::Active
    &&& grant.watch_id == trigger.watch_id
    &&& grant.principal == Principal::Uid(uid as u64)
}

/// A user is shown each watch once that a trigger of theirs can be run on, in the order
/// of the identifiers, and no other.
pub proof fn law_listed_watches(
    store: Store,
    uid: u32,
    watches: Result<Vec<[u8; 16]>, ManagerError>,
    id: [u8; 16],
)
    requires
        lists_watches(store, uid, watches),
    ensures
        watches matches Ok(listed) && (listed@.contains(id) <==> exists|i: int|
            0 <= i < store.triggers@.len() && (#[trigger] store.triggers@[i]).watch_id == id
                && runs_for(store, store.triggers@[i], uid)),
        watches matches Ok(listed) ==> listed@.no_duplicates(),
{
    let listed = watches->Ok_0;
    let picks = serving(store, uid, id);
    if listed@.contains(id) {
        let i = choose|i: int|
            0 <= i < store.triggers@.len() && picks(#[trigger] store.triggers@[i]);
        assert(store.triggers@[i].watch_id == id);
    }
    if exists|i: int|
        0 <= i < store.triggers@.len() && (#[trigger] store.triggers@[i]).watch_id == id
            && runs_for(store, store.triggers@[i], uid) {
        let i = choose|i: int|
            0 <= i < store.triggers@.len() && (#[trigger] store.triggers@[i]).watch_id == id
                && runs_for(store, store.triggers@[i], uid);
        assert(picks(store.triggers@[i]));
    }
    assert forall|i: int, j: int| 0 <= i < listed@.len() && 0 <= j < listed@.len() && i
        != j implies listed@[i] != listed@[j] by {
        law_bytes_order(listed@[i]@, listed@[i]@, listed@[i]@);
        if i < j {
            assert(bytes_less(listed@[i]@, listed@[j]@));
        } else {
            assert(bytes_less(listed@[j]@, listed@[i]@));
        }
    }
}

/// A run is given the root that the facade of its watch shows, where the run is still the
/// trigger's own and can be run for the user.
pub proof fn law_found_root(
    store: Store,
    run: TriggerRun,
    uid: u32,
    root: Result<Vec<u8>, ManagerError>,
    i: int,
)
    requires
        finds_root(store, run, uid, root),
        only_trigger(store, run.watch_id, run.authorization_id, i),
    ensures
        root is Ok <==> {
            &&& runs_for(store, store.triggers@[i], uid)
            &&& store.triggers@[i].run_owner == Some(run.run_owner)
            &&& store.triggers@[i].run_fence == run.run_fence
        },
        root matches Ok(path) ==> path@ == row(store.watches@, run.watch_id)->0.view->0.root@,
{
    lemma_only(store, run.watch_id, run.authorization_id, i);
}

/// A grant has a trigger where both are active. One that was registered is there, and one
/// that was taken away is not.
pub proof fn law_trigger_is_there(
    store: Store,
    watch_id: [u8; 16],
    grant_id: [u8; 16],
    present: Result<bool, ManagerError>,
    i: int,
)
    requires
        has_trigger(store, watch_id, grant_id, present),
    ensures
        present matches Ok(there) && (there ==> (row(store.grants@, grant_id) matches Some(grant)
            && grant.state == GrantState::Active && grant.watch_id == watch_id)),
        only_trigger(store, watch_id, grant_id, i) ==> present == Ok::<bool, ManagerError>(
            store.triggers@[i].state == TriggerState::Active && (row(
                store.grants@,
                grant_id,
            ) matches Some(grant) && grant.state == GrantState::Active && grant.watch_id
                == watch_id),
        ),
        (forall|j: int|
            0 <= j < store.triggers@.len() ==> !((#[trigger] store.triggers@[j]).watch_id
                == watch_id && store.triggers@[j].owner_grant_id == grant_id)) ==> present == Ok::<
            bool,
            ManagerError,
        >(false),
{
    if only_trigger(store, watch_id, grant_id, i) {
        lemma_only(store, watch_id, grant_id, i);
    }
    lemma_first(store.triggers@, trigger_at(watch_id, grant_id), 0);
}

} // verus!
