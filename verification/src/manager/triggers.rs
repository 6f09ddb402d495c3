//! The background snapshot trigger that a grant may have on a watch.

use crate::manager::publish::{later, later_of};
use crate::manager::rows::{
    find_active_grant, grant_active, grant_allows, is_allowed, none_changed, FsmonitorState,
    GrantState, Store, Trigger, TriggerState, WatchState,
};
use crate::manager::table::{count, find, find_first, first, remove, removing, row, some, tally};
use crate::manager::types::{
    holds, row_count_text, ManagerError, Principal, TriggerRun,
};
use crate::ordered::{
    ascending, bytes_less, bytes_precede, insert, key_less, key_set, keys_of, law_bytes_order, Key,
    Keyed,
};
use crate::text::{copy_bytes, same_array};
use vstd::prelude::*;

verus! {

/// What a trigger asks of its grant: to read, to cut and to be triggered.
pub const TRIGGER_PERMISSIONS: u8 = 0x0b;

/// The trigger of the grant on the watch.
pub open spec fn trigger_at(watch_id: [u8; 16], grant_id: [u8; 16]) -> spec_fn(Trigger) -> bool {
    |trigger: Trigger| trigger.watch_id == watch_id && trigger.owner_grant_id == grant_id
}

fn find_trigger(triggers: &Vec<Trigger>, watch_id: &[u8; 16], grant_id: &[u8; 16]) -> (at: Option<
    usize,
>)
    ensures
        match at {
            Some(at) => first(triggers@, trigger_at(*watch_id, *grant_id)) == Some(at as int) && at
                < triggers@.len() && trigger_at(*watch_id, *grant_id)(triggers@[at as int]),
            None => first(triggers@, trigger_at(*watch_id, *grant_id)) is None,
        },
{
    let test = |trigger: &Trigger| -> (picked: bool)
        ensures
            picked == trigger_at(*watch_id, *grant_id)(*trigger),
        {
            same_array(&trigger.watch_id, watch_id) && same_array(
                &trigger.owner_grant_id,
                grant_id,
            )
        };
    find_first(triggers, test, Ghost(trigger_at(*watch_id, *grant_id)))
}

/// The newest indexed sequence of a watch whose grant may be triggered.
pub open spec fn trigger_sequence(store: Store, watch_id: [u8; 16], grant_id: [u8; 16]) -> Result<
    i64,
    Seq<char>,
> {
    match row(store.watches@, watch_id) {
        Some(watch) => if watch.state != WatchState::Active || !grant_allows(
            store.grants@,
            watch_id,
            grant_id,
            TRIGGER_PERMISSIONS,
        ) {
            Err("trigger authorization is not active"@)
        } else {
            match watch.indexed_seq {
                Some(sequence) => Ok(sequence),
                None => Err("Invalid column type Null at index: 0, name: indexed_seq"@),
            }
        },
        None => Err("trigger authorization is not active"@),
    }
}

/// Whether the trigger can serve the user through the facade of its watch.
pub open spec fn trigger_serves(store: Store, trigger: Trigger, uid: u32) -> bool {
    &&& trigger.state == TriggerState::Active
    &&& row(store.watches@, trigger.watch_id) matches Some(watch)
    &&& watch.state == WatchState::Active
    &&& watch.view matches Some(view)
    &&& view.owner_grant_id == trigger.owner_grant_id
    &&& watch.fsmonitor_state != FsmonitorState::Disabled
    &&& row(store.grants@, trigger.owner_grant_id) matches Some(grant)
    &&& grant.watch_id == trigger.watch_id
    &&& grant.state == GrantState::Active
    &&& grant.principal == Principal::Uid(uid as u64)
}

/// The triggers on the watch that can serve the user.
pub open spec fn serving(store: Store, uid: u32, watch_id: [u8; 16]) -> spec_fn(Trigger) -> bool {
    |trigger: Trigger| trigger.watch_id == watch_id && trigger_serves(store, trigger, uid)
}

/// An identifier, ordered by its bytes.
struct Ident {
    id: [u8; 16],
}

impl Keyed for Ident {
    closed spec fn key(&self) -> Key {
        Key { first: 0, second: 0, name: self.id@ }
    }

    fn precedes(&self, other: &Self) -> (less: bool) {
        bytes_precede(&self.id, &other.id)
    }

    fn duplicate(&self) -> (copy: Self) {
        Ident { id: self.id }
    }
}

/// Whether a trigger has something to do and nobody is doing it.
pub open spec fn is_due(store: Store, trigger: Trigger, now_ns: i64) -> bool {
    &&& trigger.state == TriggerState::Active
    &&& row(store.watches@, trigger.watch_id) matches Some(watch)
    &&& watch.state == WatchState::Active
    &&& row(store.grants@, trigger.owner_grant_id) matches Some(grant)
    &&& grant.watch_id == trigger.watch_id
    &&& grant.state == GrantState::Active
    &&& trigger.pending_through_seq matches Some(pending)
    &&& (trigger.last_evaluated_seq matches Some(last) ==> pending > last)
    &&& trigger.run_owner is None || (trigger.run_expires_ns matches Some(expires) && expires
        <= now_ns)
}

/// Whether one trigger is to run before another: the one that ran less often,
/// then the one whose run ended first, then by watch.
pub open spec fn runs_before(left: Trigger, right: Trigger) -> bool {
    let left_expires = match left.run_expires_ns {
        Some(expires) => expires,
        None => 0,
    };
    let right_expires = match right.run_expires_ns {
        Some(expires) => expires,
        None => 0,
    };
    if left.run_fence != right.run_fence {
        left.run_fence < right.run_fence
    } else if left_expires != right_expires {
        left_expires < right_expires
    } else {
        bytes_less(left.watch_id@, right.watch_id@)
    }
}

/// The one of the first `n` triggers that is to run first.
pub open spec fn next_due_before(store: Store, now_ns: i64, n: int) -> Option<int>
    decreases n,
{
    if n <= 0 {
        None
    } else {
        let earlier = next_due_before(store, now_ns, n - 1);
        let trigger = store.triggers@[n - 1];
        if is_due(store, trigger, now_ns) && (earlier is None || runs_before(
            trigger,
            store.triggers@[earlier->0],
        )) {
            Some(n - 1)
        } else {
            earlier
        }
    }
}

/// The trigger that is to run first.
pub open spec fn next_due(store: Store, now_ns: i64) -> Option<int> {
    next_due_before(store, now_ns, store.triggers@.len() as int)
}

fn is_before(left: &Trigger, right: &Trigger) -> (before: bool)
    ensures
        before == runs_before(*left, *right),
{
    let left_expires: i64 = match left.run_expires_ns {
        Some(expires) => expires,
        None => 0,
    };
    let right_expires: i64 = match right.run_expires_ns {
        Some(expires) => expires,
        None => 0,
    };
    if left.run_fence != right.run_fence {
        left.run_fence < right.run_fence
    } else if left_expires != right_expires {
        left_expires < right_expires
    } else {
        bytes_precede(&left.watch_id, &right.watch_id)
    }
}

/// Whether the trigger is in the claimed run.
pub open spec fn runs(trigger: Trigger, run: TriggerRun) -> bool {
    &&& trigger.state == TriggerState::Active
    &&& trigger.run_owner == Some(run.run_owner)
    &&& trigger.run_fence == run.run_fence
}

/// The trigger of a run that is to be finished.
pub open spec fn running(store: Store, run: TriggerRun, succeeded: bool) -> bool {
    match first(store.triggers@, trigger_at(run.watch_id, run.authorization_id)) {
        Some(at) => runs(store.triggers@[at], run) && (succeeded ==> (
        store.triggers@[at].pending_through_seq matches Some(pending) && pending
            >= run.through_sequence)),
        None => false,
    }
}

/// What giving a grant its trigger on a watch does.
pub open spec fn registers_trigger(
    before: Store,
    after: Store,
    watch_id: [u8; 16],
    authorization_id: [u8; 16],
    registered: Result<bool, ManagerError>,
) -> bool {
    match trigger_sequence(before, watch_id, authorization_id) {
        Err(fault) => {
            &&& after == before
            &&& registered matches Err(error)
            &&& error@ == fault
        },
        Ok(sequence) => {
            &&& after == (Store { triggers: after.triggers, ..before })
            &&& match first(
                before.triggers@,
                trigger_at(watch_id, authorization_id),
            ) {
                Some(at) => {
                    let trigger = before.triggers@[at];
                    &&& registered == Ok::<bool, ManagerError>(true)
                    &&& after.triggers@ =~= before.triggers@.update(
                        at,
                        Trigger {
                            state: TriggerState::Active,
                            pending_through_seq: Some(
                                later(trigger.pending_through_seq, sequence),
                            ),
                            ..trigger
                        },
                    )
                },
                None => {
                    &&& registered == Ok::<bool, ManagerError>(false)
                    &&& after.triggers@ =~= before.triggers@.push(
                        Trigger {
                            watch_id,
                            owner_grant_id: authorization_id,
                            state: TriggerState::Active,
                            last_evaluated_seq: None,
                            pending_through_seq: Some(sequence),
                            run_owner: None,
                            run_fence: 0,
                            run_expires_ns: None,
                        },
                    )
                },
            }
        },
    }
}

/// What taking the trigger of a grant on a watch away does.
pub open spec fn deletes_trigger(
    before: Store,
    after: Store,
    watch_id: [u8; 16],
    authorization_id: [u8; 16],
    deleted: Result<bool, ManagerError>,
) -> bool {
    if grant_active(before.grants@, watch_id, authorization_id) {
        &&& after == (Store { triggers: after.triggers, ..before })
        &&& after.triggers@ =~= removing(
            before.triggers@,
            trigger_at(watch_id, authorization_id),
        )
        &&& deleted == Ok::<bool, ManagerError>(
            tally(before.triggers@, trigger_at(watch_id, authorization_id)) == 1,
        )
    } else {
        &&& after == before
        &&& deleted matches Err(error)
        &&& error@ == "trigger authorization is not active"@
    }
}

/// What claiming the trigger that is to run first does.
pub open spec fn claims_run(
    before: Store,
    after: Store,
    run_owner: [u8; 16],
    now_ns: i64,
    run_expires_ns: i64,
    claimed: Result<Option<TriggerRun>, ManagerError>,
) -> bool {
    if run_expires_ns <= now_ns {
        &&& after == before
        &&& claimed matches Err(error)
        &&& error@ == "trigger run expiry must follow its claim time"@
    } else {
        match next_due(before, now_ns) {
            None => after == before && claimed == Ok::<
                Option<TriggerRun>,
                ManagerError,
            >(None),
            Some(at) => {
                let trigger = before.triggers@[at];
                if trigger.run_fence == i64::MAX {
                    &&& after == before
                    &&& claimed matches Err(error)
                    &&& error@ == "trigger run fence overflow"@
                } else {
                    let run_fence = (trigger.run_fence + 1) as i64;
                    &&& after == (Store {
                        triggers: after.triggers,
                        ..before
                    })
                    &&& after.triggers@ =~= before.triggers@.update(
                        at,
                        Trigger {
                            run_owner: Some(run_owner),
                            run_fence,
                            run_expires_ns: Some(run_expires_ns),
                            ..trigger
                        },
                    )
                    &&& claimed == Ok::<Option<TriggerRun>, ManagerError>(
                        Some(
                            TriggerRun {
                                watch_id: trigger.watch_id,
                                authorization_id: trigger.owner_grant_id,
                                through_sequence: trigger.pending_through_seq->0,
                                run_owner,
                                run_fence,
                            },
                        ),
                    )
                }
            },
        }
    }
}

/// What ending a run does.
pub open spec fn finishes_run(
    before: Store,
    after: Store,
    run: TriggerRun,
    succeeded: bool,
    finished: Result<(), ManagerError>,
) -> bool {
    if running(before, run, succeeded) {
        let at = first(
            before.triggers@,
            trigger_at(run.watch_id, run.authorization_id),
        )->0;
        let trigger = before.triggers@[at];
        &&& finished is Ok
        &&& after == (Store { triggers: after.triggers, ..before })
        &&& after.triggers@ =~= before.triggers@.update(
            at,
            Trigger {
                last_evaluated_seq: if succeeded {
                    Some(later(trigger.last_evaluated_seq, run.through_sequence))
                } else {
                    trigger.last_evaluated_seq
                },
                run_owner: None,
                run_expires_ns: None,
                ..trigger
            },
        )
    } else {
        &&& after == before
        &&& finished matches Err(error)
        &&& error@ == row_count_text("finish jj trigger run"@, 0)
    }
}

/// What [`Store::has_fixed_jj_trigger`] says.
pub open spec fn has_trigger(
    store: Store,
    watch_id: [u8; 16],
    authorization_id: [u8; 16],
    present: Result<bool, ManagerError>,
) -> bool {
    present == Ok::<bool, ManagerError>(
        grant_active(store.grants@, watch_id, authorization_id) && match first(
            store.triggers@,
            trigger_at(watch_id, authorization_id),
        ) {
            Some(at) => store.triggers@[at].state == TriggerState::Active,
            None => false,
        },
    )
}

/// What [`Store::active_fixed_jj_trigger_watches`] lists.
pub open spec fn lists_watches(
    store: Store,
    requester_uid: u32,
    watches: Result<Vec<[u8; 16]>, ManagerError>,
) -> bool {
    watches matches Ok(watches) && {
        &&& forall|i: int, j: int|
            0 <= i < j < watches@.len() ==> bytes_less(
                #[trigger] watches@[i]@,
                #[trigger] watches@[j]@,
            )
        &&& forall|id: [u8; 16]| #[trigger]
            watches@.contains(id) <==> some(
                store.triggers@,
                serving(store, requester_uid, id),
            )
    }
}

/// What [`Store::fixed_jj_trigger_root`] finds.
pub open spec fn finds_root(
    store: Store,
    run: TriggerRun,
    requester_uid: u32,
    root: Result<Vec<u8>, ManagerError>,
) -> bool {
    match first(store.triggers@, trigger_at(run.watch_id, run.authorization_id)) {
        Some(at) => if runs(store.triggers@[at], run) && trigger_serves(
            store,
            store.triggers@[at],
            requester_uid,
        ) {
            &&& root matches Ok(root)
            &&& root@ == row(store.watches@, run.watch_id)->0.view->0.root@
        } else {
            &&& root matches Err(error)
            &&& error@ == "trigger run view or authorization is stale"@
        },
        None => {
            &&& root matches Err(error)
            &&& error@ == "trigger run view or authorization is stale"@
        },
    }
}

impl Store {
    /// Gives a grant its trigger on a watch. Says whether it had one.
    pub fn register_fixed_jj_trigger(
        &mut self,
        watch_id: [u8; 16],
        authorization_id: [u8; 16],
    ) -> (registered: Result<bool, ManagerError>)
        ensures
            registers_trigger(*old(self), *final(self), watch_id, authorization_id, registered),
            old(self).well_formed() ==> final(self).well_formed(),
    {
        let watch_at: usize = match find(&self.watches, &watch_id) {
            Some(watch_at) => watch_at,
            None => {
                return Err(ManagerError::new("trigger authorization is not active"));
            },
        };
        if self.watches[watch_at].state != WatchState::Active || !is_allowed(
            &self.grants,
            &watch_id,
            &authorization_id,
            TRIGGER_PERMISSIONS,
        ) {
            return Err(ManagerError::new("trigger authorization is not active"));
        }
        let sequence: i64 = match self.watches[watch_at].indexed_seq {
            Some(sequence) => sequence,
            None => {
                return Err(
                    ManagerError::new("Invalid column type Null at index: 0, name: indexed_seq"),
                );
            },
        };
        match find_trigger(&self.triggers, &watch_id, &authorization_id) {
            Some(at) => {
                let pending: i64 = later_of(self.triggers[at].pending_through_seq, sequence);
                self.triggers[at].state = TriggerState::Active;
                self.triggers[at].pending_through_seq = Some(pending);
                Ok(true)
            },
            None => {
                self.triggers.push(
                    Trigger {
                        watch_id,
                        owner_grant_id: authorization_id,
                        state: TriggerState::Active,
                        last_evaluated_seq: None,
                        pending_through_seq: Some(sequence),
                        run_owner: None,
                        run_fence: 0,
                        run_expires_ns: None,
                    },
                );
                Ok(false)
            },
        }
    }

    /// Whether a grant has an active trigger on a watch.
    pub fn has_fixed_jj_trigger(
        &self,
        watch_id: [u8; 16],
        authorization_id: [u8; 16],
    ) -> (present: Result<bool, ManagerError>)
        ensures
            has_trigger(
                *self,
                watch_id,
                authorization_id,
                present,
            ),
    {
        let active: bool = match find_trigger(&self.triggers, &watch_id, &authorization_id) {
            Some(at) => self.triggers[at].state == TriggerState::Active,
            None => false,
        };
        Ok(active && find_active_grant(&self.grants, &watch_id, &authorization_id).is_some())
    }

    fn serves(&self, trigger: &Trigger, uid: u32) -> (serves: bool)
        ensures
            serves == trigger_serves(*self, *trigger, uid),
    {
        match (
            find(&self.watches, &trigger.watch_id),
            find(&self.grants, &trigger.owner_grant_id),
        ) {
            (Some(watch_at), Some(grant_at)) => match &self.watches[watch_at].view {
                Some(view) => trigger.state == TriggerState::Active && self.watches[watch_at].state
                    == WatchState::Active && same_array(
                    &view.owner_grant_id,
                    &trigger.owner_grant_id,
                ) && self.watches[watch_at].fsmonitor_state != FsmonitorState::Disabled
                    && same_array(&self.grants[grant_at].watch_id, &trigger.watch_id)
                    && self.grants[grant_at].state == GrantState::Active
                    && self.grants[grant_at].principal.is_uid(uid as u64),
                None => false,
            },
            _ => false,
        }
    }

    /// The watches on which a trigger can serve the user, each once, in the
    /// order of their identifiers.
    pub fn active_fixed_jj_trigger_watches(&self, requester_uid: u32) -> (watches: Result<
        Vec<[u8; 16]>,
        ManagerError,
    >)
        ensures
            lists_watches(
                *self,
                requester_uid,
                watches,
            ),
    {
        let mut found: Vec<Ident> = Vec::new();
        let mut at: usize = 0;
        while at < self.triggers.len()
            invariant
                at <= self.triggers.len(),
                ascending(keys_of(found@)),
                forall|key: Key| #[trigger]
                    key_set(found@).contains(key) <==> key.first == 0 && key.second == 0 && exists|
                        i: int,
                    |
                        0 <= i < at && trigger_serves(
                            *self,
                            #[trigger] self.triggers@[i],
                            requester_uid,
                        ) && self.triggers@[i].watch_id@ == key.name,
            decreases self.triggers.len() - at,
        {
            let ghost before = key_set(found@);
            if self.serves(&self.triggers[at], requester_uid) {
                let id: [u8; 16] = self.triggers[at].watch_id;
                insert(&mut found, Ident { id });
                proof {
                    let added = Key { first: 0, second: 0, name: id@ };
                    assert(key_set(found@) == before.insert(added));
                    assert forall|key: Key| #[trigger] key_set(found@).contains(key) implies
                        key.first == 0 && key.second == 0 && exists|i: int|
                        0 <= i < at + 1 && trigger_serves(
                            *self,
                            #[trigger] self.triggers@[i],
                            requester_uid,
                        ) && self.triggers@[i].watch_id@ == key.name by {
                        if key == added {
                            assert(trigger_serves(
                                *self,
                                self.triggers@[at as int],
                                requester_uid,
                            ));
                        } else {
                            assert(before.contains(key));
                        }
                    }
                }
            }
            at += 1;
        }
        let mut watches: Vec<[u8; 16]> = Vec::with_capacity(found.len());
        let mut next: usize = 0;
        while next < found.len()
            invariant
                next <= found.len(),
                watches@.len() == next,
                forall|i: int| 0 <= i < next ==> #[trigger] watches@[i] == found@[i].id,
            decreases found.len() - next,
        {
            watches.push(found[next].id);
            next += 1;
        }
        proof {
            let keys = keys_of(found@);
            assert forall|i: int, j: int| 0 <= i < j < watches@.len() implies bytes_less(
                #[trigger] watches@[i]@,
                #[trigger] watches@[j]@,
            ) by {
                assert(keys[i] == found@[i].key());
                assert(keys[j] == found@[j].key());
                assert(key_less(keys[i], keys[j]));
            }
            assert forall|id: [u8; 16]| #[trigger] watches@.contains(id) <==> some(
                self.triggers@,
                serving(*self, requester_uid, id),
            ) by {
                let key = Key { first: 0, second: 0, name: id@ };
                if watches@.contains(id) {
                    let i = choose|i: int| 0 <= i < watches@.len() && watches@[i] == id;
                    assert(keys[i] == found@[i].key());
                    assert(key_set(found@).contains(keys[i]));
                    assert(keys[i] == key);
                    let n = choose|n: int|
                        0 <= n < at && trigger_serves(
                            *self,
                            #[trigger] self.triggers@[n],
                            requester_uid,
                        ) && self.triggers@[n].watch_id@ == key.name;
                    assert(self.triggers@[n].watch_id =~= id);
                    assert(serving(*self, requester_uid, id)(self.triggers@[n]));
                }
                if some(self.triggers@, serving(*self, requester_uid, id)) {
                    let n = choose|n: int|
                        0 <= n < self.triggers@.len() && serving(*self, requester_uid, id)(
                            #[trigger] self.triggers@[n],
                        );
                    assert(trigger_serves(*self, self.triggers@[n], requester_uid));
                    assert(key_set(found@).contains(key));
                    let i = choose|i: int| 0 <= i < keys.len() && keys[i] == key;
                    assert(keys[i] == found@[i].key());
                    assert(found@[i].id =~= id);
                    assert(watches@[i] == id);
                }
            }
        }
        Ok(watches)
    }

    /// Takes the trigger of a grant on a watch away. Says whether there was
    /// one.
    pub fn delete_fixed_jj_trigger(
        &mut self,
        watch_id: [u8; 16],
        authorization_id: [u8; 16],
    ) -> (deleted: Result<bool, ManagerError>)
        ensures
            deletes_trigger(*old(self), *final(self), watch_id, authorization_id, deleted),
            old(self).well_formed() ==> final(self).well_formed(),
    {
        if find_active_grant(&self.grants, &watch_id, &authorization_id).is_none() {
            return Err(ManagerError::new("trigger authorization is not active"));
        }
        let test = |trigger: &Trigger| -> (picked: bool)
            ensures
                picked == trigger_at(watch_id, authorization_id)(*trigger),
            {
                same_array(&trigger.watch_id, &watch_id) && same_array(
                    &trigger.owner_grant_id,
                    &authorization_id,
                )
            };
        let number: usize = count(
            &self.triggers,
            test,
            Ghost(trigger_at(watch_id, authorization_id)),
        );
        let test = |trigger: &Trigger| -> (picked: bool)
            ensures
                picked == trigger_at(watch_id, authorization_id)(*trigger),
            {
                same_array(&trigger.watch_id, &watch_id) && same_array(
                    &trigger.owner_grant_id,
                    &authorization_id,
                )
            };
        remove(&mut self.triggers, test, Ghost(trigger_at(watch_id, authorization_id)));
        Ok(number == 1)
    }

    fn due(&self, trigger: &Trigger, now_ns: i64) -> (due: bool)
        ensures
            due == is_due(*self, *trigger, now_ns),
    {
        let pending: bool = match (trigger.pending_through_seq, trigger.last_evaluated_seq) {
            (Some(pending), Some(last)) => pending > last,
            (Some(_), None) => true,
            _ => false,
        };
        let lapsed: bool = match trigger.run_expires_ns {
            Some(expires) => expires <= now_ns,
            None => false,
        };
        match (
            find(&self.watches, &trigger.watch_id),
            find(&self.grants, &trigger.owner_grant_id),
        ) {
            (Some(watch_at), Some(grant_at)) => trigger.state == TriggerState::Active
                && self.watches[watch_at].state == WatchState::Active && same_array(
                &self.grants[grant_at].watch_id,
                &trigger.watch_id,
            ) && self.grants[grant_at].state == GrantState::Active && pending && (
            trigger.run_owner.is_none() || lapsed),
            _ => false,
        }
    }

    /// Claims the trigger that is to run first.
    pub fn claim_fixed_jj_trigger(
        &mut self,
        run_owner: [u8; 16],
        now_ns: i64,
        run_expires_ns: i64,
    ) -> (claimed: Result<Option<TriggerRun>, ManagerError>)
        ensures
            claims_run(*old(self), *final(self), run_owner, now_ns, run_expires_ns, claimed),
            old(self).well_formed() ==> final(self).well_formed(),
    {
        if run_expires_ns <= now_ns {
            return Err(ManagerError::new("trigger run expiry must follow its claim time"));
        }
        let mut found: Option<usize> = None;
        let mut at: usize = 0;
        while at < self.triggers.len()
            invariant
                at <= self.triggers.len(),
                *self == *old(self),
                match found {
                    Some(found) => found < at && next_due_before(*self, now_ns, at as int) == Some(
                        found as int,
                    ) && is_due(*self, self.triggers@[found as int], now_ns),
                    None => next_due_before(*self, now_ns, at as int) is None,
                },
            decreases self.triggers.len() - at,
        {
            let earlier: bool = match found {
                Some(found) => is_before(&self.triggers[at], &self.triggers[found]),
                None => true,
            };
            if self.due(&self.triggers[at], now_ns) && earlier {
                found = Some(at);
            }
            at += 1;
        }
        let at: usize = match found {
            Some(found) => found,
            None => {
                return Ok(None);
            },
        };
        let trigger: Trigger = self.triggers[at];
        if trigger.run_fence == i64::MAX {
            return Err(ManagerError::new("trigger run fence overflow"));
        }
        let run_fence: i64 = trigger.run_fence + 1;
        let through_sequence: i64 = match trigger.pending_through_seq {
            Some(pending) => pending,
            None => 0,
        };
        self.triggers[at].run_owner = Some(run_owner);
        self.triggers[at].run_fence = run_fence;
        self.triggers[at].run_expires_ns = Some(run_expires_ns);
        Ok(
            Some(
                TriggerRun {
                    watch_id: trigger.watch_id,
                    authorization_id: trigger.owner_grant_id,
                    through_sequence,
                    run_owner,
                    run_fence,
                },
            ),
        )
    }

    /// Ends a run. What it was claimed through counts as evaluated only where
    /// it succeeded.
    pub fn finish_fixed_jj_trigger(
        &mut self,
        run: &TriggerRun,
        succeeded: bool,
    ) -> (finished: Result<(), ManagerError>)
        ensures
            finishes_run(*old(self), *final(self), *run, succeeded, finished),
            old(self).well_formed() ==> final(self).well_formed(),
    {
        let at: usize = match find_trigger(&self.triggers, &run.watch_id, &run.authorization_id) {
            Some(at) => at,
            None => {
                return Err(none_changed("finish jj trigger run"));
            },
        };
        let trigger: Trigger = self.triggers[at];
        let covered: bool = match trigger.pending_through_seq {
            Some(pending) => pending >= run.through_sequence,
            None => false,
        };
        if trigger.state != TriggerState::Active || !holds(&trigger.run_owner, &run.run_owner)
            || trigger.run_fence != run.run_fence || (succeeded && !covered) {
            return Err(none_changed("finish jj trigger run"));
        }
        if succeeded {
            let last: i64 = later_of(trigger.last_evaluated_seq, run.through_sequence);
            self.triggers[at].last_evaluated_seq = Some(last);
        }
        self.triggers[at].run_owner = None;
        self.triggers[at].run_expires_ns = None;
        Ok(())
    }

    /// Where the user sees the watch of a run.
    pub fn fixed_jj_trigger_root(&self, run: &TriggerRun, requester_uid: u32) -> (root: Result<
        Vec<u8>,
        ManagerError,
    >)
        ensures
            finds_root(
                *self,
                *run,
                requester_uid,
                root,
            ),
    {
        match find_trigger(&self.triggers, &run.watch_id, &run.authorization_id) {
            Some(at) => {
                let trigger = &self.triggers[at];
                if trigger.state == TriggerState::Active && holds(
                    &trigger.run_owner,
                    &run.run_owner,
                ) && trigger.run_fence == run.run_fence && self.serves(trigger, requester_uid) {
                    match find(&self.watches, &run.watch_id) {
                        Some(watch_at) => {
                            match &self.watches[watch_at].view {
                                Some(view) => {
                                    return Ok(copy_bytes(&view.root));
                                },
                                None => {},
                            }
                        },
                        None => {},
                    }
                }
            },
            None => {},
        }
        Err(ManagerError::new("trigger run view or authorization is stale"))
    }
}

proof fn lemma_next_due(store: Store, now_ns: i64, n: int, i: int)
    requires
        0 <= i < n <= store.triggers@.len(),
        is_due(store, store.triggers@[i], now_ns),
    ensures
        next_due_before(store, now_ns, n) matches Some(at) && 0 <= at < n && is_due(
            store,
            store.triggers@[at],
            now_ns,
        ) && !runs_before(store.triggers@[i], store.triggers@[at]),
    decreases n,
{
    let trigger = store.triggers@[n - 1];
    let earlier = next_due_before(store, now_ns, n - 1);
    lemma_next_due_is_due(store, now_ns, n - 1);
    if i < n - 1 {
        lemma_next_due(store, now_ns, n - 1, i);
        let before = store.triggers@[earlier->0];
        law_bytes_order(trigger.watch_id@, before.watch_id@, store.triggers@[i].watch_id@);
        law_bytes_order(store.triggers@[i].watch_id@, trigger.watch_id@, before.watch_id@);
    } else {
        law_bytes_order(trigger.watch_id@, trigger.watch_id@, trigger.watch_id@);
    }
}

proof fn lemma_next_due_is_due(store: Store, now_ns: i64, n: int)
    requires
        0 <= n <= store.triggers@.len(),
    ensures
        next_due_before(store, now_ns, n) matches Some(at) ==> 0 <= at < n && is_due(
            store,
            store.triggers@[at],
            now_ns,
        ),
    decreases n,
{
    if n > 0 {
        lemma_next_due_is_due(store, now_ns, n - 1);
    }
}

/// The trigger that runs first is one that is due, and no other that is due is
/// to run before it: in particular none that ran less often.
pub proof fn law_least_run_trigger_is_next(store: Store, now_ns: i64, i: int)
    requires
        0 <= i < store.triggers@.len(),
        is_due(store, store.triggers@[i], now_ns),
    ensures
        next_due(store, now_ns) matches Some(at) && 0 <= at < store.triggers@.len() && is_due(
            store,
            store.triggers@[at],
            now_ns,
        ) && !runs_before(store.triggers@[i], store.triggers@[at])
            && store.triggers@[at].run_fence <= store.triggers@[i].run_fence,
{
    lemma_next_due(store, now_ns, store.triggers@.len() as int, i);
}

} // verus!
