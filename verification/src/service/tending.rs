//! Whose history is looked after, whose cut is confirmed, and whose view is offered.

use crate::manager::cutting::{law_asked_about_cut, still_waits};
use crate::manager::cuts::polls_admission;
use crate::manager::facade::{activates_facade, finalizes_seed};
use crate::manager::facing::{law_facade_is_put_up, law_seed_becomes_a_boundary, up};
use crate::manager::rows::{Store, Watch, WatchState};
use crate::manager::types::{
    CutAdmission, FacadeActivation, ManagerError, ProvedWorktreeSeed, PublishedCut,
    TrackedWorktree,
};
use crate::names::{
    is_hex_digit, managed_object_name, names_object, CUT_PREFIX, INITIALIZE_PREFIX,
    WORKTREE_PREFIX,
};
use crate::namespace::NamespaceMonitor;
use crate::service::collect::{
    law_history_is_in_turn, looked_after, span_missing, span_order, spans, HistorySpan,
};
use crate::service::config::{ServiceError, WorktreeViewHandoff};
use crate::service::cut::confirms_cut;
use crate::service::flow::{KeptHandoff, Service};
use crate::service::recover::missing_from;
use crate::service::worktree::{
    keeping, kept_at, offers_view, seeds_view, takes_down, ViewEpochs,
};
use crate::spelling::{law_names_say_what_they_are_for, said};
use vstd::prelude::*;

verus! {

/// The history of every watch that is active or blocked is looked after, from its floor to
/// what it is indexed to, and that of no other watch.
pub proof fn law_histories_are_looked_after(store: Store, listed: Seq<HistorySpan>, i: int)
    requires
        spans(store) == Ok::<Seq<HistorySpan>, Seq<char>>(listed),
    ensures
        0 <= i < store.watches@.len() && (store.watches@[i].state == WatchState::Active
            || store.watches@[i].state == WatchState::Blocked) ==> exists|k: int|
            0 <= k < listed.len() && #[trigger] spans_watch(listed[k], store.watches@[i]),
        forall|k: int| 0 <= k < listed.len() ==> spans_some_watch(#[trigger] listed[k], store),
{
    law_history_is_in_turn(store);
    let order = span_order(store);
    lemma_none_missing(store.watches@, order, 0);
    assert forall|k: int| 0 <= k < listed.len() implies spans_watch(
        #[trigger] listed[k],
        store.watches@[order[k]],
    ) && looked_after()(store.watches@[order[k]]) && 0 <= order[k] < store.watches@.len() by {
        assert(order.contains(order[k]));
        assert(span_missing()(store.watches@[order[k]]) is None);
    }
    assert forall|k: int| 0 <= k < listed.len() implies spans_some_watch(
        #[trigger] listed[k],
        store,
    ) by {
        assert(spans_watch(listed[k], store.watches@[order[k]]));
    }
    if 0 <= i < store.watches@.len() && looked_after()(store.watches@[i]) {
        assert(order.contains(i));
        let k = choose|k: int| 0 <= k < order.len() && order[k] == i;
        assert(spans_watch(listed[k], store.watches@[i]));
    }
}

/// Whether the span is that of a watch that is active or blocked.
pub open spec fn spans_some_watch(span: HistorySpan, store: Store) -> bool {
    exists|j: int|
        0 <= j < store.watches@.len() && (store.watches@[j].state == WatchState::Active
            || store.watches@[j].state == WatchState::Blocked) && #[trigger] spans_watch(
            span,
            store.watches@[j],
        )
}

/// Whether the span is that of the watch.
pub open spec fn spans_watch(span: HistorySpan, watch: Watch) -> bool {
    &&& span.watch_id == watch.id
    &&& watch.replay_floor_seq == Some(span.floor)
    &&& watch.indexed_seq == Some(span.indexed)
}

proof fn lemma_none_missing(watches: Seq<Watch>, order: Seq<int>, at: int)
    requires
        0 <= at <= order.len(),
        missing_from(watches, order, span_missing(), at) is None,
    ensures
        forall|k: int|
            at <= k < order.len() ==> span_missing()(watches[#[trigger] order[k]]) is None,
    decreases order.len() - at,
{
    if at < order.len() {
        lemma_none_missing(watches, order, at + 1);
    }
}

/// A cut is confirmed only once its caller waits no more.
pub proof fn law_confirmed_cut(
    store: Store,
    admission: CutAdmission,
    now_ns: i64,
    confirmed: Result<PublishedCut, ServiceError>,
)
    requires
        confirms_cut(store, admission, now_ns, confirmed),
    ensures
        confirmed matches Ok(cut) ==> !still_waits(store, admission) && exists|i: int|
            0 <= i < store.cuts@.len() && (#[trigger] store.cuts@[i]).operation_id
                == admission.reservation.operation_id && store.cuts@[i].sequence == cut.sequence
                && store.cuts@[i].watch_id == cut.watch_id,
{
    if let Ok(cut) = confirmed {
        let polled = choose|polled: Result<Option<PublishedCut>, ManagerError>| #[trigger]
            polls_admission(store, admission, now_ns, polled) && match polled {
                Err(fault) => confirmed is Err,
                Ok(None) => confirmed is Err,
                Ok(Some(cut)) => confirmed == Ok::<PublishedCut, ServiceError>(cut),
            };
        law_asked_about_cut(store, admission, now_ns, polled);
    }
}

proof fn lemma_kept_place(handoffs: Seq<KeptHandoff>, watch_id: [u8; 16], from: int)
    requires
        0 <= from <= handoffs.len(),
    ensures
        match kept_at(handoffs, watch_id, from) {
            Some(at) => from <= at < handoffs.len() && handoffs[at].watch_id == watch_id,
            None => forall|i: int|
                from <= i < handoffs.len() ==> (#[trigger] handoffs[i]).watch_id != watch_id,
        },
    decreases handoffs.len() - from,
{
    if from < handoffs.len() && handoffs[from].watch_id != watch_id {
        lemma_kept_place(handoffs, watch_id, from + 1);
    }
}

/// The view of a new worktree is offered only with a facade that is up and a seed that was
/// proved: it is kept for the watch, under the grant. Where either fails, no view is kept
/// anew.
pub proof fn law_offered_view(
    before: Service,
    after: Service,
    middle: Store,
    child: TrackedWorktree,
    monitor: NamespaceMonitor,
    epochs: ViewEpochs,
)
    requires
        offers_view(before, after, middle, child, Some(monitor), epochs),
    ensures
        after.worktree_view_handoffs == before.worktree_view_handoffs || exists|i: int|
            0 <= i < after.worktree_view_handoffs@.len() && #[trigger] offered(
                after,
                after.worktree_view_handoffs@[i],
                child,
                monitor,
                epochs,
            ),
{
    let (first, inner) = choose|first: Store, inner: Result<FacadeActivation, ManagerError>|
        #[trigger] activates_facade(
            middle,
            first,
            child.watch_id,
            child.grant_id,
            monitor.bound(),
            epochs.activated,
            inner,
        ) && match inner {
            Ok(activation) => seeds_view(
                before,
                after,
                first,
                child,
                monitor,
                activation,
                epochs.invalidated,
            ),
            Err(_) => after.store == first && after.worktree_view_handoffs
                == before.worktree_view_handoffs,
        };
    if let Ok(activation) = inner {
        law_facade_is_put_up(
            middle,
            first,
            child.watch_id,
            child.grant_id,
            monitor.bound(),
            epochs.activated,
            inner,
        );
        let (second, seeded) = choose|
            second: Store,
            seeded: Result<ProvedWorktreeSeed, ManagerError>,
        |
            #[trigger] finalizes_seed(first, second, activation, monitor.bound(), seeded)
                && match seeded {
                Ok(seed) => after.store == second && after.worktree_view_handoffs@ == keeping(
                    before.worktree_view_handoffs@,
                    child.watch_id,
                    WorktreeViewHandoff {
                        authorization_id: child.grant_id,
                        activation,
                        monitor,
                        snapshot_uuid: seed.snapshot_uuid,
                    },
                ),
                Err(_) => takes_down(second, after.store, activation, epochs.invalidated)
                    && after.worktree_view_handoffs == before.worktree_view_handoffs,
            };
        if seeded is Ok {
            law_seed_becomes_a_boundary(first, second, activation, monitor.bound(), seeded);
            lemma_kept_place(before.worktree_view_handoffs@, child.watch_id, 0);
            let i = match kept_at(before.worktree_view_handoffs@, child.watch_id, 0) {
                Some(at) => at,
                None => before.worktree_view_handoffs@.len() as int,
            };
            assert(offered(after, after.worktree_view_handoffs@[i], child, monitor, epochs));
        }
    }
}

/// Whether the view is the one of the new worktree, whose facade is up.
pub open spec fn offered(
    service: Service,
    kept: KeptHandoff,
    child: TrackedWorktree,
    monitor: NamespaceMonitor,
    epochs: ViewEpochs,
) -> bool {
    &&& kept.watch_id == child.watch_id
    &&& kept.handoff.authorization_id == child.grant_id
    &&& kept.handoff.monitor == monitor
    &&& kept.handoff.activation.watch_id == child.watch_id
    &&& kept.handoff.activation.authorization_id == child.grant_id
    &&& kept.handoff.activation.clock_epoch == epochs.activated
    &&& kept.handoff.activation.monitor_session_id == monitor.bound().monitor_session_id
    &&& up(service.store, kept.handoff.activation)
}

/// An entry of the managed directory has the name of an object of the service only where it
/// is one of three words with thirty-two hexadecimal digits behind it.
pub proof fn law_managed_names(name: Seq<u8>)
    ensures
        managed_object_name(name) ==> exists|word: Seq<u8>, id: Seq<u8>|
            #![trigger word + id]
            name == word + id && id.len() == 32 && (word == said("cut-initialize-"@) || word
                == said("cut-"@) || word == said("worktree-"@)) && forall|i: int|
                0 <= i < 32 ==> is_hex_digit(#[trigger] id[i]),
{
    law_names_say_what_they_are_for();
    if managed_object_name(name) {
        let word = if names_object(name, INITIALIZE_PREFIX@) {
            INITIALIZE_PREFIX@
        } else if names_object(name, CUT_PREFIX@) {
            CUT_PREFIX@
        } else {
            WORKTREE_PREFIX@
        };
        let id = name.skip(word.len() as int);
        assert(name =~= word + id);
    }
}

} // verus!
