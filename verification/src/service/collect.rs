//! Letting go of history and of the snapshots that only it needed.

use crate::digest::all_drawn;
use crate::manager::compact::RevisionReport;
use crate::manager::floor::{compacts, floor_of, moves_floor, truncates};
use crate::manager::retention::{
    expires_leases, finishes_delete, records_delete, reserves_deletes, starts_delete,
};
use crate::manager::rows::{Operation, OperationKind, OperationState, Store, Watch, WatchState};
use crate::manager::table::{
    arrange, arranged, in_turn, law_arranged_in_order, lemma_slot, places,
};
use crate::manager::types::{ManagerError, SnapshotDeleteReservation};
use crate::ordered::{bytes_less, bytes_precede, law_bytes_order};
use crate::paths::{file_name, last_name, lies_in, parent_is};
use crate::service::checks::{is_recorded, verify_recorded_snapshot, ExpectedSubvolume};
use crate::service::config::{expiry_of, lease_expiry, ServiceConfig, ServiceError};
use crate::service::decode::RecoveringSnapshotDelete;
use crate::service::flow::{carries, carry, Service};
use crate::service::recover::missing_from;
use crate::text::{in_context, is_text, same_array};
use vstd::prelude::*;

verus! {

/// How much history a watch keeps: from its floor to what is indexed.
#[derive(Clone, Copy, Debug, Eq, PartialEq)]
pub struct HistorySpan {
    pub watch_id: [u8; 16],
    pub floor: i64,
    pub indexed: i64,
}

/// The number, brought into range.
pub open spec fn clamped(value: int) -> i64 {
    if value > i64::MAX {
        i64::MAX
    } else if value < i64::MIN {
        i64::MIN
    } else {
        value as i64
    }
}

fn take_away(value: i64, by: i64) -> (rest: i64)
    ensures
        rest == clamped(value - by),
{
    let rest: i128 = value as i128 - by as i128;
    if rest > i64::MAX as i128 {
        i64::MAX
    } else if rest < i64::MIN as i128 {
        i64::MIN
    } else {
        rest as i64
    }
}

/// The larger of two numbers.
pub open spec fn larger(left: i64, right: i64) -> i64 {
    if left > right {
        left
    } else {
        right
    }
}

/// The watches whose history is looked after.
pub open spec fn looked_after() -> spec_fn(Watch) -> bool {
    |watch: Watch| watch.state == WatchState::Active || watch.state == WatchState::Blocked
}

/// Whether a watch has a lower identifier than another.
pub open spec fn id_earlier() -> spec_fn(Watch, Watch) -> bool {
    |left: Watch, right: Watch| bytes_less(left.id@, right.id@)
}

/// What is missing in the watch.
pub open spec fn span_missing() -> spec_fn(Watch) -> Option<Seq<char>> {
    |watch: Watch|
        match (watch.replay_floor_seq, watch.indexed_seq) {
            (None, _) => Some(
                in_context(
                    "decode history maintenance"@,
                    "Invalid column type Null at index: 1, name: replay_floor_seq"@,
                ),
            ),
            (_, None) => Some(
                in_context(
                    "decode history maintenance"@,
                    "Invalid column type Null at index: 2, name: indexed_seq"@,
                ),
            ),
            _ => None,
        }
}

/// The history of a watch that is complete.
pub open spec fn span_of(watch: Watch) -> HistorySpan {
    HistorySpan {
        watch_id: watch.id,
        floor: watch.replay_floor_seq->0,
        indexed: watch.indexed_seq->0,
    }
}

/// The places of the watches whose history is looked after, by identifier.
pub open spec fn span_order(store: Store) -> Seq<int> {
    arranged(store.watches@, looked_after(), id_earlier(), store.watches@.len() as int)
}

/// The history of every watch that keeps any is looked after once, in the order
/// of the identifiers.
pub proof fn law_history_is_in_turn(store: Store)
    ensures
        in_turn(store.watches@, looked_after(), id_earlier(), span_order(store)),
{
    let earlier = id_earlier();
    assert forall|a: Watch, b: Watch, c: Watch| #[trigger]
        earlier(a, b) && #[trigger] earlier(b, c) implies earlier(a, c) by {
        law_bytes_order(a.id@, b.id@, c.id@);
    }
    assert forall|a: Watch| !(#[trigger] earlier(a, a)) by {
        law_bytes_order(a.id@, a.id@, a.id@);
    }
    law_arranged_in_order(store.watches@, looked_after(), earlier, store.watches@.len() as int);
}

/// The history that is looked after, or what is missing.
pub open spec fn spans(store: Store) -> Result<Seq<HistorySpan>, Seq<char>> {
    let order = span_order(store);
    match missing_from(store.watches@, order, span_missing(), 0) {
        Some(fault) => Err(fault),
        None => Ok(Seq::new(order.len(), |i: int| span_of(store.watches@[order[i]]))),
    }
}

/// The cuts of a watch that were published by then, up to the sequence.
pub open spec fn settled_cuts(watch_id: [u8; 16], limit: i64, cutoff_ns: i64) -> spec_fn(
    Operation,
) -> bool {
    |operation: Operation|
        operation.watch_id == watch_id && operation.kind == OperationKind::Cut && operation.state
            == OperationState::Done && operation.updated_ns <= cutoff_ns
            && (operation.sequence matches Some(sequence) && sequence <= limit)
}

/// The highest sequence of the picked operations among the first `n`.
pub open spec fn latest_before(
    operations: Seq<Operation>,
    picks: spec_fn(Operation) -> bool,
    n: int,
) -> Option<i64>
    decreases n,
{
    if n <= 0 {
        None
    } else {
        let earlier = latest_before(operations, picks, n - 1);
        if picks(operations[n - 1]) {
            match earlier {
                Some(sequence) => Some(larger(sequence, operations[n - 1].sequence->0)),
                None => operations[n - 1].sequence,
            }
        } else {
            earlier
        }
    }
}

/// The sequence that the history of a watch is kept from: the latest cut that
/// lies both before the newest cuts that are kept and before the time that is
/// kept, but never below the floor.
pub open spec fn floor_target(
    store: Store,
    config: ServiceConfig,
    span: HistorySpan,
    now_ns: i64,
) -> i64 {
    let limit = larger(clamped(span.indexed - config.replay_window_cuts), span.floor);
    let cutoff_ns = clamped(now_ns - config.replay_window_ns);
    match latest_before(
        store.operations@,
        settled_cuts(span.watch_id, limit, cutoff_ns),
        store.operations@.len() as int,
    ) {
        Some(sequence) => larger(sequence, span.floor),
        None => span.floor,
    }
}

/// What moving the floor of a watch there does.
pub open spec fn advances(
    before: Store,
    after: Store,
    owner: [u8; 16],
    span: HistorySpan,
    target: i64,
    now_ns: i64,
    report: RevisionReport,
    reclaimed: Result<usize, ServiceError>,
) -> bool {
    exists|inner: Result<usize, ManagerError>| #[trigger]
        moves_floor(before, after, span.watch_id, target, now_ns, owner, report, inner) && carries(
            inner,
            reclaimed,
            "advance replay retention floor"@,
        )
}

/// What looking after the history of a watch does.
pub open spec fn maintains_watch(
    before: Store,
    after: Store,
    config: ServiceConfig,
    owner: [u8; 16],
    span: HistorySpan,
    now_ns: i64,
    report: RevisionReport,
    reclaimed: Result<usize, ServiceError>,
) -> bool {
    let target = floor_target(before, config, span, now_ns);
    if target > span.floor {
        advances(before, after, owner, span, target, now_ns, report, reclaimed)
    } else {
        after == before && reclaimed == Ok::<usize, ServiceError>(0)
    }
}

/// The sum of the numbers.
pub open spec fn sum_of(counts: Seq<usize>) -> nat
    decreases counts.len(),
{
    if counts.len() == 0 {
        0
    } else {
        sum_of(counts.drop_last()) + counts.last() as nat
    }
}

/// Whether looking after the histories one by one runs through the states,
/// giving the counts.
pub open spec fn runs_through(
    states: Seq<Store>,
    counts: Seq<usize>,
    config: ServiceConfig,
    owner: [u8; 16],
    spans: Seq<HistorySpan>,
    now_ns: i64,
    reports: Seq<RevisionReport>,
) -> bool {
    &&& states.len() == counts.len() + 1
    &&& counts.len() <= spans.len()
    &&& forall|i: int|
        0 <= i < counts.len() ==> maintains_watch(
            states[i],
            states[i + 1],
            config,
            owner,
            spans[i],
            now_ns,
            reports[i],
            Ok::<usize, ServiceError>(#[trigger] counts[i]),
        )
}

/// What looking after the histories does. The first failure ends it.
pub open spec fn maintains(
    before: Store,
    after: Store,
    config: ServiceConfig,
    owner: [u8; 16],
    spans: Seq<HistorySpan>,
    now_ns: i64,
    reports: Seq<RevisionReport>,
    reclaimed: Result<usize, ServiceError>,
) -> bool {
    exists|states: Seq<Store>, counts: Seq<usize>| #[trigger]
        runs_through(states, counts, config, owner, spans, now_ns, reports) && states[0] == before
            && match reclaimed {
            Ok(total) => counts.len() == spans.len() && after == states.last() && total == sum_of(
                counts,
            ),
            Err(_) => counts.len() < spans.len() && maintains_watch(
                states.last(),
                after,
                config,
                owner,
                spans[counts.len() as int],
                now_ns,
                reports[counts.len() as int],
                reclaimed,
            ),
        }
}

/// What looking after all history does.
pub open spec fn maintains_history(
    before: Store,
    after: Store,
    config: ServiceConfig,
    owner: [u8; 16],
    now_ns: i64,
    reports: Seq<RevisionReport>,
    reclaimed: Result<usize, ServiceError>,
) -> bool {
    match spans(before) {
        Err(fault) => {
            &&& after == before
            &&& reclaimed matches Err(error)
            &&& error@ == fault
        },
        Ok(spans) => maintains(before, after, config, owner, spans, now_ns, reports, reclaimed),
    }
}

/// What reserving snapshots to collect does.
pub open spec fn reserves_collection(
    before: Store,
    after: Store,
    owner: [u8; 16],
    now_ns: i64,
    expires_ns: i64,
    limit: nat,
    reserved: Result<Vec<SnapshotDeleteReservation>, ServiceError>,
) -> bool {
    exists|ids: Seq<[u8; 16]>, inner: Result<Vec<SnapshotDeleteReservation>, ManagerError>|
        all_drawn(ids) && #[trigger] reserves_deletes(
            before,
            after,
            owner,
            now_ns,
            expires_ns,
            limit,
            ids,
            inner,
        ) && carries(inner, reserved, "reserve snapshot GC"@)
}

/// What goes on with a collection once the leases that ran out are gone.
pub open spec fn collects_maintained(
    middle: Store,
    after: Store,
    config: ServiceConfig,
    owner: [u8; 16],
    now_ns: i64,
    limit: nat,
    reports: Seq<RevisionReport>,
    reserved: Result<Vec<SnapshotDeleteReservation>, ServiceError>,
) -> bool {
    exists|kept: Store, reclaimed: Result<usize, ServiceError>| #[trigger]
        maintains_history(middle, kept, config, owner, now_ns, reports, reclaimed)
            && match reclaimed {
            Err(fault) => {
                &&& after == kept
                &&& reserved matches Err(error)
                &&& error@ == fault@
            },
            Ok(_) => match expiry_of(now_ns, config.lease_ns) {
                Err(fault) => {
                    &&& after == kept
                    &&& reserved matches Err(error)
                    &&& error@ == fault
                },
                Ok(expires_ns) => reserves_collection(
                    kept,
                    after,
                    owner,
                    now_ns,
                    expires_ns,
                    limit,
                    reserved,
                ),
            },
        }
}

/// What beginning a collection does.
pub open spec fn begins_collection(
    before: Service,
    after: Service,
    now_ns: i64,
    limit: nat,
    reports: Seq<RevisionReport>,
    reserved: Result<Vec<SnapshotDeleteReservation>, ServiceError>,
) -> bool {
    &&& after == (Service { store: after.store, ..before })
    &&& exists|middle: Store, ended: Result<usize, ManagerError>| #[trigger]
        expires_leases(before.store, middle, now_ns, ended) && collects_maintained(
            middle,
            after.store,
            before.config,
            before.lease_owner,
            now_ns,
            limit,
            reports,
            reserved,
        )
}

/// What crossing the boundary of a deletion does.
pub open spec fn starts_collection(
    before: Store,
    after: Store,
    reservation: SnapshotDeleteReservation,
    owner: [u8; 16],
    now_ns: i64,
    started: Result<(), ServiceError>,
) -> bool {
    exists|inner: Result<(), ManagerError>| #[trigger]
        starts_delete(before, after, reservation, owner, now_ns, inner) && carries(
            inner,
            started,
            "start snapshot GC effect"@,
        )
}

/// What recording a deletion does that gave the subvolume.
pub open spec fn records_collection(
    before: Store,
    after: Store,
    reservation: SnapshotDeleteReservation,
    owner: [u8; 16],
    deleted_uuid: [u8; 16],
    now_ns: i64,
    recorded: Result<(), ServiceError>,
) -> bool {
    if deleted_uuid != reservation.identity.subvol_uuid {
        &&& after == before
        &&& recorded matches Err(error)
        &&& error@ == "snapshot-delete receipt returned the wrong subvolume UUID"@
    } else {
        exists|inner: Result<(), ManagerError>| #[trigger]
            records_delete(before, after, reservation, owner, now_ns, inner) && carries(
                inner,
                recorded,
                "record durable snapshot GC"@,
            )
    }
}

/// What finishing a deletion does.
pub open spec fn finishes_collection(
    before: Store,
    after: Store,
    reservation: SnapshotDeleteReservation,
    owner: [u8; 16],
    now_ns: i64,
    step: Seq<char>,
    finished: Result<(), ServiceError>,
) -> bool {
    exists|inner: Result<(), ManagerError>| #[trigger]
        finishes_delete(before, after, reservation, owner, now_ns, inner) && carries(
            inner,
            finished,
            step,
        )
}

/// How a deletion is taken up that an earlier process began.
#[derive(Clone, Copy, Debug, Eq, PartialEq, Structural)]
pub enum DeleteResume {
    /// The effect may be missing.
    Execute,
    /// Only the record is missing.
    Finish,
}

fn find_span_missing(watch: &Watch) -> (missing: Option<ServiceError>)
    ensures
        match missing {
            Some(error) => span_missing()(*watch) == Some(error@),
            None => span_missing()(*watch) is None,
        },
{
    if watch.replay_floor_seq.is_none() {
        return Some(
            ServiceError::context(
                "decode history maintenance",
                "Invalid column type Null at index: 1, name: replay_floor_seq",
            ),
        );
    }
    if watch.indexed_seq.is_none() {
        return Some(
            ServiceError::context(
                "decode history maintenance",
                "Invalid column type Null at index: 2, name: indexed_seq",
            ),
        );
    }
    None
}

fn find_latest(
    operations: &Vec<Operation>,
    watch_id: &[u8; 16],
    limit: i64,
    cutoff_ns: i64,
) -> (latest: Option<i64>)
    ensures
        latest == latest_before(
            operations@,
            settled_cuts(*watch_id, limit, cutoff_ns),
            operations@.len() as int,
        ),
{
    let mut latest: Option<i64> = None;
    let mut at: usize = 0;
    while at < operations.len()
        invariant
            at <= operations@.len(),
            latest == latest_before(
                operations@,
                settled_cuts(*watch_id, limit, cutoff_ns),
                at as int,
            ),
        decreases operations.len() - at,
    {
        let operation = &operations[at];
        if let Some(sequence) = operation.sequence {
            if same_array(&operation.watch_id, watch_id) && operation.kind == OperationKind::Cut
                && operation.state == OperationState::Done && operation.updated_ns <= cutoff_ns
                && sequence <= limit {
                latest = match latest {
                    Some(other) => if other > sequence {
                        Some(other)
                    } else {
                        Some(sequence)
                    },
                    None => Some(sequence),
                };
            }
        }
        at += 1;
    }
    latest
}

/// The number that moving a floor gives is that of the revisions that went.
proof fn lemma_reclaimed(
    before: Store,
    after: Store,
    watch_id: [u8; 16],
    new_floor: i64,
    now_ns: i64,
    owner: [u8; 16],
    report: RevisionReport,
    reclaimed: Result<usize, ManagerError>,
)
    requires
        moves_floor(before, after, watch_id, new_floor, now_ns, owner, report, reclaimed),
    ensures
        reclaimed matches Ok(number) ==> number + after.revisions@.len()
            == before.revisions@.len(),
{
    if reclaimed is Ok && floor_of(before, watch_id)->Ok_0.0 != new_floor {
        let revision_id = floor_of(before, watch_id)->Ok_0.2;
        let middle = choose|middle: Store| #[trigger]
            compacts(before, middle, revision_id, owner, report.digest->Ok_0) && truncates(
                middle,
                after,
                watch_id,
                new_floor,
                now_ns,
            ) && reclaimed->Ok_0 == middle.revisions@.len() - after.revisions@.len();
        lemma_slot(before.revisions@, revision_id, 0);
        assert(middle.revisions@.len() == before.revisions@.len());
    }
}

impl Service {
    /// The history that is looked after, by watch.
    pub fn history_spans(&self) -> (found: Result<Vec<HistorySpan>, ServiceError>)
        ensures
            match found {
                Ok(found) => spans(self.store) == Ok::<Seq<HistorySpan>, Seq<char>>(found@),
                Err(error) => spans(self.store) == Err::<Seq<HistorySpan>, Seq<char>>(error@),
            },
    {
        let test = |watch: &Watch| -> (picked: bool)
            ensures
                picked == looked_after()(*watch),
            { watch.state == WatchState::Active || watch.state == WatchState::Blocked };
        let less = |left: &Watch, right: &Watch| -> (found: bool)
            ensures
                found == id_earlier()(*left, *right),
            { bytes_precede(&left.id, &right.id) };
        let order = arrange(
            &self.store.watches,
            test,
            Ghost(looked_after()),
            less,
            Ghost(id_earlier()),
        );
        let ghost watches = self.store.watches@;
        let ghost sought = span_order(self.store);
        let mut found: Vec<HistorySpan> = Vec::new();
        let mut at: usize = 0;
        while at < order.len()
            invariant
                at <= order@.len(),
                watches == self.store.watches@,
                sought == span_order(self.store),
                places(order@) == sought,
                forall|i: int| 0 <= i < order@.len() ==> #[trigger] order@[i] < watches.len(),
                found@ =~= Seq::new(at as nat, |i: int| span_of(watches[sought[i]])),
                missing_from(watches, sought, span_missing(), 0) == missing_from(
                    watches,
                    sought,
                    span_missing(),
                    at as int,
                ),
            decreases order.len() - at,
        {
            let place: usize = order[at];
            assert(sought[at as int] == place);
            match find_span_missing(&self.store.watches[place]) {
                Some(error) => {
                    return Err(error);
                },
                None => {},
            }
            let watch = &self.store.watches[place];
            if let (Some(floor), Some(indexed)) = (watch.replay_floor_seq, watch.indexed_seq) {
                found.push(HistorySpan { watch_id: watch.id, floor, indexed });
            }
            at += 1;
        }
        Ok(found)
    }

    /// The sequence that the history of a watch is kept from.
    pub fn target_floor(&self, span: &HistorySpan, now_ns: i64) -> (target: i64)
        ensures
            target == floor_target(self.store, self.config, *span, now_ns),
    {
        let cutoff_ns: i64 = take_away(now_ns, self.config.replay_window_ns);
        let kept: i64 = take_away(span.indexed, self.config.replay_window_cuts);
        let limit: i64 = if kept > span.floor {
            kept
        } else {
            span.floor
        };
        match find_latest(&self.store.operations, &span.watch_id, limit, cutoff_ns) {
            Some(sequence) => if sequence > span.floor {
                sequence
            } else {
                span.floor
            },
            None => span.floor,
        }
    }

    fn maintain_watch(
        &mut self,
        span: &HistorySpan,
        now_ns: i64,
        report: &RevisionReport,
    ) -> (reclaimed: Result<usize, ServiceError>)
        requires
            old(self).store.well_formed(),
        ensures
            final(self).store.well_formed(),
            *final(self) == (Service { store: final(self).store, ..*old(self) }),
            maintains_watch(
                old(self).store,
                final(self).store,
                old(self).config,
                old(self).lease_owner,
                *span,
                now_ns,
                *report,
                reclaimed,
            ),
            reclaimed matches Ok(number) ==> number + final(self).store.revisions@.len() == old(
                self,
            ).store.revisions@.len(),
    {
        let target: i64 = self.target_floor(span, now_ns);
        if target <= span.floor {
            return Ok(0);
        }
        let owner: [u8; 16] = self.lease_owner;
        let inner = self.store.advance_replay_floor(span.watch_id, target, now_ns, owner, report);
        assert(moves_floor(
            old(self).store,
            self.store,
            span.watch_id,
            target,
            now_ns,
            owner,
            *report,
            inner,
        ));
        proof {
            lemma_reclaimed(
                old(self).store,
                self.store,
                span.watch_id,
                target,
                now_ns,
                owner,
                *report,
                inner,
            );
        }
        let reclaimed = carry(inner, "advance replay retention floor");
        assert(advances(
            old(self).store,
            self.store,
            owner,
            *span,
            target,
            now_ns,
            *report,
            reclaimed,
        ));
        reclaimed
    }

    /// Looks after all history: what lies before both the newest cuts and the
    /// time that is kept goes. There is a report for each history, on the
    /// revision that the watch is indexed to. Only those of histories whose floor
    /// moves are looked at. Gives the number of revisions that went.
    pub fn maintain_history(
        &mut self,
        now_ns: i64,
        reports: &Vec<RevisionReport>,
    ) -> (reclaimed: Result<usize, ServiceError>)
        requires
            old(self).store.well_formed(),
            spans(old(self).store) matches Ok(spans) ==> reports@.len() == spans.len(),
        ensures
            final(self).store.well_formed(),
            *final(self) == (Service { store: final(self).store, ..*old(self) }),
            maintains_history(
                old(self).store,
                final(self).store,
                old(self).config,
                old(self).lease_owner,
                now_ns,
                reports@,
                reclaimed,
            ),
    {
        let histories = match self.history_spans() {
            Ok(histories) => histories,
            Err(error) => {
                return Err(error);
            },
        };
        let available: usize = self.store.revisions.len();
        let ghost config = self.config;
        let ghost owner = self.lease_owner;
        let ghost mut states: Seq<Store> = seq![self.store];
        let ghost mut counts: Seq<usize> = Seq::empty();
        let mut total: usize = 0;
        let mut at: usize = 0;
        while at < histories.len()
            invariant
                at <= histories@.len(),
                reports@.len() == histories@.len(),
                spans(old(self).store) == Ok::<Seq<HistorySpan>, Seq<char>>(histories@),
                self.store.well_formed(),
                *self == (Service { store: self.store, ..*old(self) }),
                config == old(self).config,
                owner == old(self).lease_owner,
                total + self.store.revisions@.len() == available,
                counts.len() == at,
                total == sum_of(counts),
                states.len() == at + 1,
                states[0] == old(self).store,
                states.last() == self.store,
                runs_through(states, counts, config, owner, histories@, now_ns, reports@),
            decreases histories.len() - at,
        {
            let ghost before = self.store;
            match self.maintain_watch(&histories[at], now_ns, &reports[at]) {
                Ok(number) => {
                    proof {
                        let longer = states.push(self.store);
                        let more = counts.push(number);
                        assert(more.drop_last() =~= counts);
                        assert forall|i: int| 0 <= i < more.len() implies maintains_watch(
                            longer[i],
                            longer[i + 1],
                            config,
                            owner,
                            histories@[i],
                            now_ns,
                            reports@[i],
                            Ok::<usize, ServiceError>(#[trigger] more[i]),
                        ) by {
                            if i < counts.len() {
                                assert(more[i] == counts[i]);
                                assert(longer[i] == states[i]);
                                assert(longer[i + 1] == states[i + 1]);
                            } else {
                                assert(longer[i] == before);
                                assert(longer[i + 1] == self.store);
                            }
                        }
                        states = longer;
                        counts = more;
                    }
                    total += number;
                },
                Err(error) => {
                    let failed: Result<usize, ServiceError> = Err(error);
                    assert(maintains(
                        old(self).store,
                        self.store,
                        config,
                        owner,
                        histories@,
                        now_ns,
                        reports@,
                        failed,
                    ));
                    return failed;
                },
            }
            at += 1;
        }
        let done: Result<usize, ServiceError> = Ok(total);
        assert(maintains(
            old(self).store,
            self.store,
            config,
            owner,
            histories@,
            now_ns,
            reports@,
            done,
        ));
        done
    }

    /// Begins a collection: leases that ran out end, history is looked after,
    /// and up to `limit` snapshots that nothing keeps are reserved. There is a
    /// report for each history.
    pub fn begin_garbage_collect(
        &mut self,
        now_ns: i64,
        limit: usize,
        reports: &Vec<RevisionReport>,
    ) -> (reserved: Result<Vec<SnapshotDeleteReservation>, ServiceError>)
        requires
            old(self).store.well_formed(),
            spans(old(self).store) matches Ok(spans) ==> reports@.len() == spans.len(),
        ensures
            begins_collection(*old(self), *final(self), now_ns, limit as nat, reports@, reserved),
            old(self).store.well_formed() ==> final(self).store.well_formed(),
    {
        let ended = self.store.expire_retention_leases(now_ns);
        let ghost middle = self.store;
        assert(expires_leases(old(self).store, middle, now_ns, ended));
        match ended {
            Ok(_) => {},
            Err(error) => {
                return Err(ServiceError::context("expire retention leases", error.message()));
            },
        }
        let reclaimed = self.maintain_history(now_ns, reports);
        let ghost kept = self.store;
        let ghost config = self.config;
        let owner: [u8; 16] = self.lease_owner;
        assert(maintains_history(middle, kept, config, owner, now_ns, reports@, reclaimed));
        let reserved: Result<Vec<SnapshotDeleteReservation>, ServiceError> = match reclaimed {
            Err(error) => Err(error),
            Ok(_) => match lease_expiry(now_ns, self.config.lease_ns) {
                Err(error) => Err(error),
                Ok(expires_ns) => {
                    let inner = self.store.reserve_unpinned_snapshot_deletes(
                        owner,
                        now_ns,
                        expires_ns,
                        limit,
                    );
                    let ghost outcome = inner;
                    let reserved = carry(inner, "reserve snapshot GC");
                    proof {
                        let ids = choose|ids: Seq<[u8; 16]>| #[trigger]
                            reserves_deletes(
                                kept,
                                self.store,
                                owner,
                                now_ns,
                                expires_ns,
                                limit as nat,
                                ids,
                                outcome,
                            );
                        assert(reserves_deletes(
                            kept,
                            self.store,
                            owner,
                            now_ns,
                            expires_ns,
                            limit as nat,
                            ids,
                            outcome,
                        ));
                    }
                    assert(reserves_collection(
                        kept,
                        self.store,
                        owner,
                        now_ns,
                        expires_ns,
                        limit as nat,
                        reserved,
                    ));
                    reserved
                },
            },
        };
        assert(collects_maintained(
            middle,
            self.store,
            config,
            owner,
            now_ns,
            limit as nat,
            reports@,
            reserved,
        ));
        reserved
    }

    /// Crosses the boundary behind which a reserved snapshot may be gone.
    pub fn start_garbage_collect(&mut self, reservation: &SnapshotDeleteReservation, now_ns: i64) -> (
    started: Result<(), ServiceError>)
        ensures
            *final(self) == (Service { store: final(self).store, ..*old(self) }),
            starts_collection(
                old(self).store,
                final(self).store,
                *reservation,
                old(self).lease_owner,
                now_ns,
                started,
            ),
            old(self).store.well_formed() ==> final(self).store.well_formed(),
    {
        let owner: [u8; 16] = self.lease_owner;
        let inner = self.store.start_snapshot_delete(reservation, owner, now_ns);
        assert(starts_delete(old(self).store, self.store, *reservation, owner, now_ns, inner));
        carry(inner, "start snapshot GC effect")
    }

    /// Checks that the snapshot of a deletion lies in the managed directory.
    pub fn check_delete_directory(&self, reservation: &SnapshotDeleteReservation) -> (checked:
        Result<(), ServiceError>)
        ensures
            match checked {
                Ok(_) => lies_in(
                    reservation.identity.path@,
                    self.config.managed_snapshot_directory@,
                ),
                Err(error) => !lies_in(
                    reservation.identity.path@,
                    self.config.managed_snapshot_directory@,
                ) && error@ == "snapshot GC candidate is outside the managed directory"@,
            },
    {
        if parent_is(&reservation.identity.path, &self.config.managed_snapshot_directory) {
            Ok(())
        } else {
            Err(ServiceError::new("snapshot GC candidate is outside the managed directory"))
        }
    }

    /// The name of the snapshot of a deletion, where what is found there is
    /// the recorded one.
    pub fn check_delete_target(
        &self,
        reservation: &SnapshotDeleteReservation,
        opened: &Result<ExpectedSubvolume, String>,
    ) -> (name: Result<Vec<u8>, ServiceError>)
        ensures
            match (last_name(reservation.identity.path@), *opened) {
                (None, _) => {
                    &&& name matches Err(error)
                    &&& error@ == "snapshot GC path has no basename"@
                },
                (Some(_), Err(cause)) => {
                    &&& name matches Err(error)
                    &&& error@ == in_context("open snapshot GC target"@, cause@)
                },
                (Some(last), Ok(target)) => if is_recorded(reservation.identity, target) {
                    &&& name matches Ok(name)
                    &&& name@ == last
                } else {
                    &&& name matches Err(error)
                    &&& error@ == "managed snapshot no longer matches its recorded identity"@
                },
            },
    {
        let name = match file_name(&reservation.identity.path) {
            Some(name) => name,
            None => {
                return Err(ServiceError::new("snapshot GC path has no basename"));
            },
        };
        match opened {
            Err(cause) => Err(ServiceError::context("open snapshot GC target", cause.as_str())),
            Ok(target) => match verify_recorded_snapshot(&reservation.identity, target) {
                Ok(_) => Ok(name),
                Err(error) => Err(error),
            },
        }
    }

    /// Records that a snapshot is gone for good. `deleted_uuid` is the
    /// subvolume that went.
    pub fn record_garbage_collect(
        &mut self,
        reservation: &SnapshotDeleteReservation,
        lease_owner: [u8; 16],
        deleted_uuid: &[u8; 16],
        now_ns: i64,
    ) -> (recorded: Result<(), ServiceError>)
        ensures
            *final(self) == (Service { store: final(self).store, ..*old(self) }),
            records_collection(
                old(self).store,
                final(self).store,
                *reservation,
                lease_owner,
                *deleted_uuid,
                now_ns,
                recorded,
            ),
            old(self).store.well_formed() ==> final(self).store.well_formed(),
    {
        if !same_array(deleted_uuid, &reservation.identity.subvol_uuid) {
            return Err(
                ServiceError::new("snapshot-delete receipt returned the wrong subvolume UUID"),
            );
        }
        let inner = self.store.record_snapshot_delete_durable(reservation, lease_owner, now_ns);
        assert(records_delete(
            old(self).store,
            self.store,
            *reservation,
            lease_owner,
            now_ns,
            inner,
        ));
        carry(inner, "record durable snapshot GC")
    }

    /// Finishes a deletion of this process.
    pub fn finish_garbage_collect(&mut self, reservation: &SnapshotDeleteReservation, now_ns: i64) -> (
    finished: Result<(), ServiceError>)
        ensures
            *final(self) == (Service { store: final(self).store, ..*old(self) }),
            if old(self).config.fault_after_snapshot_delete {
                &&& final(self).store == old(self).store
                &&& finished matches Err(error)
                &&& error@ == "injected failure after snapshot deletion effect"@
            } else {
                finishes_collection(
                    old(self).store,
                    final(self).store,
                    *reservation,
                    old(self).lease_owner,
                    now_ns,
                    "finish snapshot GC"@,
                    finished,
                )
            },
            old(self).store.well_formed() ==> final(self).store.well_formed(),
    {
        if self.config.fault_after_snapshot_delete {
            return Err(ServiceError::new("injected failure after snapshot deletion effect"));
        }
        let owner: [u8; 16] = self.lease_owner;
        let inner = self.store.finish_snapshot_delete(reservation, owner, now_ns);
        assert(finishes_delete(old(self).store, self.store, *reservation, owner, now_ns, inner));
        carry(inner, "finish snapshot GC")
    }

    /// Finishes a deletion of an earlier process.
    pub fn finish_recovered_delete(
        &mut self,
        operation: &RecoveringSnapshotDelete,
        now_ns: i64,
    ) -> (finished: Result<(), ServiceError>)
        ensures
            *final(self) == (Service { store: final(self).store, ..*old(self) }),
            finishes_collection(
                old(self).store,
                final(self).store,
                operation.reservation,
                operation.lease_owner,
                now_ns,
                "finish recovered snapshot deletion"@,
                finished,
            ),
            old(self).store.well_formed() ==> final(self).store.well_formed(),
    {
        let inner = self.store.finish_snapshot_delete(
            &operation.reservation,
            operation.lease_owner,
            now_ns,
        );
        assert(finishes_delete(
            old(self).store,
            self.store,
            operation.reservation,
            operation.lease_owner,
            now_ns,
            inner,
        ));
        carry(inner, "finish recovered snapshot deletion")
    }
}

/// How a deletion is taken up.
pub fn resume_snapshot_delete(operation: &RecoveringSnapshotDelete) -> (resume: Result<
    DeleteResume,
    ServiceError,
>)
    ensures
        if operation.state@ == "fs_started"@ {
            resume == Ok::<DeleteResume, ServiceError>(DeleteResume::Execute)
        } else if operation.state@ == "delete_durable"@ {
            resume == Ok::<DeleteResume, ServiceError>(DeleteResume::Finish)
        } else {
            &&& resume matches Err(error)
            &&& error@ == "invalid snapshot-delete recovery state"@
        },
{
    if is_text(operation.state.as_str(), "fs_started") {
        Ok(DeleteResume::Execute)
    } else if is_text(operation.state.as_str(), "delete_durable") {
        Ok(DeleteResume::Finish)
    } else {
        Err(ServiceError::new("invalid snapshot-delete recovery state"))
    }
}

proof fn lemma_latest(
    operations: Seq<Operation>,
    watch_id: [u8; 16],
    limit: i64,
    cutoff_ns: i64,
    n: int,
)
    requires
        0 <= n <= operations.len(),
    ensures
        latest_before(operations, settled_cuts(watch_id, limit, cutoff_ns), n) matches Some(
            sequence,
        ) ==> sequence <= limit && exists|i: int|
            0 <= i < n && settled_cuts(watch_id, limit, cutoff_ns)(#[trigger] operations[i])
                && operations[i].sequence == Some(sequence),
    decreases n,
{
    if n > 0 {
        lemma_latest(operations, watch_id, limit, cutoff_ns, n - 1);
        let picks = settled_cuts(watch_id, limit, cutoff_ns);
        if picks(operations[n - 1]) {
            assert(operations[n - 1].sequence is Some);
        }
    }
}

/// The floor of a history never moves back. It moves at most so far that the
/// newest cuts of the window stay, and only to a cut that was published before
/// the time that is kept.
pub proof fn law_window_is_kept(
    store: Store,
    config: ServiceConfig,
    span: HistorySpan,
    now_ns: i64,
)
    ensures
        span.floor <= floor_target(store, config, span, now_ns),
        floor_target(store, config, span, now_ns) <= larger(
            clamped(span.indexed - config.replay_window_cuts),
            span.floor,
        ),
        floor_target(store, config, span, now_ns) > span.floor ==> exists|i: int|
            0 <= i < store.operations@.len() && (#[trigger] store.operations@[i]).sequence
                == Some(floor_target(store, config, span, now_ns))
                && store.operations@[i].updated_ns <= clamped(now_ns - config.replay_window_ns),
{
    let limit = larger(clamped(span.indexed - config.replay_window_cuts), span.floor);
    let cutoff_ns = clamped(now_ns - config.replay_window_ns);
    lemma_latest(
        store.operations@,
        span.watch_id,
        limit,
        cutoff_ns,
        store.operations@.len() as int,
    );
}

} // verus!
