//! Leases that keep what a query reads until its response is out.

use crate::digest::{drawn, random_id};
use crate::manager::cuts::CUT_PERMISSIONS;
use crate::manager::facade::{boundary_at, facade_is, find_boundary, is_facade};
use crate::manager::rows::{
    grant_allows, is_allowed, Boundary, ComparisonPin, CutState, GrantState, QueryLease, QueryState,
    Revision, RevisionPin, Store, WatchCut, WatchState,
};
use crate::manager::table::{
    any, change, changing, find, first, gather, gathered, place, remove, removing, row, some,
};
use crate::manager::types::{
    fence_after, next_fence, FacadeActivation, ManagerError, QueryLeaseReservation,
};
use crate::text::same_array;
use vstd::prelude::*;

verus! {

/// Which active leases are to be released.
#[derive(Clone, Copy, Debug, Eq, PartialEq)]
pub enum QueryChoice {
    All,
    /// Those that have run out by then.
    Lapsed(i64),
    /// Those on the watch with the epoch.
    Facade([u8; 16], [u8; 16]),
}

/// The leases that are chosen.
pub open spec fn chosen(choice: QueryChoice) -> spec_fn(QueryLease) -> bool {
    |lease: QueryLease|
        lease.state == QueryState::Active && match choice {
            QueryChoice::All => true,
            QueryChoice::Lapsed(now_ns) => lease.lease_expires_ns <= now_ns,
            QueryChoice::Facade(watch_id, clock_epoch) => lease.watch_id == watch_id
                && lease.clock_epoch == clock_epoch,
        }
}

/// Releases the chosen leases.
pub open spec fn released(choice: QueryChoice) -> spec_fn(QueryLease) -> QueryLease {
    |lease: QueryLease|
        if chosen(choice)(lease) {
            QueryLease {
                state: QueryState::Released,
                lease_fence: fence_after(lease.lease_fence),
                ..lease
            }
        } else {
            lease
        }
}

/// The chosen lease with the identifier.
pub open spec fn chosen_with(choice: QueryChoice, id: [u8; 16]) -> spec_fn(QueryLease) -> bool {
    |lease: QueryLease| chosen(choice)(lease) && lease.id == id
}

/// The pins of chosen leases on revisions.
pub open spec fn revision_pins_of(leases: Seq<QueryLease>, choice: QueryChoice) -> spec_fn(
    RevisionPin,
) -> bool {
    |pin: RevisionPin| some(leases, chosen_with(choice, pin.query_id))
}

/// The pins of chosen leases on comparisons.
pub open spec fn comparison_pins_of(leases: Seq<QueryLease>, choice: QueryChoice) -> spec_fn(
    ComparisonPin,
) -> bool {
    |pin: ComparisonPin| some(leases, chosen_with(choice, pin.query_id))
}

impl QueryChoice {
    fn takes(&self, lease: &QueryLease) -> (taken: bool)
        ensures
            taken == chosen(*self)(*lease),
    {
        lease.state == QueryState::Active && match self {
            QueryChoice::All => true,
            QueryChoice::Lapsed(now_ns) => lease.lease_expires_ns <= *now_ns,
            QueryChoice::Facade(watch_id, clock_epoch) => same_array(&lease.watch_id, watch_id)
                && same_array(&lease.clock_epoch, clock_epoch),
        }
    }

    fn takes_query(&self, leases: &Vec<QueryLease>, id: &[u8; 16]) -> (taken: bool)
        ensures
            taken == some(leases@, chosen_with(*self, *id)),
    {
        let test = |lease: &QueryLease| -> (picked: bool)
            ensures
                picked == chosen_with(*self, *id)(*lease),
            { self.takes(lease) && same_array(&lease.id, id) };
        any(leases, test, Ghost(chosen_with(*self, *id)))
    }
}

/// Releases the chosen leases and what they pin.
pub fn release_queries(
    leases: &mut Vec<QueryLease>,
    revision_pins: &mut Vec<RevisionPin>,
    comparison_pins: &mut Vec<ComparisonPin>,
    choice: &QueryChoice,
)
    ensures
        final(leases)@ == changing(old(leases)@, released(*choice)),
        final(revision_pins)@ == removing(
            old(revision_pins)@,
            revision_pins_of(old(leases)@, *choice),
        ),
        final(comparison_pins)@ == removing(
            old(comparison_pins)@,
            comparison_pins_of(old(leases)@, *choice),
        ),
{
    let ghost before = leases@;
    let held: &Vec<QueryLease> = leases;
    let test = |pin: &RevisionPin| -> (picked: bool)
        ensures
            picked == revision_pins_of(held@, *choice)(*pin),
        { choice.takes_query(held, &pin.query_id) };
    remove(revision_pins, test, Ghost(revision_pins_of(before, *choice)));
    let test = |pin: &ComparisonPin| -> (picked: bool)
        ensures
            picked == comparison_pins_of(held@, *choice)(*pin),
        { choice.takes_query(held, &pin.query_id) };
    remove(comparison_pins, test, Ghost(comparison_pins_of(before, *choice)));
    let apply = |lease: QueryLease| -> (after: QueryLease)
        ensures
            after == released(*choice)(lease),
        {
            if choice.takes(&lease) {
                QueryLease {
                    state: QueryState::Released,
                    lease_fence: next_fence(lease.lease_fence),
                    ..lease
                }
            } else {
                lease
            }
        };
    change(leases, apply, Ghost(released(*choice)));
}

/// Whether the boundary of the watch at the sequence has the epoch.
pub open spec fn boundary_stands(
    boundaries: Seq<Boundary>,
    watch_id: [u8; 16],
    sequence: i64,
    clock_epoch: [u8; 16],
) -> bool {
    match first(boundaries, boundary_at(watch_id, sequence)) {
        Some(at) => boundaries[at].clock_epoch == clock_epoch,
        None => false,
    }
}

fn does_boundary_stand(
    boundaries: &Vec<Boundary>,
    watch_id: &[u8; 16],
    sequence: i64,
    clock_epoch: &[u8; 16],
) -> (stands: bool)
    ensures
        stands == boundary_stands(boundaries@, *watch_id, sequence, *clock_epoch),
{
    match find_boundary(boundaries, watch_id, sequence) {
        Some(at) => same_array(&boundaries[at].clock_epoch, clock_epoch),
        None => false,
    }
}

/// The part of the precision journal between two boundaries: its epoch and
/// the events it lies between, where the journal is complete at both and
/// still holds it.
pub open spec fn guard_between(store: Store, watch_id: [u8; 16], from: i64, to: i64) -> Option<
    ([u8; 16], i64, i64),
> {
    match (
        row(store.watches@, watch_id),
        first(store.boundaries@, boundary_at(watch_id, from)),
        first(store.boundaries@, boundary_at(watch_id, to)),
    ) {
        (Some(watch), Some(a), Some(b)) => match (
            watch.guard,
            store.boundaries@[a].guard,
            store.boundaries@[b].guard,
        ) {
            (Some(journal), Some(start), Some(end)) => if start.epoch == end.epoch && journal.epoch
                == start.epoch && journal.replay_floor_seq <= start.sequence && start.sequence
                <= end.sequence {
                Some((start.epoch, start.sequence, end.sequence))
            } else {
                None
            },
            _ => None,
        },
        _ => None,
    }
}

/// Why a query cannot be leased.
pub open spec fn begin_query_fault(
    store: Store,
    activation: FacadeActivation,
    from_sequence: Option<i64>,
    to_sequence: i64,
    lease_expires_ns: i64,
    id: [u8; 16],
) -> Option<Seq<char>> {
    if to_sequence <= 0 || (from_sequence matches Some(from) && (from < 0 || from > to_sequence))
        || lease_expires_ns <= 0 {
        Some("invalid query lease range"@)
    } else if !((row(store.watches@, activation.watch_id) matches Some(watch)
        && facade_is(watch, activation)) && grant_allows(
        store.grants@,
        activation.watch_id,
        activation.authorization_id,
        CUT_PERMISSIONS,
    ) && boundary_stands(
        store.boundaries@,
        activation.watch_id,
        to_sequence,
        activation.clock_epoch,
    )) {
        Some("query lease authorization or target boundary is stale"@)
    } else if from_sequence matches Some(from) && !boundary_stands(
        store.boundaries@,
        activation.watch_id,
        from,
        activation.clock_epoch,
    ) {
        Some("query source boundary is stale"@)
    } else if row(store.query_leases@, id) is Some {
        Some("UNIQUE constraint failed: query_leases.id"@)
    } else {
        None
    }
}

/// The boundaries of the watch with the epoch, between two sequences, that
/// lead to the snapshot.
pub open spec fn leads_to(
    snapshot_id: i64,
    watch_id: [u8; 16],
    lower: i64,
    upper: i64,
    clock_epoch: [u8; 16],
) -> spec_fn(Boundary) -> bool {
    |boundary: Boundary|
        boundary.target_snapshot_id == snapshot_id && boundary.watch_id == watch_id && lower
            <= boundary.cut_sequence <= upper && boundary.clock_epoch == clock_epoch
}

/// Pins the revisions that boundaries between two sequences lead to.
pub open spec fn pins_revision(
    boundaries: Seq<Boundary>,
    id: [u8; 16],
    watch_id: [u8; 16],
    lower: i64,
    upper: i64,
    clock_epoch: [u8; 16],
) -> spec_fn(Revision) -> Option<RevisionPin> {
    |revision: Revision|
        if some(boundaries, leads_to(revision.snapshot_id, watch_id, lower, upper, clock_epoch)) {
            Some(RevisionPin { query_id: id, revision_id: revision.id })
        } else {
            None
        }
}

/// Pins the comparisons of ready cuts behind one sequence, up to another.
pub open spec fn pins_comparison(
    id: [u8; 16],
    watch_id: [u8; 16],
    lower: i64,
    upper: i64,
) -> spec_fn(WatchCut) -> Option<ComparisonPin> {
    |cut: WatchCut|
        if cut.watch_id == watch_id && lower < cut.sequence <= upper && cut.state
            == CutState::Ready {
            match cut.comparison_id {
                Some(comparison_id) => Some(ComparisonPin { query_id: id, comparison_id }),
                None => None,
            }
        } else {
            None
        }
}

/// What leasing a query under the identifier does.
pub open spec fn begins_query(
    before: Store,
    after: Store,
    activation: FacadeActivation,
    from_sequence: Option<i64>,
    to_sequence: i64,
    lease_owner: [u8; 16],
    lease_expires_ns: i64,
    id: [u8; 16],
    leased: Result<QueryLeaseReservation, ManagerError>,
) -> bool {
    match begin_query_fault(
        before,
        activation,
        from_sequence,
        to_sequence,
        lease_expires_ns,
        id,
    ) {
        Some(fault) => {
            &&& after == before
            &&& leased matches Err(error)
            &&& error@ == fault
        },
        None => {
            let lower = match from_sequence {
                Some(from) => from,
                None => to_sequence,
            };
            let guard = match from_sequence {
                Some(from) => guard_between(before, activation.watch_id, from, to_sequence),
                None => None,
            };
            &&& after == (Store {
                query_leases: after.query_leases,
                revision_pins: after.revision_pins,
                comparison_pins: after.comparison_pins,
                ..before
            })
            &&& after.query_leases@ == before.query_leases@.push(
                QueryLease {
                    id,
                    watch_id: activation.watch_id,
                    authorization_id: activation.authorization_id,
                    clock_epoch: activation.clock_epoch,
                    from_cut_sequence: from_sequence,
                    to_cut_sequence: to_sequence,
                    guard,
                    lease_owner,
                    lease_fence: 1,
                    lease_expires_ns,
                    state: QueryState::Active,
                },
            )
            &&& after.revision_pins@ == before.revision_pins@ + gathered(
                before.revisions@,
                pins_revision(
                    before.boundaries@,
                    id,
                    activation.watch_id,
                    lower,
                    to_sequence,
                    activation.clock_epoch,
                ),
            )
            &&& after.comparison_pins@ == before.comparison_pins@ + gathered(
                before.cuts@,
                pins_comparison(id, activation.watch_id, lower, to_sequence),
            )
            &&& leased == Ok::<QueryLeaseReservation, ManagerError>(
                QueryLeaseReservation {
                    id,
                    watch_id: activation.watch_id,
                    authorization_id: activation.authorization_id,
                    clock_epoch: activation.clock_epoch,
                    from_sequence,
                    to_sequence,
                    guard,
                    lease_owner,
                    lease_fence: 1,
                },
            )
        },
    }
}

/// Whether the lease still protects a response through the facade.
pub open spec fn lease_stands(
    store: Store,
    lease: QueryLeaseReservation,
    activation: FacadeActivation,
) -> bool {
    &&& row(store.query_leases@, lease.id) matches Some(query)
    &&& query.watch_id == lease.watch_id
    &&& query.authorization_id == lease.authorization_id
    &&& query.clock_epoch == lease.clock_epoch
    &&& query.lease_owner == lease.lease_owner
    &&& query.lease_fence == lease.lease_fence
    &&& query.state == QueryState::Active
    &&& row(store.watches@, lease.watch_id) matches Some(watch)
    &&& watch.state == WatchState::Active
    &&& watch.clock_epoch == lease.clock_epoch
    &&& watch.view matches Some(view)
    &&& view.monitor_session_id == activation.monitor_session_id
    &&& row(store.grants@, lease.authorization_id) matches Some(grant)
    &&& grant.state == GrantState::Active
}

/// The pins of a query on revisions.
pub open spec fn revision_pins_for(id: [u8; 16]) -> spec_fn(RevisionPin) -> bool {
    |pin: RevisionPin| pin.query_id == id
}

/// The pins of a query on comparisons.
pub open spec fn comparison_pins_for(id: [u8; 16]) -> spec_fn(ComparisonPin) -> bool {
    |pin: ComparisonPin| pin.query_id == id
}

/// What [`Store::release_query_lease`] does.
pub open spec fn releases_query(
    before: Store,
    after: Store,
    lease: QueryLeaseReservation,
    activation: FacadeActivation,
    released: Result<(), ManagerError>,
) -> bool {
    if lease_stands(before, lease, activation) {
        let at = place(before.query_leases@, lease.id)->0;
        &&& released is Ok
        &&& after == (Store {
            query_leases: after.query_leases,
            revision_pins: after.revision_pins,
            comparison_pins: after.comparison_pins,
            ..before
        })
        &&& after.query_leases@ =~= before.query_leases@.update(
            at,
            QueryLease { state: QueryState::Released, ..before.query_leases@[at] },
        )
        &&& after.revision_pins@ =~= removing(
            before.revision_pins@,
            revision_pins_for(lease.id),
        )
        &&& after.comparison_pins@ =~= removing(
            before.comparison_pins@,
            comparison_pins_for(lease.id),
        )
    } else {
        &&& after == before
        &&& released matches Err(error)
        &&& error@ == "query lease response fence is stale"@
    }
}

impl Store {
    fn find_guard_between(&self, watch_id: &[u8; 16], from: i64, to: i64) -> (guard: Option<
        ([u8; 16], i64, i64),
    >)
        ensures
            guard == guard_between(*self, *watch_id, from, to),
    {
        match (
            find(&self.watches, watch_id),
            find_boundary(&self.boundaries, watch_id, from),
            find_boundary(&self.boundaries, watch_id, to),
        ) {
            (Some(at), Some(a), Some(b)) => match (
                self.watches[at].guard,
                self.boundaries[a].guard,
                self.boundaries[b].guard,
            ) {
                (Some(journal), Some(start), Some(end)) => if same_array(&start.epoch, &end.epoch)
                    && same_array(&journal.epoch, &start.epoch) && journal.replay_floor_seq
                    <= start.sequence && start.sequence <= end.sequence {
                    Some((start.epoch, start.sequence, end.sequence))
                } else {
                    None
                },
                _ => None,
            },
            _ => None,
        }
    }

    /// Leases what a query between two boundaries reads, under the
    /// identifier.
    pub fn begin_query_lease_as(
        &mut self,
        activation: &FacadeActivation,
        from_sequence: Option<i64>,
        to_sequence: i64,
        lease_owner: [u8; 16],
        lease_expires_ns: i64,
        id: [u8; 16],
    ) -> (leased: Result<QueryLeaseReservation, ManagerError>)
        ensures
            begins_query(
                *old(self),
                *final(self),
                *activation,
                from_sequence,
                to_sequence,
                lease_owner,
                lease_expires_ns,
                id,
                leased,
            ),
            old(self).well_formed() ==> final(self).well_formed(),
    {
        let backwards: bool = match from_sequence {
            Some(from) => from < 0 || from > to_sequence,
            None => false,
        };
        if to_sequence <= 0 || backwards || lease_expires_ns <= 0 {
            return Err(ManagerError::new("invalid query lease range"));
        }
        let bound: bool = match find(&self.watches, &activation.watch_id) {
            Some(at) => is_facade(&self.watches[at], activation),
            None => false,
        };
        if !bound || !is_allowed(
            &self.grants,
            &activation.watch_id,
            &activation.authorization_id,
            CUT_PERMISSIONS,
        ) || !does_boundary_stand(
            &self.boundaries,
            &activation.watch_id,
            to_sequence,
            &activation.clock_epoch,
        ) {
            return Err(ManagerError::new("query lease authorization or target boundary is stale"));
        }
        let lower: i64 = match from_sequence {
            Some(from) => {
                if !does_boundary_stand(
                    &self.boundaries,
                    &activation.watch_id,
                    from,
                    &activation.clock_epoch,
                ) {
                    return Err(ManagerError::new("query source boundary is stale"));
                }
                from
            },
            None => to_sequence,
        };
        if find(&self.query_leases, &id).is_some() {
            return Err(ManagerError::new("UNIQUE constraint failed: query_leases.id"));
        }
        let guard: Option<([u8; 16], i64, i64)> = match from_sequence {
            Some(from) => self.find_guard_between(&activation.watch_id, from, to_sequence),
            None => None,
        };
        let watch_id: [u8; 16] = activation.watch_id;
        let clock_epoch: [u8; 16] = activation.clock_epoch;
        let boundaries = &self.boundaries;
        let give = |revision: &Revision| -> (pin: Option<RevisionPin>)
            ensures
                pin == pins_revision(
                    boundaries@,
                    id,
                    watch_id,
                    lower,
                    to_sequence,
                    clock_epoch,
                )(*revision),
            {
                if is_led_to(
                    boundaries,
                    revision.snapshot_id,
                    &watch_id,
                    lower,
                    to_sequence,
                    &clock_epoch,
                ) {
                    Some(RevisionPin { query_id: id, revision_id: revision.id })
                } else {
                    None
                }
            };
        let mut revision_pins = gather(
            &self.revisions,
            give,
            Ghost(
                pins_revision(self.boundaries@, id, watch_id, lower, to_sequence, clock_epoch),
            ),
        );
        let give = |cut: &WatchCut| -> (pin: Option<ComparisonPin>)
            ensures
                pin == pins_comparison(id, watch_id, lower, to_sequence)(*cut),
            {
                if same_array(&cut.watch_id, &watch_id) && lower < cut.sequence && cut.sequence
                    <= to_sequence && cut.state == CutState::Ready {
                    match cut.comparison_id {
                        Some(comparison_id) => Some(ComparisonPin { query_id: id, comparison_id }),
                        None => None,
                    }
                } else {
                    None
                }
            };
        let mut comparison_pins = gather(
            &self.cuts,
            give,
            Ghost(pins_comparison(id, watch_id, lower, to_sequence)),
        );
        self.query_leases.push(
            QueryLease {
                id,
                watch_id,
                authorization_id: activation.authorization_id,
                clock_epoch,
                from_cut_sequence: from_sequence,
                to_cut_sequence: to_sequence,
                guard,
                lease_owner,
                lease_fence: 1,
                lease_expires_ns,
                state: QueryState::Active,
            },
        );
        self.revision_pins.append(&mut revision_pins);
        self.comparison_pins.append(&mut comparison_pins);
        Ok(
            QueryLeaseReservation {
                id,
                watch_id,
                authorization_id: activation.authorization_id,
                clock_epoch,
                from_sequence,
                to_sequence,
                guard,
                lease_owner,
                lease_fence: 1,
            },
        )
    }

    /// Leases what a query between two boundaries reads.
    pub fn begin_query_lease(
        &mut self,
        activation: &FacadeActivation,
        from_sequence: Option<i64>,
        to_sequence: i64,
        lease_owner: [u8; 16],
        lease_expires_ns: i64,
    ) -> (leased: Result<QueryLeaseReservation, ManagerError>)
        ensures
            exists|id: [u8; 16]|
                drawn(id) && #[trigger] begins_query(
                    *old(self),
                    *final(self),
                    *activation,
                    from_sequence,
                    to_sequence,
                    lease_owner,
                    lease_expires_ns,
                    id,
                    leased,
                ),
            old(self).well_formed() ==> final(self).well_formed(),
    {
        let id: [u8; 16] = random_id();
        self.begin_query_lease_as(
            activation,
            from_sequence,
            to_sequence,
            lease_owner,
            lease_expires_ns,
            id,
        )
    }

    /// Releases a query's lease once its response may go out.
    pub fn release_query_lease(
        &mut self,
        lease: &QueryLeaseReservation,
        activation: &FacadeActivation,
    ) -> (released: Result<(), ManagerError>)
        ensures
            releases_query(*old(self), *final(self), *lease, *activation, released),
            old(self).well_formed() ==> final(self).well_formed(),
    {
        let (at, watch_at, grant_at): (usize, usize, usize) = match (
            find(&self.query_leases, &lease.id),
            find(&self.watches, &lease.watch_id),
            find(&self.grants, &lease.authorization_id),
        ) {
            (Some(at), Some(watch_at), Some(grant_at)) => (at, watch_at, grant_at),
            _ => {
                return Err(ManagerError::new("query lease response fence is stale"));
            },
        };
        let query: QueryLease = self.query_leases[at];
        let session: bool = match &self.watches[watch_at].view {
            Some(view) => same_array(&view.monitor_session_id, &activation.monitor_session_id),
            None => false,
        };
        if !same_array(&query.watch_id, &lease.watch_id) || !same_array(
            &query.authorization_id,
            &lease.authorization_id,
        ) || !same_array(&query.clock_epoch, &lease.clock_epoch) || !same_array(
            &query.lease_owner,
            &lease.lease_owner,
        ) || query.lease_fence != lease.lease_fence || query.state != QueryState::Active
            || self.watches[watch_at].state != WatchState::Active || !same_array(
            &self.watches[watch_at].clock_epoch,
            &lease.clock_epoch,
        ) || !session || self.grants[grant_at].state != GrantState::Active {
            return Err(ManagerError::new("query lease response fence is stale"));
        }
        let id: [u8; 16] = lease.id;
        let test = |pin: &RevisionPin| -> (picked: bool)
            ensures
                picked == revision_pins_for(id)(*pin),
            { same_array(&pin.query_id, &id) };
        remove(&mut self.revision_pins, test, Ghost(revision_pins_for(id)));
        let test = |pin: &ComparisonPin| -> (picked: bool)
            ensures
                picked == comparison_pins_for(id)(*pin),
            { same_array(&pin.query_id, &id) };
        remove(&mut self.comparison_pins, test, Ghost(comparison_pins_for(id)));
        self.query_leases[at].state = QueryState::Released;
        Ok(())
    }
}

fn is_led_to(
    boundaries: &Vec<Boundary>,
    snapshot_id: i64,
    watch_id: &[u8; 16],
    lower: i64,
    upper: i64,
    clock_epoch: &[u8; 16],
) -> (led: bool)
    ensures
        led == some(boundaries@, leads_to(snapshot_id, *watch_id, lower, upper, *clock_epoch)),
{
    let test = |boundary: &Boundary| -> (picked: bool)
        ensures
            picked == leads_to(snapshot_id, *watch_id, lower, upper, *clock_epoch)(*boundary),
        {
            boundary.target_snapshot_id == snapshot_id && same_array(&boundary.watch_id, watch_id)
                && lower <= boundary.cut_sequence && boundary.cut_sequence <= upper && same_array(
                &boundary.clock_epoch,
                clock_epoch,
            )
        };
    any(boundaries, test, Ghost(leads_to(snapshot_id, *watch_id, lower, upper, *clock_epoch)))
}

} // verus!
