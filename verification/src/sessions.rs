//! The life of a scan session, and what a scan is told.

use crate::locations::{are_names, below_root, law_paths_are_compared_by_names};
use crate::manager::table::{first, law_removing, lemma_first, removing, some};
use crate::scan::{
    clock_ns, interval_before, scan_root_fault, Invalidation, ScanError, ScanErrorKind,
    ScanRootReport, SnapshotIdentity,
};
use crate::scan_facade::{
    boot_end, expires_sessions, finds_session, finished_with, forgotten, holds_answer, invalidates,
    lapsed, live_root_fault, names_below, open_with, opens_session, records_finish, records_renewal,
    takes_session, unrooted, ActiveScanSession, BeginStep, FacadeScanHandler, FinishedScanSession,
    Projection,
};
use vstd::prelude::*;

verus! {

/// Whether the session with the identifier is open for the answer until the time, and no
/// other has the identifier.
pub open spec fn is_open<P>(
    handler: FacadeScanHandler<P>,
    id: Seq<u8>,
    prepared: P,
    expires_ns: i64,
) -> bool {
    exists|i: int|
        0 <= i < handler.sessions@.len() && #[trigger] open_at(
            handler,
            id,
            prepared,
            expires_ns,
            i,
        )
}

/// Whether the session in the place is the open one.
pub open spec fn open_at<P>(
    handler: FacadeScanHandler<P>,
    id: Seq<u8>,
    prepared: P,
    expires_ns: i64,
    i: int,
) -> bool {
    &&& handler.sessions@[i].session_id@ == id
    &&& handler.sessions@[i].prepared == prepared
    &&& handler.sessions@[i].expires_ns == expires_ns
    &&& forall|j: int|
        0 <= j < handler.sessions@.len() && j != i ==> (
        #[trigger] handler.sessions@[j]).session_id@ != id
}

/// Whether it is remembered that the session was finished.
pub open spec fn is_finished<P>(handler: FacadeScanHandler<P>, id: Seq<u8>) -> bool {
    exists|i: int|
        0 <= i < handler.finished_sessions@.len() && (
        #[trigger] handler.finished_sessions@[i]).session_id@ == id
}

proof fn lemma_open<P>(
    handler: FacadeScanHandler<P>,
    id: Seq<u8>,
    prepared: P,
    expires_ns: i64,
    i: int,
)
    requires
        0 <= i < handler.sessions@.len(),
        open_at(handler, id, prepared, expires_ns, i),
    ensures
        first(handler.sessions@, open_with(id)) == Some(i),
{
    let picks = open_with::<P>(id);
    lemma_first(handler.sessions@, picks, 0);
    assert(picks(handler.sessions@[i]));
    assert forall|j: int| 0 <= j < handler.sessions@.len() && j != i implies !picks(
        #[trigger] handler.sessions@[j],
    ) by {}
}

proof fn lemma_finished<P>(handler: FacadeScanHandler<P>, id: Seq<u8>)
    ensures
        some(handler.finished_sessions@, finished_with(id)) == is_finished(handler, id),
{
    let picks = finished_with(id);
    if some(handler.finished_sessions@, picks) {
        let i = choose|i: int|
            0 <= i < handler.finished_sessions@.len() && picks(
                #[trigger] handler.finished_sessions@[i],
            );
        assert(handler.finished_sessions@[i].session_id@ == id);
    }
    if is_finished(handler, id) {
        let i = choose|i: int|
            0 <= i < handler.finished_sessions@.len() && (
            #[trigger] handler.finished_sessions@[i]).session_id@ == id;
        assert(picks(handler.finished_sessions@[i]));
    }
}

/// A session that was opened is open for the answer that it was opened for, for as long as
/// was asked, and no other session is touched but one of the same identifier.
pub proof fn law_opened_session<P>(
    before: FacadeScanHandler<P>,
    after: FacadeScanHandler<P>,
    id: Seq<u8>,
    prepared: P,
    now_ns: i64,
    ttl_ns: i64,
    expires_ns: i64,
    other: Seq<u8>,
    answer: P,
    end_ns: i64,
)
    requires
        opens_session(before, after, id, prepared, now_ns, ttl_ns, expires_ns),
    ensures
        expires_ns == now_ns + ttl_ns,
        is_open(after, id, prepared, expires_ns),
        forall|session: ActiveScanSession<P>|
            #[trigger] before.sessions@.contains(session) && session.session_id@ != id
                ==> after.sessions@.contains(session),
        after.finished_sessions == before.finished_sessions,
        after.expected_live_root == before.expected_live_root,
{
    let gone = open_with::<P>(id);
    let left = removing(before.sessions@, gone);
    let last = left.len() as int;
    assert(after.sessions@[last] == after.sessions@.last());
    assert forall|j: int| 0 <= j < after.sessions@.len() && j != last implies (
    #[trigger] after.sessions@[j]).session_id@ != id by {
        law_removing(before.sessions@, gone, left[j]);
        assert(left.contains(left[j]));
    }
    assert(open_at(after, id, prepared, expires_ns, last));
    assert forall|session: ActiveScanSession<P>| #[trigger]
        before.sessions@.contains(session) && session.session_id@ != id implies
        after.sessions@.contains(session) by {
        law_removing(before.sessions@, gone, session);
        let i = choose|i: int| 0 <= i < left.len() && left[i] == session;
        assert(after.sessions@[i] == session);
    }
}

/// Who asks for an open session is given its answer, and who asks for one that is not open
/// is told that its lease has run out.
pub proof fn law_session_is_found<P>(
    handler: FacadeScanHandler<P>,
    id: Seq<u8>,
    found: Result<&P, ScanError>,
    prepared: P,
    expires_ns: i64,
)
    requires
        finds_session(handler, id, found),
    ensures
        is_open(handler, id, prepared, expires_ns) ==> (found matches Ok(answer) && *answer
            == prepared),
        (forall|i: int|
            0 <= i < handler.sessions@.len() ==> (#[trigger] handler.sessions@[i]).session_id@
                != id) ==> (found matches Err(error) && error.of_kind()
            == ScanErrorKind::LeaseExpired),
{
    if is_open(handler, id, prepared, expires_ns) {
        let i = choose|i: int|
            0 <= i < handler.sessions@.len() && #[trigger] open_at(
                handler,
                id,
                prepared,
                expires_ns,
                i,
            );
        lemma_open(handler, id, prepared, expires_ns, i);
    }
    lemma_first(handler.sessions@, open_with::<P>(id), 0);
}

/// Exactly the sessions whose time has come are taken out, and what was finished is
/// remembered until its own time has come.
pub proof fn law_sessions_run_out<P>(
    before: FacadeScanHandler<P>,
    after: FacadeScanHandler<P>,
    now_ns: i64,
    expired: Seq<ActiveScanSession<P>>,
    session: ActiveScanSession<P>,
    finished: FinishedScanSession,
)
    requires
        expires_sessions(before, after, now_ns, expired),
    ensures
        after.sessions@.contains(session) <==> before.sessions@.contains(session) && now_ns
            < session.expires_ns,
        expired.contains(session) <==> before.sessions@.contains(session) && !(now_ns
            < session.expires_ns),
        after.finished_sessions@.contains(finished) <==> before.finished_sessions@.contains(
            finished,
        ) && now_ns < finished.expires_ns,
        after.expected_live_root == before.expected_live_root,
        after.watch_id == before.watch_id,
{
    law_removing(before.sessions@, lapsed(now_ns), session);
    law_removing(before.finished_sessions@, forgotten(now_ns), finished);
    let gone = lapsed::<P>(now_ns);
    if before.sessions@.contains(session) && gone(session) {
        let i = choose|i: int|
            0 <= i < before.sessions@.len() && before.sessions@[i] == session;
        before.sessions@.lemma_filter_contains(gone, i);
    }
    if expired.contains(session) {
        let i = choose|i: int| 0 <= i < expired.len() && expired[i] == session;
        before.sessions@.lemma_filter_pred(gone, i);
        before.sessions@.lemma_filter_contains_rev(gone, session);
    }
}

/// A renewed session lasts five minutes from that time, for the same answer. Where the
/// other side refused, nothing changes.
pub proof fn law_renewed_session<P>(
    before: FacadeScanHandler<P>,
    after: FacadeScanHandler<P>,
    id: Seq<u8>,
    now_ns: i64,
    reply: Result<(), String>,
    renewed: Result<(), ScanError>,
    prepared: P,
    expires_ns: i64,
)
    requires
        records_renewal(before, after, id, now_ns, reply, renewed),
        is_open(before, id, prepared, expires_ns),
    ensures
        renewed is Ok <==> reply is Ok && now_ns + 300_000_000_000 <= i64::MAX,
        renewed is Ok ==> is_open(after, id, prepared, (now_ns + 300_000_000_000) as i64),
        renewed is Err ==> after == before,
        renewed matches Err(error) ==> (reply is Err ==> error.of_kind()
            == ScanErrorKind::LeaseExpired),
{
    let i = choose|i: int|
        0 <= i < before.sessions@.len() && #[trigger] open_at(
            before,
            id,
            prepared,
            expires_ns,
            i,
        );
    lemma_open(before, id, prepared, expires_ns, i);
    if renewed is Ok {
        assert(open_at(after, id, prepared, (now_ns + 300_000_000_000) as i64, i));
    }
}

/// The answer of an open session is handed out once: it is not open any more. Where the
/// session was finished before, there is none to hand out.
pub proof fn law_taken_session<P>(
    before: FacadeScanHandler<P>,
    after: FacadeScanHandler<P>,
    id: Seq<u8>,
    taken: Result<Option<P>, ScanError>,
    prepared: P,
    expires_ns: i64,
)
    requires
        takes_session(before, after, id, taken),
    ensures
        is_finished(before, id) ==> (taken matches Ok(None)) && after == before,
        !is_finished(before, id) && is_open(before, id, prepared, expires_ns) ==> {
            &&& taken matches Ok(Some(answer))
            &&& answer == prepared
            &&& forall|i: int|
                0 <= i < after.sessions@.len() ==> (#[trigger] after.sessions@[i]).session_id@ != id
            &&& after.sessions@.len() == before.sessions@.len() - 1
        },
        !is_finished(before, id) && (forall|i: int|
            0 <= i < before.sessions@.len() ==> (#[trigger] before.sessions@[i]).session_id@ != id)
            ==> taken is Err && after == before,
{
    lemma_finished(before, id);
    lemma_first(before.sessions@, open_with::<P>(id), 0);
    if !is_finished(before, id) && is_open(before, id, prepared, expires_ns) {
        let i = choose|i: int|
            0 <= i < before.sessions@.len() && #[trigger] open_at(
                before,
                id,
                prepared,
                expires_ns,
                i,
            );
        lemma_open(before, id, prepared, expires_ns, i);
        assert forall|j: int| 0 <= j < after.sessions@.len() implies (
        #[trigger] after.sessions@[j]).session_id@ != id by {
            if j < i {
                assert(after.sessions@[j] == before.sessions@[j]);
            } else {
                assert(after.sessions@[j] == before.sessions@[j + 1]);
            }
        }
    }
}

/// A finished session is remembered for five minutes, so that finishing it again changes
/// nothing. Where the other side refused, it is not finished.
pub proof fn law_finished_session<P>(
    before: FacadeScanHandler<P>,
    after: FacadeScanHandler<P>,
    id: Seq<u8>,
    now_ns: i64,
    reply: Result<(), String>,
    recorded: Result<(), ScanError>,
    later: FacadeScanHandler<P>,
    again: Result<Option<P>, ScanError>,
)
    requires
        records_finish(before, after, id, now_ns, reply, recorded),
        takes_session(after, later, id, again),
    ensures
        recorded is Ok <==> reply is Ok && now_ns + 300_000_000_000 <= i64::MAX,
        recorded is Err ==> after == before,
        recorded is Ok ==> {
            &&& is_finished(after, id)
            &&& after.finished_sessions@.last().expires_ns == now_ns + 300_000_000_000
            &&& after.sessions == before.sessions
            &&& again matches Ok(None)
            &&& later == after
        },
{
    lemma_finished(after, id);
    if recorded is Ok {
        let last = after.finished_sessions@.len() - 1;
        assert(after.finished_sessions@[last].session_id@ == id);
    }
}

/// Only the registered root is scanned: one with the same names.
pub proof fn law_only_the_registered_root(
    requested: Vec<u8>,
    one: Seq<Seq<u8>>,
    other: Seq<Seq<u8>>,
)
    requires
        one.len() > 0,
        other.len() > 0,
        are_names(one),
        are_names(other),
        requested@ == below_root(one),
    ensures
        live_root_fault(Ok(requested), below_root(other)) is None <==> one == other,
        live_root_fault(Ok(requested), below_root(other)) matches Some((kind, _)) ==> kind
            == ScanErrorKind::Unauthorized,
{
    law_paths_are_compared_by_names(one, other);
}

/// A caller is told the very paths that changed, below the root, or that everything did:
/// the latter exactly where the instance is fresh or a path does not lie below the root.
pub proof fn law_told_what_changed(projection: Projection, told: Invalidation)
    requires
        invalidates(projection, told),
    ensures
        told is Full <==> projection.fresh_instance || exists|i: int|
            0 <= i < projection.paths@.len() && !((#[trigger] projection.paths@[i])@.len() >= 2
                && projection.paths@[i]@[0] == 0x2f),
        told matches Invalidation::ExactPaths(paths) ==> paths@.len() == projection.paths@.len()
            && forall|i: int|
            0 <= i < paths@.len() ==> projection.paths@[i]@ == seq![0x2fu8] + (
            #[trigger] paths@[i])@,
        !(told is Prefixes),
{
    if let Invalidation::ExactPaths(paths) = told {
        let told_paths = paths@.map_values(|path: Vec<u8>| path@);
        let wanted = unrooted(projection.paths@);
        assert(told_paths.len() == wanted.len());
        assert forall|i: int| 0 <= i < paths@.len() implies projection.paths@[i]@ == seq![0x2fu8]
            + (#[trigger] paths@[i])@ by {
            assert(told_paths[i] == wanted[i]);
            assert(names_below(projection.paths@[i]@));
            assert(projection.paths@[i]@ =~= seq![0x2fu8] + projection.paths@[i]@.skip(1));
        }
        assert forall|i: int| 0 <= i < projection.paths@.len() implies (
        #[trigger] projection.paths@[i])@.len() >= 2 && projection.paths@[i]@[0] == 0x2f by {
            assert(names_below(projection.paths@[i]@));
        }
    }
    if told is Full && !projection.fresh_instance {
        let i = choose|i: int|
            0 <= i < projection.paths@.len() && !names_below(#[trigger] projection.paths@[i]@);
        assert(!(projection.paths@[i]@.len() >= 2 && projection.paths@[i]@[0] == 0x2f));
    }
}

/// A scan root is accepted exactly where it is a directory, of the filesystem and the
/// subvolume that were promised, and read-only as was promised.
pub proof fn law_accepted_scan_root(report: ScanRootReport, expected: SnapshotIdentity)
    ensures
        scan_root_fault(report, expected) is None <==> {
            &&& report.is_directory matches Ok(directory)
            &&& directory
            &&& report.filesystem_uuid matches Ok(filesystem)
            &&& filesystem == expected.filesystem_uuid
            &&& report.subvolume matches Ok((subvolume, read_only))
            &&& subvolume == expected.subvolume_uuid
            &&& read_only
            &&& expected.read_only
        },
{
}

/// The clock counts seconds and nanoseconds together, up to the largest number.
pub proof fn law_clock_counts_both(seconds: i64, nanoseconds: i64)
    requires
        seconds >= 0,
        nanoseconds >= 0,
    ensures
        seconds * 1_000_000_000 + nanoseconds <= u64::MAX ==> clock_ns(Some((seconds, nanoseconds)))
            == seconds * 1_000_000_000 + nanoseconds,
        seconds * 1_000_000_000 + nanoseconds > u64::MAX ==> clock_ns(Some((seconds, nanoseconds)))
            == u64::MAX,
        clock_ns(None) == 0,
{
}

/// A lease of some length taken now runs out that much later.
pub proof fn law_lease_lasts_its_length(now_ns: u64, ttl_ns: i64)
    requires
        ttl_ns >= 0,
    ensures
        now_ns + ttl_ns <= u64::MAX ==> boot_end(now_ns, ttl_ns) == now_ns + ttl_ns,
        now_ns + ttl_ns > u64::MAX ==> boot_end(now_ns, ttl_ns) == u64::MAX,
{
}

/// A lease is renewed after a third of the time that is left, after a minute at most.
pub proof fn law_renewed_after_a_third(expires_ns: u64, now_ns: u64)
    ensures
        ({
            let wait = interval_before(expires_ns, now_ns);
            &&& 1 <= wait <= 60_000_000_000
            &&& expires_ns >= now_ns + 3 && expires_ns - now_ns <= 180_000_000_000 ==> 3 * wait
                <= expires_ns - now_ns < 3 * wait + 3
            &&& expires_ns - now_ns > 180_000_000_000 ==> wait == 60_000_000_000
            &&& expires_ns < now_ns + 3 ==> wait == 1
        }),
{
}

/// Where a scan cannot be begun, what was prepared for it is released; only where preparing
/// itself failed, there is nothing to release.
pub proof fn law_prepared_answers_are_released(step: BeginStep)
    ensures
        holds_answer(step) <==> match step {
            BeginStep::Prepare => false,
            BeginStep::SnapshotPath
            | BeginStep::OpenSnapshot
            | BeginStep::Filesystem
            | BeginStep::Subvolume
            | BeginStep::Extend
            | BeginStep::Cursor => true,
        },
{
}

} // verus!
