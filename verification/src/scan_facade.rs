//! The sessions of direct scans: who opened them, until when they last, and
//! what is answered once they are finished.

use crate::bytes::get_range;
use crate::digest::{drawn, random_id};
use crate::manager::table::{any, find_first, first, remove, removing, some, take};
use crate::namespace::dots;
use crate::paths::{
    equal_paths, find_spans, is_rooted, names, rooted, same_path, spans_view, DOT, SLASH,
};
use crate::scan::{Invalidation, ScanError, ScanErrorKind};
use crate::text::{copy_bytes, in_context, same_bytes};
use vstd::prelude::*;

verus! {

/// How long a session lasts.
pub const SCAN_TTL_NS: i64 = 300_000_000_000;

/// How long a session lasts where its end is to be watched.
pub const TEST_SHORT_SCAN_TTL_NS: i64 = 300_000_000;

/// What a query found changed.
#[derive(Clone, Debug, Eq, PartialEq)]
pub struct Projection {
    pub fresh_instance: bool,
    pub paths: Vec<Vec<u8>>,
}

/// A session that is open, with the prepared answer `P` it keeps.
#[derive(Debug)]
pub struct ActiveScanSession<P> {
    pub session_id: Vec<u8>,
    pub prepared: P,
    pub expires_ns: i64,
}

/// A session that was finished, for as long as that is remembered.
#[derive(Clone, Debug, Eq, PartialEq)]
pub struct FinishedScanSession {
    pub session_id: Vec<u8>,
    pub expires_ns: i64,
}

/// The sessions on one live root.
#[derive(Debug)]
pub struct FacadeScanHandler<P> {
    pub expected_live_root: Vec<u8>,
    pub watch_id: [u8; 16],
    pub requester_uid: u32,
    pub requester_gid: u32,
    pub sessions: Vec<ActiveScanSession<P>>,
    pub finished_sessions: Vec<FinishedScanSession>,
}

/// The outside steps of beginning a scan, in their order.
#[derive(Clone, Copy, Debug, Eq, PartialEq, Structural)]
pub enum BeginStep {
    Prepare,
    SnapshotPath,
    OpenSnapshot,
    Filesystem,
    Subvolume,
    Extend,
    Cursor,
}

/// What the step does.
pub open spec fn step_text(step: BeginStep) -> Seq<char> {
    match step {
        BeginStep::Prepare => "prepare AWACS scan cut"@,
        BeginStep::SnapshotPath => "load AWACS scan snapshot path"@,
        BeginStep::OpenSnapshot => "open AWACS scan snapshot"@,
        BeginStep::Filesystem => "inspect AWACS scan filesystem"@,
        BeginStep::Subvolume => "inspect AWACS scan subvolume"@,
        BeginStep::Extend => "extend AWACS scan lease"@,
        BeginStep::Cursor => "encode AWACS direct cursor"@,
    }
}

/// Whether an answer was prepared before the step, which must be released
/// where the step fails.
pub open spec fn holds_answer(step: BeginStep) -> bool {
    step != BeginStep::Prepare
}

/// What follows from a failed step: whether to release the prepared answer,
/// and the error.
pub fn fail_begin(step: BeginStep, cause: &str) -> (failed: (bool, ScanError))
    ensures
        failed.0 == holds_answer(step),
        failed.1.of_kind() == ScanErrorKind::Other,
        failed.1.text() == in_context(step_text(step), cause@),
{
    let kind = ScanErrorKind::Other;
    match step {
        BeginStep::Prepare => (false, ScanError::context(kind, "prepare AWACS scan cut", cause)),
        BeginStep::SnapshotPath => (
            true,
            ScanError::context(kind, "load AWACS scan snapshot path", cause),
        ),
        BeginStep::OpenSnapshot => (
            true,
            ScanError::context(kind, "open AWACS scan snapshot", cause),
        ),
        BeginStep::Filesystem => (
            true,
            ScanError::context(kind, "inspect AWACS scan filesystem", cause),
        ),
        BeginStep::Subvolume => (
            true,
            ScanError::context(kind, "inspect AWACS scan subvolume", cause),
        ),
        BeginStep::Extend => (true, ScanError::context(kind, "extend AWACS scan lease", cause)),
        BeginStep::Cursor => (
            true,
            ScanError::context(kind, "encode AWACS direct cursor", cause),
        ),
    }
}

/// The open sessions that have run out.
pub open spec fn lapsed<P>(now_ns: i64) -> spec_fn(ActiveScanSession<P>) -> bool {
    |session: ActiveScanSession<P>| session.expires_ns <= now_ns
}

/// The finished sessions that need not be remembered any more.
pub open spec fn forgotten(now_ns: i64) -> spec_fn(FinishedScanSession) -> bool {
    |session: FinishedScanSession| session.expires_ns <= now_ns
}

/// The open session with the identifier.
pub open spec fn open_with<P>(id: Seq<u8>) -> spec_fn(ActiveScanSession<P>) -> bool {
    |session: ActiveScanSession<P>| session.session_id@ == id
}

/// The finished session with the identifier.
pub open spec fn finished_with(id: Seq<u8>) -> spec_fn(FinishedScanSession) -> bool {
    |session: FinishedScanSession| session.session_id@ == id
}

/// Why a live root is refused.
pub open spec fn live_root_fault(requested: Result<Vec<u8>, String>, expected: Seq<u8>) -> Option<
    (ScanErrorKind, Seq<char>),
> {
    match requested {
        Err(cause) => Some(
            (
                ScanErrorKind::Unavailable,
                in_context("canonicalize AWACS scan root"@, cause@),
            ),
        ),
        Ok(root) => if !same_path(root@, expected) {
            Some(
                (
                    ScanErrorKind::Unauthorized,
                    "AWACS scan root does not match the registered live root"@,
                ),
            )
        } else {
            None
        },
    }
}

/// When a lease of that length, taken now, runs out.
pub open spec fn lease_end(now_ns: i64, ttl_ns: i64) -> Option<i64> {
    if i64::MIN <= now_ns + ttl_ns <= i64::MAX {
        Some((now_ns + ttl_ns) as i64)
    } else {
        None
    }
}

/// Why a session that would never run out cannot be opened.
pub open spec fn endless(now_ns: i64, ttl_ns: i64, error: ScanError) -> bool {
    &&& lease_end(now_ns, ttl_ns) is None
    &&& error.of_kind() == ScanErrorKind::Other
    &&& error.text() == "AWACS scan lease expiration overflow"@
}

/// What opening the session for a prepared answer does.
pub open spec fn opens_session<P>(
    before: FacadeScanHandler<P>,
    after: FacadeScanHandler<P>,
    session_id: Seq<u8>,
    prepared: P,
    now_ns: i64,
    ttl_ns: i64,
    expires_ns: i64,
) -> bool {
    let opened = after.sessions@.last();
    &&& lease_end(now_ns, ttl_ns) == Some(expires_ns)
    &&& after == (FacadeScanHandler { sessions: after.sessions, ..before })
    &&& after.sessions@ == removing(before.sessions@, open_with(session_id)).push(opened)
    &&& opened.session_id@ == session_id
    &&& opened.prepared == prepared
    &&& opened.expires_ns == expires_ns
}

fn find_open<P>(sessions: &Vec<ActiveScanSession<P>>, id: &[u8]) -> (at: Option<usize>)
    ensures
        match at {
            Some(at) => first(sessions@, open_with(id@)) == Some(at as int) && at
                < sessions@.len(),
            None => first(sessions@, open_with(id@)) is None,
        },
{
    let test = |session: &ActiveScanSession<P>| -> (picked: bool)
        ensures
            picked == open_with(id@)(*session),
        { same_bytes(&session.session_id, id) };
    find_first(sessions, test, Ghost(open_with(id@)))
}

/// What recording a renewal does.
pub open spec fn records_renewal<P>(
    before: FacadeScanHandler<P>,
    after: FacadeScanHandler<P>,
    id: Seq<u8>,
    now_ns: i64,
    reply: Result<(), String>,
    renewed: Result<(), ScanError>,
) -> bool {
    match first(before.sessions@, open_with(id)) {
        None => {
            &&& after == before
            &&& renewed matches Err(error)
            &&& error.of_kind() == ScanErrorKind::LeaseExpired
            &&& error.text() == "unknown AWACS session"@
        },
        Some(at) => match (reply, lease_end(now_ns, SCAN_TTL_NS)) {
            (Err(cause), _) => {
                &&& after == before
                &&& renewed matches Err(error)
                &&& error.of_kind() == ScanErrorKind::LeaseExpired
                &&& error.text() == cause@
            },
            (Ok(_), None) => {
                &&& after == before
                &&& renewed matches Err(error)
                &&& error.of_kind() == ScanErrorKind::Other
                &&& error.text() == "AWACS scan lease expiration overflow"@
            },
            (Ok(_), Some(expires_ns)) => {
                &&& renewed is Ok
                &&& after == (FacadeScanHandler { sessions: after.sessions, ..before })
                &&& after.sessions@ =~= before.sessions@.update(
                    at,
                    ActiveScanSession { expires_ns, ..before.sessions@[at] },
                )
            },
        },
    }
}

/// What recording the end of a session does.
pub open spec fn records_finish<P>(
    before: FacadeScanHandler<P>,
    after: FacadeScanHandler<P>,
    id: Seq<u8>,
    now_ns: i64,
    reply: Result<(), String>,
    recorded: Result<(), ScanError>,
) -> bool {
    match (reply, lease_end(now_ns, SCAN_TTL_NS)) {
        (Err(cause), _) => {
            &&& after == before
            &&& recorded matches Err(error)
            &&& error.of_kind() == ScanErrorKind::Other
            &&& error.text() == in_context("finish AWACS scan lease"@, cause@)
        },
        (Ok(_), None) => {
            &&& after == before
            &&& recorded matches Err(error)
            &&& error.of_kind() == ScanErrorKind::Other
            &&& error.text() == "AWACS finish tombstone expiration overflow"@
        },
        (Ok(_), Some(expires_ns)) => {
            let kept = removing(before.finished_sessions@, finished_with(id));
            &&& recorded is Ok
            &&& after == (FacadeScanHandler {
                finished_sessions: after.finished_sessions,
                ..before
            })
            &&& after.finished_sessions@ =~= kept.push(after.finished_sessions@.last())
            &&& after.finished_sessions@.last().session_id@ == id
            &&& after.finished_sessions@.last().expires_ns == expires_ns
        },
    }
}

/// What taking out the sessions that have run out does.
pub open spec fn expires_sessions<P>(
    before: FacadeScanHandler<P>,
    after: FacadeScanHandler<P>,
    now_ns: i64,
    expired: Seq<ActiveScanSession<P>>,
) -> bool {
    &&& after == (FacadeScanHandler {
        sessions: after.sessions,
        finished_sessions: after.finished_sessions,
        ..before
    })
    &&& after.sessions@ =~= removing(before.sessions@, lapsed(now_ns))
    &&& after.finished_sessions@ =~= removing(before.finished_sessions@, forgotten(now_ns))
    &&& expired =~= before.sessions@.filter(lapsed(now_ns))
}

/// What asking for the prepared answer of an open session gives.
pub open spec fn finds_session<P>(
    handler: FacadeScanHandler<P>,
    id: Seq<u8>,
    prepared: Result<&P, ScanError>,
) -> bool {
    match (first(handler.sessions@, open_with(id)), prepared) {
        (Some(at), Ok(prepared)) => *prepared == handler.sessions@[at].prepared,
        (None, Err(error)) => error.of_kind() == ScanErrorKind::LeaseExpired && error.text()
            == "unknown AWACS session"@,
        _ => false,
    }
}

/// What taking the answer of a session that is to be finished does.
pub open spec fn takes_session<P>(
    before: FacadeScanHandler<P>,
    after: FacadeScanHandler<P>,
    id: Seq<u8>,
    taken: Result<Option<P>, ScanError>,
) -> bool {
    if some(before.finished_sessions@, finished_with(id)) {
        after == before && taken == Ok::<Option<P>, ScanError>(None)
    } else {
        match first(before.sessions@, open_with(id)) {
            None => {
                &&& after == before
                &&& taken matches Err(error)
                &&& error.of_kind() == ScanErrorKind::LeaseExpired
                &&& error.text() == "unknown AWACS session"@
            },
            Some(at) => {
                &&& after == (FacadeScanHandler {
                    sessions: after.sessions,
                    ..before
                })
                &&& after.sessions@ =~= before.sessions@.remove(at)
                &&& taken == Ok::<Option<P>, ScanError>(
                    Some(before.sessions@[at].prepared),
                )
            },
        }
    }
}

impl<P> FacadeScanHandler<P> {
    /// A handler without sessions.
    pub fn new(
        expected_live_root: Vec<u8>,
        watch_id: [u8; 16],
        requester_uid: u32,
        requester_gid: u32,
    ) -> (handler: Self)
        ensures
            handler.expected_live_root == expected_live_root,
            handler.watch_id == watch_id,
            handler.requester_uid == requester_uid,
            handler.requester_gid == requester_gid,
            handler.sessions@.len() == 0,
            handler.finished_sessions@.len() == 0,
    {
        FacadeScanHandler {
            expected_live_root,
            watch_id,
            requester_uid,
            requester_gid,
            sessions: Vec::new(),
            finished_sessions: Vec::new(),
        }
    }

    /// Checks that a scan is asked for the root that was registered.
    pub fn check_live_root(&self, requested: &Result<Vec<u8>, String>) -> (checked: Result<
        (),
        ScanError,
    >)
        ensures
            match checked {
                Ok(_) => live_root_fault(*requested, self.expected_live_root@) is None,
                Err(error) => live_root_fault(*requested, self.expected_live_root@) == Some(
                    (error.of_kind(), error.text()),
                ),
            },
    {
        match requested {
            Err(cause) => Err(
                ScanError::context(
                    ScanErrorKind::Unavailable,
                    "canonicalize AWACS scan root",
                    cause.as_str(),
                ),
            ),
            Ok(root) => if equal_paths(root, &self.expected_live_root) {
                Ok(())
            } else {
                Err(
                    ScanError::new(
                        ScanErrorKind::Unauthorized,
                        "AWACS scan root does not match the registered live root",
                    ),
                )
            },
        }
    }

    /// Takes out the sessions that have run out, whose answers are to be
    /// released, and forgets what need not be remembered.
    pub fn expire_sessions(&mut self, now_ns: i64) -> (expired: Vec<ActiveScanSession<P>>)
        ensures
            expires_sessions(*old(self), *final(self), now_ns, expired@),
    {
        let test = |session: &FinishedScanSession| -> (picked: bool)
            ensures
                picked == forgotten(now_ns)(*session),
            { session.expires_ns <= now_ns };
        remove(&mut self.finished_sessions, test, Ghost(forgotten(now_ns)));
        let test = |session: &ActiveScanSession<P>| -> (picked: bool)
            ensures
                picked == lapsed::<P>(now_ns)(*session),
            { session.expires_ns <= now_ns };
        take(&mut self.sessions, test, Ghost(lapsed(now_ns)))
    }

    /// Opens the session for a prepared answer and tells when it runs out.
    pub fn open_session_as(
        &mut self,
        session_id: Vec<u8>,
        prepared: P,
        now_ns: i64,
        ttl_ns: i64,
    ) -> (opened: Result<i64, ScanError>)
        ensures
            match opened {
                Ok(expires_ns) => opens_session(
                    *old(self),
                    *final(self),
                    session_id@,
                    prepared,
                    now_ns,
                    ttl_ns,
                    expires_ns,
                ),
                Err(error) => *final(self) == *old(self) && endless(now_ns, ttl_ns, error),
            },
    {
        let expires_ns: i64 = match now_ns.checked_add(ttl_ns) {
            Some(expires_ns) => expires_ns,
            None => {
                return Err(
                    ScanError::new(ScanErrorKind::Other, "AWACS scan lease expiration overflow"),
                );
            },
        };
        let id = &session_id;
        let test = |session: &ActiveScanSession<P>| -> (picked: bool)
            ensures
                picked == open_with::<P>(id@)(*session),
            { same_bytes(&session.session_id, id) };
        remove(&mut self.sessions, test, Ghost(open_with(session_id@)));
        self.sessions.push(ActiveScanSession { session_id, prepared, expires_ns });
        Ok(expires_ns)
    }

    /// Opens a session with a random identifier for a prepared answer, and tells
    /// the identifier and when the session runs out.
    pub fn open_session(&mut self, prepared: P, now_ns: i64, ttl_ns: i64) -> (opened: Result<
        (Vec<u8>, i64),
        ScanError,
    >)
        ensures
            match opened {
                Ok((session_id, expires_ns)) => opens_session(
                    *old(self),
                    *final(self),
                    session_id@,
                    prepared,
                    now_ns,
                    ttl_ns,
                    expires_ns,
                ) && exists|id: [u8; 16]| drawn(id) && session_id@ == #[trigger] id@,
                Err(error) => *final(self) == *old(self) && endless(now_ns, ttl_ns, error),
            },
    {
        let id: [u8; 16] = random_id();
        match self.open_session_as(copy_bytes(&id), prepared, now_ns, ttl_ns) {
            Ok(expires_ns) => Ok((copy_bytes(&id), expires_ns)),
            Err(error) => Err(error),
        }
    }

    /// The prepared answer of an open session.
    pub fn active_session(&self, session_id: &[u8]) -> (prepared: Result<&P, ScanError>)
        ensures
            finds_session(*self, session_id@, prepared),
    {
        match find_open(&self.sessions, session_id) {
            Some(at) => Ok(&self.sessions[at].prepared),
            None => Err(ScanError::new(ScanErrorKind::LeaseExpired, "unknown AWACS session")),
        }
    }

    /// Records what came of renewing an open session's answer.
    pub fn record_renewal(&mut self, session_id: &[u8], now_ns: i64, reply: Result<(), String>) -> (
    renewed: Result<(), ScanError>)
        ensures
            records_renewal(*old(self), *final(self), session_id@, now_ns, reply, renewed),
    {
        let at: usize = match find_open(&self.sessions, session_id) {
            Some(at) => at,
            None => {
                return Err(ScanError::new(ScanErrorKind::LeaseExpired, "unknown AWACS session"));
            },
        };
        match reply {
            Err(cause) => {
                return Err(ScanError::new(ScanErrorKind::LeaseExpired, cause.as_str()));
            },
            Ok(_) => {},
        }
        match now_ns.checked_add(SCAN_TTL_NS) {
            Some(expires_ns) => {
                self.sessions[at].expires_ns = expires_ns;
                Ok(())
            },
            None => Err(
                ScanError::new(ScanErrorKind::Other, "AWACS scan lease expiration overflow"),
            ),
        }
    }

    /// Takes the answer of a session that is to be finished. A session that was
    /// finished before has none.
    pub fn take_session(&mut self, session_id: &[u8]) -> (taken: Result<Option<P>, ScanError>)
        ensures
            takes_session(*old(self), *final(self), session_id@, taken),
    {
        let test = |session: &FinishedScanSession| -> (picked: bool)
            ensures
                picked == finished_with(session_id@)(*session),
            { same_bytes(&session.session_id, session_id) };
        if any(&self.finished_sessions, test, Ghost(finished_with(session_id@))) {
            return Ok(None);
        }
        match find_open(&self.sessions, session_id) {
            Some(at) => {
                let session = self.sessions.remove(at);
                Ok(Some(session.prepared))
            },
            None => Err(ScanError::new(ScanErrorKind::LeaseExpired, "unknown AWACS session")),
        }
    }

    /// Records what came of releasing a finished session's answer.
    pub fn record_finish(&mut self, session_id: &[u8], now_ns: i64, reply: Result<(), String>) -> (
    recorded: Result<(), ScanError>)
        ensures
            records_finish(*old(self), *final(self), session_id@, now_ns, reply, recorded),
    {
        match reply {
            Err(cause) => {
                return Err(
                    ScanError::context(
                        ScanErrorKind::Other,
                        "finish AWACS scan lease",
                        cause.as_str(),
                    ),
                );
            },
            Ok(_) => {},
        }
        let expires_ns: i64 = match now_ns.checked_add(SCAN_TTL_NS) {
            Some(expires_ns) => expires_ns,
            None => {
                return Err(
                    ScanError::new(
                        ScanErrorKind::Other,
                        "AWACS finish tombstone expiration overflow",
                    ),
                );
            },
        };
        let test = |session: &FinishedScanSession| -> (picked: bool)
            ensures
                picked == finished_with(session_id@)(*session),
            { same_bytes(&session.session_id, session_id) };
        remove(&mut self.finished_sessions, test, Ghost(finished_with(session_id@)));
        self.finished_sessions.push(
            FinishedScanSession { session_id: copy_bytes(session_id), expires_ns },
        );
        Ok(())
    }
}

/// Whether a path names something below the root.
pub open spec fn names_below(path: Seq<u8>) -> bool {
    rooted(path) && path.len() > 1
}

/// The paths without their leading slash.
pub open spec fn unrooted(paths: Seq<Vec<u8>>) -> Seq<Seq<u8>> {
    paths.map_values(|path: Vec<u8>| path@.skip(1))
}

/// What a caller has to look at again.
pub open spec fn invalidates(projection: Projection, invalidation: Invalidation) -> bool {
    let exact = !projection.fresh_instance && forall|i: int|
        0 <= i < projection.paths@.len() ==> names_below(#[trigger] projection.paths@[i]@);
    match invalidation {
        Invalidation::Full => !exact,
        Invalidation::ExactPaths(paths) => exact && paths@.map_values(
            |path: Vec<u8>| path@,
        ) == unrooted(projection.paths@),
        Invalidation::Prefixes(_) => false,
    }
}

/// What a caller has to look at again: exactly the paths, or everything where
/// one of them is not below the root.
pub fn direct_invalidation(projection: &Projection) -> (invalidation: Invalidation)
    ensures
        invalidates(*projection, invalidation),
{
    if projection.fresh_instance {
        return Invalidation::Full;
    }
    let mut paths: Vec<Vec<u8>> = Vec::new();
    let mut at: usize = 0;
    while at < projection.paths.len()
        invariant
            at <= projection.paths@.len(),
            !projection.fresh_instance,
            forall|i: int| 0 <= i < at ==> names_below(#[trigger] projection.paths@[i]@),
            paths@.len() == at,
            forall|i: int|
                0 <= i < at ==> (#[trigger] paths@[i])@ == projection.paths@[i]@.skip(1),
        decreases projection.paths.len() - at,
    {
        let path = &projection.paths[at];
        if path.len() < 2 || path[0] != SLASH {
            assert(!names_below(projection.paths@[at as int]@));
            return Invalidation::Full;
        }
        let rest = get_range(path, 1, path.len());
        assert(rest@ =~= path@.skip(1));
        paths.push(rest);
        at += 1;
    }
    assert(paths@.map_values(|path: Vec<u8>| path@) =~= unrooted(projection.paths@));
    Invalidation::ExactPaths(paths)
}

/// The wall clock in nanoseconds since the epoch.
pub fn unix_time_ns(reading: &Result<u128, String>) -> (now_ns: Result<i64, ScanError>)
    ensures
        match (*reading, now_ns) {
            (Ok(nanoseconds), Ok(now_ns)) => now_ns == nanoseconds,
            (Ok(nanoseconds), Err(error)) => nanoseconds > i64::MAX && error.of_kind()
                == ScanErrorKind::Other && error.text() == "AWACS wall clock overflow"@,
            (Err(cause), Err(error)) => error.of_kind() == ScanErrorKind::Other && error.text()
                == in_context("read AWACS wall clock"@, cause@),
            _ => false,
        },
{
    match reading {
        Err(cause) => Err(
            ScanError::context(ScanErrorKind::Other, "read AWACS wall clock", cause.as_str()),
        ),
        Ok(nanoseconds) => if *nanoseconds > i64::MAX as u128 {
            Err(ScanError::new(ScanErrorKind::Other, "AWACS wall clock overflow"))
        } else {
            Ok(*nanoseconds as i64)
        },
    }
}

/// When a lease of that length, taken now, runs out by the clock since boot, as much of
/// it as a number holds.
pub open spec fn boot_end(now_boottime_ns: u64, ttl_ns: i64) -> u64 {
    if now_boottime_ns + (ttl_ns as u64) > u64::MAX {
        u64::MAX
    } else {
        (now_boottime_ns + (ttl_ns as u64)) as u64
    }
}

/// When a lease of that length, taken now, runs out by the clock since boot.
pub fn lease_boottime_ns(now_boottime_ns: u64, ttl_ns: i64) -> (expires_ns: u64)
    ensures
        expires_ns == boot_end(now_boottime_ns, ttl_ns),
{
    let total: u128 = now_boottime_ns as u128 + (ttl_ns as u64) as u128;
    if total > u64::MAX as u128 {
        u64::MAX
    } else {
        total as u64
    }
}

/// Whether a path leads straight down from where it starts.
pub open spec fn leads_down(path: Seq<u8>) -> bool {
    &&& path.len() > 0
    &&& !rooted(path)
    &&& forall|i: int| 0 <= i < names(path).len() ==> !dots(#[trigger] names(path)[i])
}

/// Checks the path that a live mutation is rehearsed at.
pub fn check_hook_path(path: &[u8]) -> (checked: Result<(), ScanError>)
    ensures
        match checked {
            Ok(_) => leads_down(path@),
            Err(error) => !leads_down(path@) && error.of_kind() == ScanErrorKind::Other
                && error.text() == "AWACS scan test hook path must be relative and normal"@,
        },
{
    let mut down: bool = path.len() > 0 && !is_rooted(path);
    let spans = find_spans(path);
    proof {
        assert(names(path@).len() == spans@.len());
        assert forall|i: int| 0 <= i < spans@.len() implies #[trigger] names(path@)[i]
            == path@.subrange(spans@[i].0 as int, spans@[i].1 as int) by {
            assert(spans_view(spans@)[i] == (spans@[i].0 as int, spans@[i].1 as int));
        }
    }
    let mut at: usize = 0;
    while at < spans.len()
        invariant
            at <= spans@.len(),
            names(path@).len() == spans@.len(),
            forall|i: int|
                0 <= i < spans@.len() ==> (#[trigger] spans@[i]).0 < spans@[i].1 <= path@.len(),
            forall|i: int|
                0 <= i < spans@.len() ==> #[trigger] names(path@)[i] == path@.subrange(
                    spans@[i].0 as int,
                    spans@[i].1 as int,
                ),
            down == (path@.len() > 0 && !rooted(path@) && forall|i: int|
                0 <= i < at ==> !dots(#[trigger] names(path@)[i])),
        decreases spans.len() - at,
    {
        let name = get_range(path, spans[at].0, spans[at].1);
        let dotted: bool = (name.len() == 1 && name[0] == DOT) || (name.len() == 2 && name[0]
            == DOT && name[1] == DOT);
        proof {
            assert(name@ == names(path@)[at as int]);
            assert(dotted == dots(name@)) by {
                if dotted && name@.len() == 1 {
                    assert(name@ =~= seq![DOT]);
                }
                if dotted && name@.len() == 2 {
                    assert(name@ =~= seq![DOT, DOT]);
                }
            }
        }
        if dotted {
            down = false;
        }
        at += 1;
    }
    if down {
        Ok(())
    } else {
        Err(
            ScanError::new(
                ScanErrorKind::Other,
                "AWACS scan test hook path must be relative and normal",
            ),
        )
    }
}

/// Finishing a session again, while that is remembered, succeeds and changes
/// nothing.
pub proof fn law_finish_is_remembered<P>(
    before: FacadeScanHandler<P>,
    after: FacadeScanHandler<P>,
    id: Seq<u8>,
    now_ns: i64,
    reply: Result<(), String>,
    recorded: Result<(), ScanError>,
)
    requires
        records_finish(before, after, id, now_ns, reply, recorded),
        recorded is Ok,
    ensures
        some(after.finished_sessions@, finished_with(id)),
{
    let last = after.finished_sessions@.len() - 1;
    assert(finished_with(id)(after.finished_sessions@[last]));
}

} // verus!
