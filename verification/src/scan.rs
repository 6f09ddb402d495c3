//! Scans of immutable snapshots, as their callers see them. Every scan keeps
//! one handle on its snapshot until its lease is finished.

use crate::text::{context_text, in_context, same_array};
use vstd::prelude::*;

verus! {

/// How long a caller waits at most before it renews a lease.
pub const MAX_RENEW_INTERVAL_NS: u64 = 60_000_000_000;

/// The snapshot that a caller has seen, and what lets it go on from there.
#[derive(Clone, Debug, Eq, PartialEq)]
pub struct SnapshotBaseline {
    pub identity: SnapshotIdentity,
    pub continuity_token: Vec<u8>,
    pub retention_token: Vec<u8>,
}

#[derive(Clone, Debug, Eq, PartialEq)]
pub struct BeginScanRequest {
    pub live_root: Vec<u8>,
    pub baseline_owner_id: [u8; 16],
    pub previous_baseline: Option<SnapshotBaseline>,
    /// Whether the caller may be told that the whole tree changed. A caller
    /// that may not fails instead where no exact answer can be given.
    pub allow_full_invalidation: bool,
}

/// What a caller has to look at again.
#[derive(Clone, Debug, Eq, PartialEq)]
pub enum Invalidation {
    Full,
    ExactPaths(Vec<Vec<u8>>),
    Prefixes(Vec<Vec<u8>>),
}

#[derive(Clone, Copy, Debug, Eq, PartialEq)]
pub struct SnapshotIdentity {
    pub filesystem_uuid: [u8; 16],
    pub subvolume_uuid: [u8; 16],
    pub read_only: bool,
}

#[derive(Clone, Copy, Debug, Eq, PartialEq, Structural)]
pub enum ScanOutcome {
    Committed,
    Aborted,
}

#[derive(Clone, Copy, Debug, Eq, PartialEq, Structural)]
pub enum ScanErrorKind {
    UnsupportedFilesystem,
    Unavailable,
    InvalidPreviousBaseline,
    FullScanRequired,
    LeaseExpired,
    Unauthorized,
    MalformedResponse,
    Other,
}

/// Why a scan is refused.
#[derive(Debug)]
pub struct ScanError {
    kind: ScanErrorKind,
    message: String,
}

impl ScanError {
    /// What kind of error it is.
    pub closed spec fn of_kind(&self) -> ScanErrorKind {
        self.kind
    }

    /// The diagnostic text.
    pub closed spec fn text(&self) -> Seq<char> {
        self.message@
    }

    pub fn new(kind: ScanErrorKind, message: &str) -> (error: Self)
        ensures
            error.of_kind() == kind,
            error.text() == message@,
    {
        ScanError { kind, message: message.to_owned() }
    }

    /// Puts the cause behind the step that failed.
    pub fn context(kind: ScanErrorKind, context: &str, cause: &str) -> (error: Self)
        ensures
            error.of_kind() == kind,
            error.text() == in_context(context@, cause@),
    {
        ScanError { kind, message: context_text(context, cause) }
    }

    pub fn kind(&self) -> (kind: ScanErrorKind)
        ensures
            kind == self.of_kind(),
    {
        self.kind
    }

    pub fn message(&self) -> (message: &str)
        ensures
            message@ == self.text(),
    {
        self.message.as_str()
    }
}

/// The other side of a scan lease. What each request does to it and answers is
/// the other side's own affair, named here so that a lease can say which
/// request it made. A session that says no more of a request lets it go any way.
pub trait ScanSession: Send {
    /// Whether a request to keep the lease longer can go that way.
    open spec fn renews(before: &Self, after: &Self, renewed: Result<(), ScanError>) -> bool {
        true
    }

    /// Whether a request to keep the snapshot as a baseline can go that way.
    open spec fn promotes(before: &Self, after: &Self, promoted: Result<(), ScanError>) -> bool {
        true
    }

    /// Whether a request to finish with the outcome can go that way.
    open spec fn finishes(
        before: &Self,
        after: &Self,
        outcome: ScanOutcome,
        finished: Result<(), ScanError>,
    ) -> bool {
        true
    }

    fn renew(&mut self) -> (renewed: Result<(), ScanError>)
        ensures
            Self::renews(old(self), final(self), renewed),
    ;

    fn promote(&mut self) -> (promoted: Result<(), ScanError>)
        ensures
            Self::promotes(old(self), final(self), promoted),
    ;

    fn finish(&mut self, outcome: ScanOutcome) -> (finished: Result<(), ScanError>)
        ensures
            Self::finishes(old(self), final(self), outcome, finished),
    ;
}

/// A leased scan, with the handle `R` on its snapshot and the session `S` that
/// keeps it.
pub struct SnapshotLease<R, S: ScanSession> {
    pub next_baseline: SnapshotBaseline,
    pub invalidation: Invalidation,
    pub expires_boottime_ns: u64,
    scan_root: R,
    session: S,
    finished_outcome: Option<ScanOutcome>,
}

/// How long to wait before renewing a lease that runs out then.
pub open spec fn interval_before(expires_boottime_ns: u64, now_boottime_ns: u64) -> u64 {
    let left = if expires_boottime_ns > now_boottime_ns {
        expires_boottime_ns - now_boottime_ns
    } else {
        0
    };
    if left / 3 < 1 {
        1
    } else if left / 3 > MAX_RENEW_INTERVAL_NS {
        MAX_RENEW_INTERVAL_NS
    } else {
        (left / 3) as u64
    }
}

/// What asking to finish a lease gives, without asking the other side where
/// the lease was finished before.
pub open spec fn settled_finish(finished: Option<ScanOutcome>, outcome: ScanOutcome) -> Option<
    Result<(), (ScanErrorKind, Seq<char>)>,
> {
    match finished {
        None => None,
        Some(previous) => if previous == outcome {
            Some(Ok(()))
        } else {
            Some(
                Err(
                    (
                        ScanErrorKind::Other,
                        "AWACS scan lease was already finished with a different outcome"@,
                    ),
                ),
            )
        },
    }
}

/// Whether the lease may be finished that way, where that is known without the
/// other side.
pub fn check_finish(finished: Option<ScanOutcome>, outcome: ScanOutcome) -> (settled: Option<
    Result<(), ScanError>,
>)
    ensures
        match (settled, settled_finish(finished, outcome)) {
            (None, None) => true,
            (Some(Ok(_)), Some(Ok(_))) => true,
            (Some(Err(error)), Some(Err((kind, text)))) => error.of_kind() == kind && error.text()
                == text,
            _ => false,
        },
{
    match finished {
        None => None,
        Some(previous) => if previous == outcome {
            Some(Ok(()))
        } else {
            Some(
                Err(
                    ScanError::new(
                        ScanErrorKind::Other,
                        "AWACS scan lease was already finished with a different outcome",
                    ),
                ),
            )
        },
    }
}

/// What finishing a lease with the outcome does: the other side is asked for
/// that outcome where the lease is not finished yet, and its answer stands.
pub open spec fn finishes_lease<R, S: ScanSession>(
    before: SnapshotLease<R, S>,
    after: SnapshotLease<R, S>,
    outcome: ScanOutcome,
    finished: Result<(), ScanError>,
) -> bool {
    match settled_finish(before.outcome(), outcome) {
        Some(Ok(_)) => finished is Ok && after == before,
        Some(Err((kind, text))) => {
            &&& finished matches Err(error)
            &&& error.of_kind() == kind
            &&& error.text() == text
            &&& after == before
        },
        None => {
            &&& S::finishes(&before.side(), &after.side(), outcome, finished)
            &&& after.same_scan(&before)
            &&& after.outcome() == if finished is Ok {
                Some(outcome)
            } else {
                None
            }
        },
    }
}

impl<R, S: ScanSession> SnapshotLease<R, S> {
    /// The baseline that the scan leads to.
    pub closed spec fn baseline(&self) -> SnapshotBaseline {
        self.next_baseline
    }

    /// What changed since the baseline before.
    pub closed spec fn invalidated(&self) -> Invalidation {
        self.invalidation
    }

    /// When the lease runs out.
    pub closed spec fn expiry(&self) -> u64 {
        self.expires_boottime_ns
    }

    /// The handle on the snapshot.
    pub closed spec fn root(&self) -> R {
        self.scan_root
    }

    /// The other side.
    pub closed spec fn side(&self) -> S {
        self.session
    }

    /// How the lease was finished, if it was.
    pub closed spec fn outcome(&self) -> Option<ScanOutcome> {
        self.finished_outcome
    }

    /// Whether the lease is of the same scan, on the same terms.
    pub open spec fn same_scan(&self, other: &Self) -> bool {
        &&& self.baseline() == other.baseline()
        &&& self.invalidated() == other.invalidated()
        &&& self.expiry() == other.expiry()
        &&& self.root() == other.root()
    }

    pub fn new(
        next_baseline: SnapshotBaseline,
        invalidation: Invalidation,
        expires_boottime_ns: u64,
        scan_root: R,
        session: S,
    ) -> (lease: Self)
        ensures
            lease.baseline() == next_baseline,
            lease.invalidated() == invalidation,
            lease.expiry() == expires_boottime_ns,
            lease.root() == scan_root,
            lease.side() == session,
            lease.outcome() is None,
    {
        SnapshotLease {
            next_baseline,
            invalidation,
            expires_boottime_ns,
            scan_root,
            session,
            finished_outcome: None,
        }
    }

    pub fn scan_root(&self) -> (root: &R)
        ensures
            *root == self.root(),
    {
        &self.scan_root
    }

    /// Asks the other side to keep the lease longer.
    pub fn renew(&mut self) -> (renewed: Result<(), ScanError>)
        ensures
            S::renews(&old(self).side(), &final(self).side(), renewed),
            final(self).same_scan(old(self)),
            final(self).outcome() == old(self).outcome(),
    {
        self.session.renew()
    }

    /// Asks the other side to keep the snapshot as a baseline.
    pub fn promote(&mut self) -> (promoted: Result<(), ScanError>)
        ensures
            S::promotes(&old(self).side(), &final(self).side(), promoted),
            final(self).same_scan(old(self)),
            final(self).outcome() == old(self).outcome(),
    {
        self.session.promote()
    }

    /// How many nanoseconds to wait before renewing the lease.
    pub fn renewal_interval(&self, now_boottime_ns: u64) -> (interval_ns: u64)
        ensures
            interval_ns == interval_before(self.expiry(), now_boottime_ns),
    {
        let left: u64 = if self.expires_boottime_ns > now_boottime_ns {
            self.expires_boottime_ns - now_boottime_ns
        } else {
            0
        };
        let third: u64 = left / 3;
        if third < 1 {
            1
        } else if third > MAX_RENEW_INTERVAL_NS {
            MAX_RENEW_INTERVAL_NS
        } else {
            third
        }
    }

    /// Finishes the lease. The other side is asked once only: a lease that was
    /// finished stays as it was finished.
    pub fn finish(&mut self, outcome: ScanOutcome) -> (finished: Result<(), ScanError>)
        ensures
            finishes_lease(*old(self), *final(self), outcome, finished),
    {
        match check_finish(self.finished_outcome, outcome) {
            Some(settled) => {
                return settled;
            },
            None => {},
        }
        let answer = self.session.finish(outcome);
        if answer.is_ok() {
            self.finished_outcome = Some(outcome);
        }
        answer
    }
}

/// A time since boot in nanoseconds, as much of it as a number holds. A clock
/// that cannot be read is at zero.
pub open spec fn clock_ns(reading: Option<(i64, i64)>) -> u64 {
    match reading {
        None => 0,
        Some((seconds, nanoseconds)) => {
            let whole = (seconds as u64) * 1_000_000_000;
            let capped: int = if whole > u64::MAX {
                u64::MAX as int
            } else {
                whole
            };
            let sum = capped + (nanoseconds as u64);
            if sum > u64::MAX {
                u64::MAX
            } else {
                sum as u64
            }
        },
    }
}

/// The time since boot in nanoseconds, from the seconds and nanoseconds that
/// the clock gave.
pub fn boottime_now_ns(reading: Option<(i64, i64)>) -> (now_ns: u64)
    ensures
        now_ns == clock_ns(reading),
{
    match reading {
        None => 0,
        Some((seconds, nanoseconds)) => {
            let total: u128 = (seconds as u64) as u128 * 1_000_000_000
                + (nanoseconds as u64) as u128;
            if total > u64::MAX as u128 {
                u64::MAX
            } else {
                total as u64
            }
        },
    }
}

/// What was found out of a scan root.
#[derive(Debug)]
pub struct ScanRootReport {
    pub is_directory: Result<bool, String>,
    pub filesystem_uuid: Result<[u8; 16], String>,
    pub subvolume: Result<([u8; 16], bool), String>,
}

/// Why a scan root is not the expected snapshot.
pub open spec fn scan_root_fault(report: ScanRootReport, expected: SnapshotIdentity) -> Option<
    Seq<char>,
> {
    match report.is_directory {
        Err(cause) => Some(in_context("inspect AWACS scan root metadata"@, cause@)),
        Ok(is_directory) => if !is_directory {
            Some("AWACS scan root fd is not a directory"@)
        } else {
            match report.filesystem_uuid {
                Err(cause) => Some(in_context("inspect AWACS scan root filesystem"@, cause@)),
                Ok(filesystem_uuid) => match report.subvolume {
                    Err(cause) => Some(in_context("inspect AWACS scan root subvolume"@, cause@)),
                    Ok((subvolume_uuid, read_only)) => if filesystem_uuid
                        != expected.filesystem_uuid || subvolume_uuid != expected.subvolume_uuid
                        || !expected.read_only || !read_only {
                        Some(
                            "AWACS scan root identity or read-only flag does not match its response"@,
                        )
                    } else {
                        None
                    },
                },
            }
        },
    }
}

/// Checks that a scan root is the expected read-only snapshot.
pub fn validate_scan_root(report: &ScanRootReport, expected: &SnapshotIdentity) -> (checked: Result<
    (),
    ScanError,
>)
    ensures
        match checked {
            Ok(_) => scan_root_fault(*report, *expected) is None,
            Err(error) => scan_root_fault(*report, *expected) == Some(error.text())
                && error.of_kind() == ScanErrorKind::MalformedResponse,
        },
{
    let kind = ScanErrorKind::MalformedResponse;
    match &report.is_directory {
        Err(cause) => {
            return Err(
                ScanError::context(kind, "inspect AWACS scan root metadata", cause.as_str()),
            );
        },
        Ok(is_directory) => {
            if !*is_directory {
                return Err(ScanError::new(kind, "AWACS scan root fd is not a directory"));
            }
        },
    }
    let filesystem_uuid: &[u8; 16] = match &report.filesystem_uuid {
        Err(cause) => {
            return Err(
                ScanError::context(kind, "inspect AWACS scan root filesystem", cause.as_str()),
            );
        },
        Ok(uuid) => uuid,
    };
    match &report.subvolume {
        Err(cause) => Err(
            ScanError::context(kind, "inspect AWACS scan root subvolume", cause.as_str()),
        ),
        Ok((subvolume_uuid, read_only)) => if !same_array(
            filesystem_uuid,
            &expected.filesystem_uuid,
        ) || !same_array(subvolume_uuid, &expected.subvolume_uuid) || !expected.read_only
            || !*read_only {
            Err(
                ScanError::new(
                    kind,
                    "AWACS scan root identity or read-only flag does not match its response",
                ),
            )
        } else {
            Ok(())
        },
    }
}

/// Where a caller asks for scans.
pub trait ScanClient: Send {
    type Root;

    type Session: ScanSession;

    fn begin_scan(&mut self, request: &BeginScanRequest) -> (lease: Result<
        SnapshotLease<Self::Root, Self::Session>,
        ScanError,
    >);

    fn release_baseline(&mut self, baseline_owner_id: [u8; 16]) -> (released: Result<
        (),
        ScanError,
    >);
}

/// A lease is always renewed some time before it runs out, and at least once a
/// minute, where there is time to wait at all.
pub proof fn law_renewal_precedes_expiry(expires_boottime_ns: u64, now_boottime_ns: u64)
    ensures
        1 <= interval_before(expires_boottime_ns, now_boottime_ns) <= MAX_RENEW_INTERVAL_NS,
        expires_boottime_ns - now_boottime_ns >= 2 ==> now_boottime_ns + interval_before(
            expires_boottime_ns,
            now_boottime_ns,
        ) < expires_boottime_ns,
{
}

/// Finishing a lease again the same way succeeds, and another way fails,
/// whatever the other side would say.
pub proof fn law_finish_is_idempotent(first: ScanOutcome, second: ScanOutcome)
    ensures
        settled_finish(Some(first), second) matches Some(settled) && (settled is Ok <==> first
            == second),
{
}

/// The other side is asked once to finish, with the outcome that was asked for
/// first: once it agreed, asking for the same again succeeds, asking for
/// another fails, and neither reaches the other side.
pub proof fn law_finish_is_asked_once<R, S: ScanSession>(
    before: SnapshotLease<R, S>,
    after: SnapshotLease<R, S>,
    again: SnapshotLease<R, S>,
    first: ScanOutcome,
    second: ScanOutcome,
    finished: Result<(), ScanError>,
    repeated: Result<(), ScanError>,
)
    requires
        before.outcome() is None,
        finishes_lease(before, after, first, finished),
        finished is Ok,
        finishes_lease(after, again, second, repeated),
    ensures
        S::finishes(&before.side(), &after.side(), first, finished),
        repeated is Ok <==> second == first,
        again == after,
{
}

} // verus!
