//! Leased scans and the sessions that keep them.

use btrfs_awacs::scan::{
    boottime_now_ns, check_finish, validate_scan_root, Invalidation, ScanError, ScanErrorKind,
    ScanOutcome, ScanRootReport, ScanSession, SnapshotBaseline, SnapshotIdentity, SnapshotLease,
};
use btrfs_awacs::scan_facade::{
    check_hook_path, direct_invalidation, fail_begin, lease_boottime_ns, unix_time_ns, BeginStep,
    FacadeScanHandler, Projection, SCAN_TTL_NS,
};
use std::sync::{Arc, Mutex};

fn identity() -> SnapshotIdentity {
    SnapshotIdentity { filesystem_uuid: [1; 16], subvolume_uuid: [2; 16], read_only: true }
}

fn baseline(token: &[u8]) -> SnapshotBaseline {
    SnapshotBaseline {
        identity: identity(),
        continuity_token: token.to_vec(),
        retention_token: Vec::new(),
    }
}

#[derive(Default)]
struct RecordingSession {
    renewals: Arc<Mutex<usize>>,
    promotions: Arc<Mutex<usize>>,
    outcomes: Arc<Mutex<Vec<ScanOutcome>>>,
}

impl ScanSession for RecordingSession {
    fn renew(&mut self) -> Result<(), ScanError> {
        *self.renewals.lock().unwrap() += 1;
        Ok(())
    }

    fn promote(&mut self) -> Result<(), ScanError> {
        *self.promotions.lock().unwrap() += 1;
        Ok(())
    }

    fn finish(&mut self, outcome: ScanOutcome) -> Result<(), ScanError> {
        self.outcomes.lock().unwrap().push(outcome);
        Ok(())
    }
}

#[test]
fn lease_keeps_root_and_forwards_lifecycle() {
    let renewals = Arc::new(Mutex::new(0));
    let outcomes = Arc::new(Mutex::new(Vec::new()));
    let session = RecordingSession {
        renewals: renewals.clone(),
        outcomes: outcomes.clone(),
        ..Default::default()
    };
    let mut lease =
        SnapshotLease::new(baseline(b"baseline"), Invalidation::Full, 300, "root", session);
    assert_eq!(*lease.scan_root(), "root");
    lease.renew().unwrap();
    lease.finish(ScanOutcome::Committed).unwrap();
    lease.finish(ScanOutcome::Committed).unwrap();
    assert!(lease.finish(ScanOutcome::Aborted).is_err());
    assert_eq!(*renewals.lock().unwrap(), 1);
    assert_eq!(outcomes.lock().unwrap().as_slice(), &[ScanOutcome::Committed]);
}

#[test]
fn a_lease_is_renewed_in_time() {
    let session = RecordingSession::default();
    let lease = SnapshotLease::new(baseline(b""), Invalidation::Full, 900, (), session);
    assert_eq!(lease.renewal_interval(0), 300);
    assert_eq!(lease.renewal_interval(898), 1);
    assert_eq!(lease.renewal_interval(2_000), 1);
    assert_eq!(boottime_now_ns(Some((2, 5))), 2_000_000_005);
    assert_eq!(boottime_now_ns(None), 0);
}

#[test]
fn finishing_twice_needs_the_same_outcome() {
    assert!(check_finish(None, ScanOutcome::Committed).is_none());
    assert!(check_finish(Some(ScanOutcome::Aborted), ScanOutcome::Aborted).unwrap().is_ok());
    assert!(check_finish(Some(ScanOutcome::Aborted), ScanOutcome::Committed).unwrap().is_err());
}

#[test]
fn error_retains_stable_classification() {
    let error = ScanError::new(ScanErrorKind::LeaseExpired, "lease expired");
    assert_eq!(error.kind(), ScanErrorKind::LeaseExpired);
    assert_eq!(error.message(), "lease expired");
    let error = ScanError::context(ScanErrorKind::Other, "read", "gone");
    assert_eq!(error.message(), "read: gone");
}

#[test]
fn a_scan_root_is_the_promised_snapshot() {
    let report = ScanRootReport {
        is_directory: Ok(true),
        filesystem_uuid: Ok([1; 16]),
        subvolume: Ok(([2; 16], true)),
    };
    assert!(validate_scan_root(&report, &identity()).is_ok());
    for wrong in [
        ScanRootReport {
            is_directory: Ok(false),
            filesystem_uuid: Ok([1; 16]),
            subvolume: Ok(([2; 16], true)),
        },
        ScanRootReport {
            is_directory: Ok(true),
            filesystem_uuid: Ok([9; 16]),
            subvolume: Ok(([2; 16], true)),
        },
        ScanRootReport {
            is_directory: Ok(true),
            filesystem_uuid: Ok([1; 16]),
            subvolume: Ok(([2; 16], false)),
        },
        ScanRootReport {
            is_directory: Ok(true),
            filesystem_uuid: Err("not a btrfs".to_owned()),
            subvolume: Ok(([2; 16], true)),
        },
    ] {
        let error = validate_scan_root(&wrong, &identity()).unwrap_err();
        assert_eq!(error.kind(), ScanErrorKind::MalformedResponse);
    }
}

#[test]
fn direct_invalidation_uses_repo_relative_exact_paths() {
    let projection = Projection {
        fresh_instance: false,
        paths: vec![b"/dir/file".to_vec(), b"/name".to_vec()],
    };
    assert_eq!(
        direct_invalidation(&projection),
        Invalidation::ExactPaths(vec![b"dir/file".to_vec(), b"name".to_vec()])
    );
    assert_eq!(
        direct_invalidation(&Projection { fresh_instance: false, paths: vec![b"/".to_vec()] }),
        Invalidation::Full
    );
    assert_eq!(
        direct_invalidation(&Projection { fresh_instance: true, paths: Vec::new() }),
        Invalidation::Full
    );
}

#[test]
fn a_session_lives_until_it_is_finished() {
    let mut handler: FacadeScanHandler<&str> = FacadeScanHandler::new(b"/live".to_vec(), [1; 16], 1000, 1000);
    assert!(handler.check_live_root(&Ok(b"/live".to_vec())).is_ok());
    assert!(handler.check_live_root(&Ok(b"/other".to_vec())).is_err());
    assert!(handler.check_live_root(&Err("gone".to_owned())).is_err());

    let expires = handler.open_session_as(b"one".to_vec(), "prepared", 1_000, SCAN_TTL_NS).unwrap();
    assert_eq!(expires, 1_000 + SCAN_TTL_NS);
    assert_eq!(*handler.active_session(b"one").unwrap(), "prepared");
    assert!(handler.active_session(b"two").is_err());
    assert!(handler.record_renewal(b"one", 2_000, Ok(())).is_ok());
    assert_eq!(handler.take_session(b"one").unwrap(), Some("prepared"));
    handler.record_finish(b"one", 3_000, Ok(())).unwrap();
    assert_eq!(handler.take_session(b"one").unwrap(), None);
    assert!(handler.active_session(b"one").is_err());
}

#[test]
fn an_idle_session_expires() {
    let mut handler: FacadeScanHandler<u32> = FacadeScanHandler::new(b"/live".to_vec(), [1; 16], 1000, 1000);
    handler.open_session_as(b"one".to_vec(), 7, 0, 10).unwrap();
    assert!(handler.expire_sessions(9).is_empty());
    assert_eq!(handler.expire_sessions(10).len(), 1);
    assert!(handler.active_session(b"one").is_err());
}

#[test]
fn clocks_stay_in_range() {
    assert_eq!(unix_time_ns(&Ok(5)).unwrap(), 5);
    assert!(unix_time_ns(&Ok(u128::MAX)).is_err());
    assert!(unix_time_ns(&Err("no clock".to_owned())).is_err());
    assert_eq!(lease_boottime_ns(5, 7), 12);
    assert_eq!(lease_boottime_ns(u64::MAX, 7), u64::MAX);
}

#[test]
fn a_hook_path_stays_below_the_root() {
    assert!(check_hook_path(b"a/b").is_ok());
    assert!(check_hook_path(b"../a").is_err());
    assert!(check_hook_path(b"/a").is_err());
}

#[test]
fn a_failed_step_says_what_failed() {
    let (held, error) = fail_begin(BeginStep::Prepare, "cause");
    assert!(!held);
    assert_eq!(error.message(), "prepare AWACS scan cut: cause");
    let (held, error) = fail_begin(BeginStep::Cursor, "cause");
    assert!(held);
    assert_eq!(error.message(), "encode AWACS direct cursor: cause");
    assert_eq!(error.kind(), ScanErrorKind::Other);
}

#[test]
fn a_promotion_is_forwarded_each_time() {
    let promotions = Arc::new(Mutex::new(0));
    let session = RecordingSession { promotions: promotions.clone(), ..Default::default() };
    let mut lease = SnapshotLease::new(baseline(b""), Invalidation::Full, 300, (), session);
    lease.promote().unwrap();
    lease.promote().unwrap();
    assert_eq!(*promotions.lock().unwrap(), 2);
}

struct FailingSession {
    failures: usize,
    asked: Arc<Mutex<usize>>,
}

impl ScanSession for FailingSession {
    fn renew(&mut self) -> Result<(), ScanError> {
        Err(ScanError::new(ScanErrorKind::LeaseExpired, "too late"))
    }

    fn promote(&mut self) -> Result<(), ScanError> {
        Err(ScanError::new(ScanErrorKind::Unavailable, "not now"))
    }

    fn finish(&mut self, _outcome: ScanOutcome) -> Result<(), ScanError> {
        *self.asked.lock().unwrap() += 1;
        if self.failures > 0 {
            self.failures -= 1;
            return Err(ScanError::new(ScanErrorKind::Unavailable, "not now"));
        }
        Ok(())
    }
}

#[test]
fn a_session_that_fails_is_asked_again() {
    let asked = Arc::new(Mutex::new(0));
    let session = FailingSession { failures: 1, asked: asked.clone() };
    let mut lease = SnapshotLease::new(baseline(b""), Invalidation::Full, 300, (), session);
    assert_eq!(lease.renew().unwrap_err().message(), "too late");
    assert_eq!(lease.promote().unwrap_err().message(), "not now");
    assert!(lease.finish(ScanOutcome::Aborted).is_err());
    assert!(lease.finish(ScanOutcome::Committed).is_ok());
    assert!(lease.finish(ScanOutcome::Committed).is_ok());
    assert_eq!(*asked.lock().unwrap(), 2);
}

#[test]
fn a_new_session_has_an_identifier_of_its_own() {
    let mut handler: FacadeScanHandler<u32> =
        FacadeScanHandler::new(b"/live".to_vec(), [1; 16], 1000, 1000);
    let (one, expires) = handler.open_session(1, 5, 10).unwrap();
    let (two, _) = handler.open_session(2, 5, 10).unwrap();
    assert_eq!(expires, 15);
    assert_eq!((one[6] & 0xf0, one[8] & 0xc0), (0x40, 0x80));
    assert_ne!(one, two);
    assert_eq!(*handler.active_session(&one).unwrap(), 1);
    assert_eq!(*handler.active_session(&two).unwrap(), 2);
    let error = handler.open_session(3, i64::MAX, 1).unwrap_err();
    assert_eq!(error.message(), "AWACS scan lease expiration overflow");
}
