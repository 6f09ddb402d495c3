//! The service's checks, and its jobs from step to step.

use btrfs_awacs::index::{Event, EventKind, Index, Object, MODE_DIRECTORY, ROOT_INO};
use btrfs_awacs::manager::compact::{IndexDigest, RevisionReport};
use btrfs_awacs::manager::delta::AppliedDelta;
use btrfs_awacs::manager::metadata::{ChangedDigests, DeltaDigests};
use btrfs_awacs::manager::publish::CheckedIndex;
use btrfs_awacs::manager::rows::{OperationState, PinOwner};
use btrfs_awacs::manager::{
    worktree_policy_hash, InitializedWatch, Permissions, Principal, PublishedCut, Store,
    PERMISSION_CUT, PERMISSION_READ, PERMISSION_WORKTREE,
};
use btrfs_awacs::manifest::{
    ChangedObjectsManifest, ObjectChange, CHANGED_OBJECTS_MAGIC, CHANGED_OBJECTS_VERSION,
    CHANGE_CREATED, CHANGE_DELETED, CHANGE_FILE_DATA, CHANGE_INODE,
};
use btrfs_awacs::names::{
    hex_id, historical_spool_name, is_managed_object_name, is_stale_spool_name, manifest_spool_name,
    operation_name, CUT_PREFIX,
};
use btrfs_awacs::namespace::{
    NamespaceIdentity, NamespaceMonitor, RootIdentity, ViewBinding, WatchTable,
};
use btrfs_awacs::service::checks::{
    derived_effect_id, quarantine_entry, quarantine_entry_as, reject_managed_descendant, reject_nested_subvolumes,
    reject_unresolved_receipts, relative_directory_bytes, snapshot_identity,
    verify_recorded_snapshot, ExpectedSubvolume, FoundEntry,
};
use btrfs_awacs::service::collect::{resume_snapshot_delete, DeleteResume};
use btrfs_awacs::service::config::{
    current_unix_time_ns, lease_expiry, validate_private_directory, DirectoryCheck,
};
use btrfs_awacs::service::cut::{
    check_incremental, resume_cut, settle_incremental, CutIds, CutJoin, CutOutcome, CutStep,
    FullIndexResult,
};
use btrfs_awacs::service::flow::{prepare, EffectKind, FacadeProbe};
use btrfs_awacs::service::historical::{
    check_historical_endpoints, HistoricalOptions, HistoricalStep,
};
use btrfs_awacs::service::initialize::{OpenedSource, SourceReport};
use btrfs_awacs::service::recover::{
    load_recovering_cuts, load_recovering_initializes, load_recovering_snapshot_deletes,
    load_recovering_worktrees,
};
use btrfs_awacs::service::stage::{
    check_broker_output, check_manifest_stage, discard_private_spool, parse_kernel_changed_objects,
    read_manifest, reject_fscrypt_index, required_targets, resolve_target_objects,
    settle_kernel_objects, staged_manifest, write_manifest_stage_trailer, KernelStream,
    ParsedKernelChangedObjects, SpoolReport,
};
use btrfs_awacs::service::worktree::{
    check_recovered_root, plan_recovered_clone, resume_worktree, DestinationReport,
    PolicyRootReport, RecoveredParent, RootSubvolume, SiteReport, WorktreeResume,
};
use btrfs_awacs::service::{
    ChangesOptions, InitializeOptions, Service, ServiceConfig, ServiceError, WorktreeOptions,
};
use sha2::{Digest, Sha256};
use std::collections::{BTreeMap, BTreeSet};

const PRIVILEGE_FSCRYPT: u64 = 1 << 2;

const MAX_OUTPUT: u64 = 1 << 30;

fn report(seed: u8) -> RevisionReport {
    RevisionReport { digest: Ok(digest(seed)), checkpoint_fault: None }
}

/// Nothing was found wrong with any index.
fn valid() -> BTreeMap<i64, String> {
    BTreeMap::new()
}

fn hash(bytes: &[u8]) -> [u8; 32] {
    Sha256::digest(bytes).into()
}

fn object(ino: u64, mode: u32, privilege_flags: u64) -> Object {
    Object {
        ino,
        generation: 1,
        mode,
        nlink: 1,
        uid: 1000,
        gid: 1000,
        rdev: 0,
        privilege_flags,
        security_xattr_hash: [0; 32],
    }
}

fn root_index(privilege_flags: u64) -> Index {
    Index {
        objects: BTreeMap::from([(
            ROOT_INO,
            object(ROOT_INO, MODE_DIRECTORY | 0o700, privilege_flags),
        )]),
        references: Vec::new(),
    }
}

fn digest(seed: u8) -> IndexDigest {
    IndexDigest {
        state_hash: [seed; 32],
        single_owner_uid: Some(1000),
        privileged_metadata_count: 0,
        security_state_hash: [seed + 1; 32],
    }
}

fn checked() -> CheckedIndex {
    CheckedIndex { index: root_index(0), fault: None, digest: digest(1) }
}

#[test]
fn immutable_index_rejects_fscrypt_before_publication() {
    assert!(reject_fscrypt_index(&root_index(PRIVILEGE_FSCRYPT), PRIVILEGE_FSCRYPT).is_err());
    assert!(reject_fscrypt_index(&root_index(0), PRIVILEGE_FSCRYPT).is_ok());
}

#[test]
fn startup_spool_sweep_removes_only_exact_private_formats() {
    for name in [
        "full-index-0123456789abcdef0123456789abcdef",
        "target-index-fedcba9876543210fedcba9876543210",
        "manifest-0123456789abcdef0123456789abcdef-7.part",
        "historical-42-7.part",
    ] {
        assert!(is_stale_spool_name(name.as_bytes()));
    }
    for name in [
        "operator-note",
        "manifest-not-an-id-7.part",
        "full-index-0123456789abcdef0123456789abcde",
        "full-index-0123456789abcdef0123456789abcdeg",
        "historical--7.part",
        "historical-42-7",
    ] {
        assert!(!is_stale_spool_name(name.as_bytes()));
    }
    assert!(is_stale_spool_name(&manifest_spool_name(&[0xab; 16], 3)));
    assert!(is_stale_spool_name(&historical_spool_name(42, 7)));
}

#[test]
fn names_are_drawn_anew_and_are_known_again() {
    let first = operation_name(&CUT_PREFIX);
    let second = operation_name(&CUT_PREFIX);
    assert_ne!(first, second);
    assert!(is_managed_object_name(&first));
    assert!(!is_managed_object_name(b"operator-note"));
    assert_eq!(
        manifest_spool_name(&[0x0f; 16], -2),
        b"manifest-0f0f0f0f0f0f0f0f0f0f0f0f0f0f0f0f--2.part"
    );
    assert_eq!(hex_id(&[0xab; 16]), b"abababababababababababababababab");
}

fn legacy_manifest() -> Vec<u8> {
    let mut manifest = CHANGED_OBJECTS_MAGIC.to_vec();
    manifest.extend_from_slice(&CHANGED_OBJECTS_VERSION.to_le_bytes());
    manifest.extend_from_slice(&24_u32.to_le_bytes());
    manifest
}

#[test]
fn completed_manifest_stage_is_reused_but_partial_output_is_discarded() {
    let manifest = legacy_manifest();
    let length = manifest.len() as u64;
    let mut spooled = manifest.clone();
    spooled.extend(write_manifest_stage_trailer(length, length, &hash(&manifest)).unwrap());
    let reused = staged_manifest(&spooled).unwrap();
    assert_eq!(reused, manifest);
    match parse_kernel_changed_objects(&reused).unwrap() {
        KernelStream::Legacy(parsed) => assert!(parsed.objects.is_empty()),
        KernelStream::V2(_) => panic!("a stream of the first format"),
    }
    assert!(staged_manifest(&manifest).is_none());
    spooled[3] ^= 1;
    assert!(staged_manifest(&spooled).is_none());
    assert!(write_manifest_stage_trailer(length + 1, length, &hash(&manifest)).is_err());
}

#[test]
fn a_manifest_is_read_only_as_promised() {
    let manifest = legacy_manifest();
    let length = manifest.len() as u64;
    assert!(read_manifest(&manifest, length, &hash(&manifest), "broken", "parse").is_ok());
    let error =
        read_manifest(&manifest, length + 1, &hash(&manifest), "broken", "parse").unwrap_err();
    assert_eq!(error.message(), "broken");
    let error = read_manifest(b"x", 1, &hash(b"x"), "broken", "parse").unwrap_err();
    assert!(error.message().starts_with("parse: parse legacy changed-object stream: "));
    assert!(check_broker_output(b"abc", 3, &hash(b"abc"), "bad").is_ok());
    assert!(check_broker_output(b"abc", 3, &hash(b"abd"), "bad").is_err());
}

#[test]
fn only_private_spool_files_are_touched() {
    let private = || SpoolReport { is_file: true, uid: 7, mode: 0o600, links: 1, length: 10 };
    assert!(discard_private_spool(&Ok(Some(private())), 7).unwrap());
    assert!(!discard_private_spool(&Ok(None), 7).unwrap());
    assert!(discard_private_spool(&Ok(Some(private())), 8).is_err());
    assert!(discard_private_spool(&Err("gone".to_owned()), 7).is_err());
    let shared = SpoolReport { mode: 0o640, ..private() };
    assert!(discard_private_spool(&Ok(Some(shared)), 7).is_err());
    assert_eq!(check_manifest_stage(&Ok(Some(private())), 7, 100).unwrap(), Some(156));
    assert_eq!(check_manifest_stage(&Ok(None), 7, 100).unwrap(), None);
    let long = SpoolReport { length: 157, ..private() };
    assert!(check_manifest_stage(&Ok(Some(long)), 7, 100).is_err());
    assert!(check_manifest_stage(&Ok(Some(private())), 7, u64::MAX).is_err());
}

#[test]
fn startup_quarantines_an_unclaimed_managed_name_without_deleting_it() {
    let store = Store::new([3; 16]);
    let name = b"cut-0123456789abcdef0123456789abcdef";
    let path = b"/managed/cut-0123456789abcdef0123456789abcdef";
    let kept = quarantine_entry_as(&store, name, path, &[0xcd; 16]).unwrap();
    let mut expected = name.to_vec();
    expected.extend_from_slice(b"-quarantine-cdcdcdcdcdcdcdcdcdcdcdcdcdcdcdcd");
    assert_eq!(kept, expected);
    assert!(quarantine_entry_as(&store, b"quarantine", b"/managed/quarantine", &[0; 16]).is_none());
    assert!(quarantine_entry_as(&store, b"note", b"/managed/note", &[0; 16]).is_none());
}

#[test]
fn a_quarantined_name_ends_in_a_random_identifier() {
    let store = Store::new([3; 16]);
    let name = b"cut-0123456789abcdef0123456789abcdef";
    let path = b"/managed/cut-0123456789abcdef0123456789abcdef";
    let one = quarantine_entry(&store, name, path).unwrap();
    let two = quarantine_entry(&store, name, path).unwrap();
    assert_eq!(one.len(), name.len() + b"-quarantine-".len() + 32);
    assert_eq!(one[one.len() - 20], b'4');
    assert_ne!(one, two);
    assert!(quarantine_entry(&store, b"note", b"/managed/note").is_none());
}

fn change(ino: u64, change_mask: u64) -> (u64, ObjectChange) {
    (ino, ObjectChange { ino, old_generation: Some(1), new_generation: Some(1), change_mask })
}

fn manifest(changes: Vec<(u64, ObjectChange)>) -> ChangedObjectsManifest {
    ChangedObjectsManifest {
        objects: changes.into_iter().collect(),
        ref_adds: Vec::new(),
        ref_deletes: Vec::new(),
        raw_ref_adds: 0,
        raw_ref_deletes: 0,
    }
}

#[test]
fn only_changed_inodes_of_the_target_are_looked_up() {
    let changed = manifest(vec![
        change(300, CHANGE_FILE_DATA),
        change(301, CHANGE_INODE),
        change(302, CHANGE_CREATED | CHANGE_INODE),
        change(303, CHANGE_DELETED | CHANGE_INODE),
    ]);
    let required = required_targets(&changed);
    assert_eq!(required, BTreeSet::from([301, 302]));
    let parsed = ParsedKernelChangedObjects {
        manifest: changed,
        target_objects: Some(BTreeMap::from([
            (301, object(301, 0o100644, 0)),
            (302, object(302, 0o100644, 0)),
            (400, object(400, 0o100644, 0)),
        ])),
        dirty_witness_contract: true,
    };
    let unused = || Err(ServiceError::new("not looked up"));
    let objects = resolve_target_objects(&parsed, unused(), &required, PRIVILEGE_FSCRYPT).unwrap();
    assert_eq!(objects.keys().copied().collect::<Vec<_>>(), vec![301, 302]);
    let more = BTreeSet::from([301, 500]);
    let error = resolve_target_objects(&parsed, unused(), &more, PRIVILEGE_FSCRYPT).unwrap_err();
    assert_eq!(error.message(), "changed-objects v2 omitted required target inode 500");
    let legacy = ParsedKernelChangedObjects { target_objects: None, ..parsed };
    let looked_up = Ok(BTreeMap::from([(301, object(301, 0o100644, PRIVILEGE_FSCRYPT))]));
    let error =
        resolve_target_objects(&legacy, looked_up, &required, PRIVILEGE_FSCRYPT).unwrap_err();
    assert_eq!(error.message(), "immutable snapshot contains fscrypt inode 301");
    let settled =
        settle_kernel_objects(KernelStream::Legacy(manifest(Vec::new())), &BTreeMap::new())
            .unwrap();
    assert!(settled.target_objects.is_none());
    assert!(!settled.dirty_witness_contract);
}

#[test]
fn directories_are_checked_before_they_are_trusted() {
    assert!(validate_private_directory("/spool", &Ok((true, 0o700))).is_ok());
    let error = validate_private_directory("/spool", &Ok((true, 0o750))).unwrap_err();
    assert_eq!(error.message(), "/spool must be an existing private directory");
    let error = validate_private_directory("/spool", &Err("gone".to_owned())).unwrap_err();
    assert_eq!(error.message(), "stat /spool: gone");
    let path = |text: &str| Ok(text.as_bytes().to_vec());
    assert!(reject_managed_descendant(&path("/source"), &path("/managed")).is_ok());
    assert!(reject_managed_descendant(&path("/source"), &path("/source/managed")).is_err());
    assert_eq!(relative_directory_bytes(b"/root", b"/root/a/b").unwrap(), b"a/b");
    assert!(relative_directory_bytes(b"/root", b"/other").is_err());
    assert!(reject_unresolved_receipts(&Ok(0)).is_ok());
    assert!(reject_unresolved_receipts(&Ok(2)).is_err());
}

#[test]
fn a_nested_subvolume_is_found() {
    let entry = |path: &str, is_directory: bool, ino: u64| FoundEntry {
        path: path.as_bytes().to_vec(),
        shown: path.to_owned(),
        is_directory,
        is_symlink: false,
        ino,
    };
    let mut pending = Vec::new();
    reject_nested_subvolumes(
        &mut pending,
        &vec![entry("/s/dir", true, 300), entry("/s/file", false, ROOT_INO)],
    )
    .unwrap();
    assert_eq!(pending, vec![b"/s/dir".to_vec()]);
    assert!(reject_nested_subvolumes(&mut pending, &vec![entry("/s/sub", true, ROOT_INO)]).is_err());
}

#[test]
fn clocks_and_leases_stay_in_range() {
    assert_eq!(lease_expiry(1, 2).unwrap(), 3);
    assert!(lease_expiry(i64::MAX, 1).is_err());
    assert_eq!(current_unix_time_ns(&Ok(9)).unwrap(), 9);
    assert!(current_unix_time_ns(&Ok(u128::MAX)).is_err());
    assert!(current_unix_time_ns(&Err("none".to_owned())).is_err());
}

#[test]
fn an_effect_has_an_identifier_of_its_own() {
    let id = derived_effect_id(&[7; 16], b"create");
    let mut preimage = b"btrfs-awacs-effect-id-v1\0".to_vec();
    preimage.extend_from_slice(&[7; 16]);
    preimage.extend_from_slice(b"create");
    assert_eq!(id, hash(&preimage)[..16]);
    assert_ne!(id, derived_effect_id(&[7; 16], b"rename"));
    assert_ne!(id, derived_effect_id(&[8; 16], b"create"));
    assert_eq!(id, derived_effect_id(&[7; 16], b"create"));
}

fn subvolume(uuid: u8, parent: u8) -> ExpectedSubvolume {
    ExpectedSubvolume {
        filesystem_uuid: [1; 16],
        subvolume_uuid: [uuid; 16],
        parent_uuid: Some([parent; 16]),
        received_uuid: None,
        root_id: 900 + u64::from(uuid),
        ctransid: 10,
        otransid: 9,
        readonly: true,
    }
}

#[test]
fn a_recorded_snapshot_is_known_again() {
    let identity = snapshot_identity(&subvolume(4, 2), b"/managed/s".to_vec(), 5);
    assert!(verify_recorded_snapshot(&identity, &subvolume(4, 2)).is_ok());
    assert!(verify_recorded_snapshot(&identity, &subvolume(5, 2)).is_err());
}

fn config() -> ServiceConfig {
    ServiceConfig::new(b"/managed".to_vec(), b"/spool".to_vec(), [12; 16], MAX_OUTPUT)
}

fn directory(mode: u32) -> DirectoryCheck {
    DirectoryCheck { shown: "/dir".to_owned(), report: Ok((true, mode)) }
}

fn service_with(store: Store, config: ServiceConfig) -> Service {
    let prepared = prepare(
        store,
        config,
        [10; 16],
        true,
        &directory(0o700),
        &directory(0o700),
        MAX_OUTPUT,
    )
    .unwrap();
    Service::join(prepared, [11; 16], 1).unwrap()
}

fn service() -> Service {
    service_with(Store::new([12; 16]), config())
}

#[test]
fn a_service_starts_only_on_private_directories() {
    for (managed, spool, refused) in
        [(0o700, 0o700, false), (0o755, 0o700, true), (0o700, 0o770, true)]
    {
        let prepared = prepare(
            Store::new([1; 16]),
            config(),
            [10; 16],
            true,
            &directory(managed),
            &directory(spool),
            MAX_OUTPUT,
        );
        assert_eq!(prepared.is_err(), refused);
    }
    let external = config().with_broker_socket(b"/run/broker".to_vec());
    let refused = prepare(
        Store::new([1; 16]),
        external,
        [10; 16],
        true,
        &directory(0o700),
        &directory(0o700),
        MAX_OUTPUT,
    );
    assert!(refused.is_err());
    let mut odd = config();
    odd.max_manifest_bytes = 0;
    assert_eq!(
        odd.check_limits(MAX_OUTPUT).unwrap_err().message(),
        "invalid changed-object manifest limit"
    );
    assert!(config().with_replay_retention(0, 1).check_limits(MAX_OUTPUT).is_err());
}

fn initialize_options() -> InitializeOptions {
    InitializeOptions {
        principal: Principal::Uid(1000),
        permissions: Permissions::new(PERMISSION_READ | PERMISSION_CUT).unwrap(),
        requester_uid: 1000,
        requester_gid: 1000,
        now_ns: 100,
    }
}

fn source() -> SourceReport {
    SourceReport {
        canonical: Ok(b"/source".to_vec()),
        managed: Ok(b"/managed".to_vec()),
        opened: Ok(OpenedSource {
            fs_uuid: [1; 16],
            subvol_uuid: [2; 16],
            is_top_level: false,
        }),
    }
}

fn initialized(service: &mut Service) -> InitializedWatch {
    let plan = service.plan_initialize(&source(), &initialize_options()).unwrap();
    assert!(is_managed_object_name(&plan.destination_name));
    let created = subvolume(4, 2);
    let recorded = service.record_initialize(&plan, &created, 100).unwrap();
    service
        .publish_initialize(&plan, &recorded, &created, &created, &checked(), false, 100)
        .unwrap()
}

fn changes_options(watch: &InitializedWatch, now_ns: i64) -> ChangesOptions {
    ChangesOptions {
        watch_id: watch.watch_id,
        authorization_id: watch.grant_id,
        requester_uid: 1000,
        requester_gid: 1000,
        now_ns,
    }
}

#[test]
fn a_source_must_be_a_watchable_subvolume() {
    let mut service = service();
    let options = initialize_options();
    let managed_inside =
        SourceReport { managed: Ok(b"/source/managed".to_vec()), ..source() };
    assert!(service.plan_initialize(&managed_inside, &options).is_err());
    let missing = SourceReport { canonical: Err("gone".to_owned()), ..source() };
    assert!(service.plan_initialize(&missing, &options).is_err());
    let unopened = SourceReport { opened: Err("denied".to_owned()), ..source() };
    assert!(service.plan_initialize(&unopened, &options).is_err());
    assert!(service.store().watches.is_empty());
    service.plan_initialize(&source(), &options).unwrap();
    assert_eq!(service.store().watches.len(), 1);
}

fn cut(service: &mut Service, watch: &InitializedWatch, uuid: u8, now_ns: i64) -> PublishedCut {
    let options = changes_options(watch, now_ns);
    match service.join_cut(&options).unwrap() {
        CutJoin::Open { live_path } => assert_eq!(live_path, b"/source"),
        CutJoin::Wait { .. } => panic!("there is no cut to join"),
    }
    let plan = match service.plan_cut(&options, &Ok([2; 16])).unwrap() {
        CutStep::Create(plan) => plan,
        CutStep::Wait { .. } => panic!("there is no cut to join"),
    };
    let admission = plan.admission;
    let target = subvolume(uuid, 2);
    let completion = service.complete_cut(plan, target, now_ns).unwrap();
    let record = service.record_cut(&completion).unwrap();
    let base = ExpectedSubvolume {
        subvolume_uuid: service.snapshot_uuid(completion.reservation.base_snapshot_id).unwrap(),
        ..subvolume(9, 2)
    };
    let spool = service.open_cut(&completion, &Ok(base), &Ok(target)).unwrap();
    assert!(spool.starts_with(b"/spool/manifest-"));
    let wrong = subvolume(uuid + 1, 2);
    assert!(service.open_cut(&completion, &Ok(base), &Ok(wrong)).is_err());
    assert!(service.open_cut(&completion, &Err("gone".to_owned()), &Ok(target)).is_err());
    let (now, later) = service.begin_comparison();
    assert!(check_incremental(now).is_ok());
    let failed = match settle_incremental(Err(ServiceError::new("no kernel support")), later) {
        CutOutcome::Fallback(error) => error,
        CutOutcome::Settled(_) => panic!("the cut is indexed as a whole"),
    };
    let full = FullIndexResult {
        checked: checked(),
        paths: BTreeMap::from([(ROOT_INO, Ok(vec![Vec::new()]))]),
        dirty_witness_contract: true,
    };
    let published =
        service.publish_fallback(&completion, &record.recorded, &failed, &Ok(full)).unwrap();
    assert_eq!(service.confirm_cut(&admission, now_ns).unwrap(), published);
    published
}

#[test]
fn a_cut_that_cannot_be_compared_is_indexed_as_a_whole() {
    let mut service = service();
    let watch = initialized(&mut service);
    assert!(!service.dirty_witness_contract_seen);
    let published = cut(&mut service, &watch, 5, 200);
    assert_eq!(published.sequence, 1);
    assert!(service.dirty_witness_contract_seen);
    assert_eq!(service.snapshot_uuid(published.snapshot_id).unwrap(), [5; 16]);
    let second = cut(&mut service, &watch, 7, 300);
    assert_eq!(second.sequence, 2);
}

#[test]
fn a_second_caller_waits_for_the_first_cut() {
    let mut service = service();
    let watch = initialized(&mut service);
    let options = changes_options(&watch, 200);
    let ids = CutIds {
        name_id: [31; 16],
        operation_id: [32; 16],
        retry_id: [33; 16],
        admission_id: [34; 16],
    };
    service.store.cuts.clear();
    let first = service.plan_cut_as(&options, &Err("gone".to_owned()), &ids).unwrap_err();
    assert_eq!(first.message(), "open watched subvolume: gone");
    let moved = service.plan_cut_as(&options, &Ok([99; 16]), &ids).unwrap_err();
    assert_eq!(
        moved.message(),
        "watched live subvolume no longer matches the reserved UUID"
    );
    let joined = match service.join_cut(&options).unwrap() {
        CutJoin::Wait { admission, expires_ns } => (admission, expires_ns),
        CutJoin::Open { .. } => panic!("the planned cut is joined"),
    };
    assert!(service.wait_for_cut_admission(&joined.0, 200, 0, joined.1).unwrap().is_none());
    let late = service.wait_for_cut_admission(&joined.0, 200, u128::MAX, joined.1).unwrap_err();
    assert!(!late.message().is_empty());
    assert!(service.confirm_cut(&joined.0, 200).is_err());
}

#[test]
fn injected_failures_stop_where_they_are_asked_for() {
    let mut service = service_with(Store::new([12; 16]), config().with_cut_snapshot_failpoint());
    let watch = initialized(&mut service);
    let options = changes_options(&watch, 200);
    let plan = match service.plan_cut(&options, &Ok([2; 16])).unwrap() {
        CutStep::Create(plan) => plan,
        CutStep::Wait { .. } => panic!("there is no cut to join"),
    };
    let error = service.complete_cut(plan, subvolume(5, 2), 200).unwrap_err();
    assert_eq!(error.message(), "injected failure after cut snapshot effect");

    let recovering = load_recovering_cuts(service.store(), 300).unwrap();
    assert_eq!(recovering.len(), 1);
    let name = resume_cut(&recovering[0], &Ok([2; 16])).unwrap();
    assert!(is_managed_object_name(&name));
    assert!(resume_cut(&recovering[0], &Ok([3; 16])).is_err());
    assert!(resume_cut(&recovering[0], &Err("gone".to_owned())).is_err());

    let mut failing = service_with(
        Store::new([12; 16]),
        config().with_incremental_comparison_failpoint().with_manifest_stage_failpoint(),
    );
    assert_eq!(failing.begin_comparison(), (true, true));
    assert_eq!(failing.begin_comparison(), (false, false));
    assert!(check_incremental(true).is_err());
    assert!(failing.accept_staged(true, true).is_err());
    assert!(failing.dirty_witness_contract_seen);
    let settled = settle_incremental(Err(ServiceError::new("staged")), true);
    assert!(matches!(settled, CutOutcome::Settled(Err(_))));
}

#[test]
fn an_initialization_is_taken_up_after_a_crash() {
    let failing = config().with_initialize_snapshot_failpoint();
    let mut service = service_with(Store::new([12; 16]), failing);
    let plan = service.plan_initialize(&source(), &initialize_options()).unwrap();
    let created = subvolume(4, 2);
    assert!(service.record_initialize(&plan, &created, 100).is_err());

    let mut later = service_with(service.store, config());
    let operations = load_recovering_initializes(later.store()).unwrap();
    assert_eq!(operations.len(), 1);
    assert!(later.resume_initialize(&operations[0], &Ok([9; 16])).is_err());
    let name = later.resume_initialize(&operations[0], &Ok([2; 16])).unwrap();
    assert_eq!(name, plan.destination_name);
    let recorded = later.record_resumed_initialize(&operations[0], &created, 300).unwrap();
    let watch = later
        .publish_resumed_initialize(&operations[0], &recorded, &created, &checked(), false, 300)
        .unwrap();
    assert_eq!(watch.sequence, 0);
    assert!(load_recovering_initializes(later.store()).unwrap().is_empty());
}

#[test]
fn history_is_known_or_compared() {
    let mut service = service();
    let watch = initialized(&mut service);
    cut(&mut service, &watch, 5, 200);
    let options = HistoricalOptions {
        watch_id: watch.watch_id,
        authorization_id: watch.grant_id,
        requester_uid: 1000,
        from_snapshot_uuid: [5; 16],
        to_snapshot_uuid: [5; 16],
        now_ns: 300,
    };
    match service.begin_historical_changes(&options).unwrap() {
        HistoricalStep::Known(changes) => assert!(changes.events.is_empty()),
        HistoricalStep::Compare(_) => panic!("nothing changed"),
    }
    let whole = HistoricalOptions { from_snapshot_uuid: [4; 16], ..options };
    match service.begin_historical_changes(&whole).unwrap() {
        HistoricalStep::Known(changes) => assert!(changes.fresh_instance),
        HistoricalStep::Compare(work) => {
            assert!(work.spool_path.starts_with(b"/spool/historical-"));
        }
    }
    let unknown = HistoricalOptions { from_snapshot_uuid: [99; 16], ..options };
    let error = service.begin_historical_changes(&unknown).unwrap_err();
    assert!(error.message().starts_with("replay retained history: "));
}

#[test]
fn old_history_is_let_go_and_its_snapshots_collected() {
    let mut service =
        service_with(Store::new([12; 16]), config().with_replay_retention(1, 1));
    let watch = initialized(&mut service);
    cut(&mut service, &watch, 5, 200);
    cut(&mut service, &watch, 7, 300);
    let spans = service.history_spans().unwrap();
    assert_eq!(spans.len(), 1);
    assert_eq!((spans[0].floor, spans[0].indexed), (0, 2));
    assert_eq!(service.target_floor(&spans[0], 10_000), 1);
    assert_eq!(service.target_floor(&spans[0], 0), 0);
    let reservations =
        service.begin_garbage_collect(10_000, 10, &vec![report(1)]).unwrap();
    assert_eq!(service.history_spans().unwrap()[0].floor, 1);
    assert!(!reservations.is_empty());
    let reservation = &reservations[0];
    service.start_garbage_collect(reservation, 10_000).unwrap();
    service.check_delete_directory(reservation).unwrap();
    let observed = ExpectedSubvolume {
        root_id: reservation.identity.root_id,
        subvolume_uuid: reservation.identity.subvol_uuid,
        ..subvolume(4, 2)
    };
    assert!(service.check_delete_target(reservation, &Ok(subvolume(99, 2))).is_err());
    service.check_delete_target(reservation, &Ok(observed)).unwrap();
    let owner = service.lease_owner;
    let wrong = service.record_garbage_collect(reservation, owner, &[99; 16], 10_000);
    assert_eq!(
        wrong.unwrap_err().message(),
        "snapshot-delete receipt returned the wrong subvolume UUID"
    );
    let started = load_recovering_snapshot_deletes(service.store()).unwrap();
    assert_eq!(resume_snapshot_delete(&started[0]).unwrap(), DeleteResume::Execute);
    service
        .record_garbage_collect(reservation, owner, &reservation.identity.subvol_uuid, 10_000)
        .unwrap();
    let durable = load_recovering_snapshot_deletes(service.store()).unwrap();
    assert_eq!(resume_snapshot_delete(&durable[0]).unwrap(), DeleteResume::Finish);
    service.finish_garbage_collect(reservation, 10_000).unwrap();
    assert!(load_recovering_snapshot_deletes(service.store()).unwrap().is_empty());
}

fn policy_root() -> PolicyRootReport {
    PolicyRootReport {
        opened: Ok(RootSubvolume { fs_uuid: [1; 16], subvol_uuid: [40; 16] }),
        canonical: Ok(b"/trees".to_vec()),
        generation: Ok(41),
    }
}

fn site() -> SiteReport {
    SiteReport {
        root: Ok(RootSubvolume { fs_uuid: [1; 16], subvol_uuid: [40; 16] }),
        root_generation: Ok(41),
        canonical_root: Ok(b"/trees".to_vec()),
        canonical_parent: Ok(b"/trees/user".to_vec()),
    }
}

fn destination() -> DestinationReport {
    DestinationReport {
        opened: Ok(()),
        ino: Ok(50),
        reservation_ino: Ok(51),
        reservation_opened: Ok(()),
        generation: Ok(52),
        reservation_generation: Ok(53),
    }
}

fn worktree_options(watch: &InitializedWatch, now_ns: i64) -> WorktreeOptions {
    WorktreeOptions {
        watch_id: watch.watch_id,
        authorization_id: watch.grant_id,
        destination_root: b"/trees".to_vec(),
        destination_parent: b"/trees/user".to_vec(),
        destination_name: b"new".to_vec(),
        reservation_name: b".new.lock".to_vec(),
        reservation_nonce: [60; 32],
        requester_uid: 1000,
        requester_gid: 1000,
        now_ns,
    }
}

#[test]
fn a_worktree_becomes_a_watch_of_its_own() {
    let mut service = service();
    let watch = initialized(&mut service);
    let policy = service
        .provision_sanitized_worktree_policy(watch.watch_id, watch.grant_id, &policy_root(), 150)
        .unwrap();
    assert_eq!(policy.policy_hash, worktree_policy_hash(&policy));
    assert_eq!(policy.metadata_policy, "sanitized-private-user-tree");
    let grant = service.store().grants.iter().find(|row| row.id == watch.grant_id).unwrap();
    assert_eq!(grant.permissions & PERMISSION_WORKTREE, PERMISSION_WORKTREE);

    let anchor = cut(&mut service, &watch, 5, 200);
    let options = worktree_options(&watch, 200);
    let outside = SiteReport { canonical_parent: Ok(b"/elsewhere".to_vec()), ..site() };
    let error = service
        .plan_worktree(&policy, &options, &anchor, &outside, &destination())
        .unwrap_err();
    assert_eq!(error.message(), "Worktree destination parent is outside its policy root");
    let changed = SiteReport { root_generation: Ok(42), ..site() };
    let error = service
        .plan_worktree(&policy, &options, &anchor, &changed, &destination())
        .unwrap_err();
    assert_eq!(error.message(), "Worktree destination policy root changed");
    let unreadable = DestinationReport { generation: Err("denied".to_owned()), ..destination() };
    let error = service
        .plan_worktree(&policy, &options, &anchor, &site(), &unreadable)
        .unwrap_err();
    assert_eq!(error.message(), "read destination inode generation: denied");

    let plan =
        service.plan_worktree(&policy, &options, &anchor, &site(), &destination()).unwrap();
    assert_eq!(plan.relative_parent, b"user");
    assert_eq!(plan.final_path, b"/trees/user/new");
    assert_eq!(plan.create_id, derived_effect_id(&plan.reservation.operation_id, b"create"));
    let staged = ExpectedSubvolume { readonly: false, ..subvolume(70, 5) };
    let fence = service.prepare_worktree(&plan, &staged, 210).unwrap();
    let receipt = service.receipt(
        plan.reservation.operation_id,
        plan.reservation.operation_fence,
        EffectKind::WorktreeRename,
        policy.destination_fs_uuid,
        210,
    );
    assert_eq!(receipt.manager_store_uuid, [10; 16]);
    assert_eq!(receipt.target_locator_hash, [0; 32]);
    let published = service.publish_worktree(plan, fence, [70; 16], 220, None).unwrap();
    assert_eq!(published.path, b"/trees/user/new");
    let child =
        service.store().watches.iter().find(|row| row.id == published.watch_id).unwrap();
    assert_eq!(child.live_path, b"/trees/user/new");
    assert_eq!(child.live_subvol_uuid, [70; 16]);
}

#[test]
fn a_worktree_is_taken_up_after_a_crash() {
    let mut service =
        service_with(Store::new([12; 16]), config().with_worktree_create_failpoint());
    let watch = initialized(&mut service);
    let policy = service
        .provision_sanitized_worktree_policy(watch.watch_id, watch.grant_id, &policy_root(), 150)
        .unwrap();
    let anchor = cut(&mut service, &watch, 5, 200);
    let plan = service
        .plan_worktree(&policy, &worktree_options(&watch, 200), &anchor, &site(), &destination())
        .unwrap();
    let staged = ExpectedSubvolume { readonly: false, ..subvolume(70, 5) };
    assert!(service.prepare_worktree(&plan, &staged, 210).is_err());

    let mut later = service_with(service.store, config());
    let mut operations = load_recovering_worktrees(later.store()).unwrap();
    assert_eq!(operations.len(), 1);
    let operation = &mut operations[0];
    assert_eq!(resume_worktree(operation).unwrap(), WorktreeResume::Clone);
    let clone = plan_recovered_clone(operation, &Ok(())).unwrap();
    assert_eq!(clone.staging_name, plan.staging_name);
    assert_eq!(clone.create_id, plan.create_id);
    later.record_recovered_clone(operation, &staged, 300).unwrap();
    assert_eq!(resume_worktree(operation).unwrap(), WorktreeResume::Publish);
    assert!(check_recovered_root(operation, &Ok([40; 16]), &Ok(41)).is_ok());
    assert!(check_recovered_root(operation, &Ok([40; 16]), &Ok(42)).is_err());
    let parent = RecoveredParent {
        path: b"/trees/user".to_vec(),
        opened: Ok(()),
        ino: Ok(50),
        staging: Ok(()),
    };
    let place = later.claim_recovered_place(operation, &parent, 310).unwrap();
    assert_eq!(place.relative_parent, b"user");
    let wrong = later.finish_recovered_worktree(operation, place.topology_fence, [71; 16], 320);
    assert_eq!(
        wrong.unwrap_err().message(),
        "recovered Worktree UUID differs from manager intent"
    );
    let child = later
        .finish_recovered_worktree(operation, place.topology_fence, [70; 16], 320)
        .unwrap();
    assert!(later.store().watches.iter().any(|row| row.id == child.watch_id));
    assert!(load_recovering_worktrees(later.store()).unwrap().is_empty());
}

#[test]
fn a_worker_needs_an_external_broker() {
    let first = service();
    assert!(first.query_worker(Store::new([1; 16])).is_err());
    let mut external = service();
    external.config.broker_socket = Some(b"/run/broker".to_vec());
    let worker = external.query_worker(Store::new([1; 16])).unwrap();
    assert_ne!(worker.lease_owner, external.lease_owner);
    assert_eq!(worker.manager_session_id, external.manager_session_id);
}

#[test]
fn a_new_process_gives_up_what_did_not_begin() {
    let mut service = service();
    let watch = initialized(&mut service);
    let options = changes_options(&watch, 200);
    let ids = CutIds {
        name_id: [31; 16],
        operation_id: [32; 16],
        retry_id: [33; 16],
        admission_id: [34; 16],
    };
    assert!(service.plan_cut_as(&options, &Ok([99; 16]), &ids).is_err());
    let planned =
        service.store().operations.iter().filter(|row| row.state == OperationState::Planned);
    assert_eq!(planned.count(), 1);
    let later = service_with(service.store, config());
    let planned =
        later.store().operations.iter().filter(|row| row.state == OperationState::Planned);
    assert_eq!(planned.count(), 0);
}

fn binding() -> ViewBinding {
    ViewBinding {
        monitor_session_id: [80; 16],
        root_path: b"/source".to_vec(),
        fs_uuid: [1; 16],
        subvol_uuid: [2; 16],
        mount_ns_dev: 1,
        mount_ns_ino: 2,
        process_root_dev: 3,
        process_root_ino: 4,
        process_root_mnt_id: 5,
        watched_root_dev: 6,
        watched_root_ino: 7,
        watched_root_mnt_id: 8,
    }
}

fn compared_cut(
    service: &mut Service,
    watch: &InitializedWatch,
    uuid: u8,
    now_ns: i64,
) -> PublishedCut {
    let plan = match service.plan_cut(&changes_options(watch, now_ns), &Ok([2; 16])).unwrap() {
        CutStep::Create(plan) => plan,
        CutStep::Wait { .. } => panic!("there is no cut to join"),
    };
    let admission = plan.admission;
    let completion = service.complete_cut(plan, subvolume(uuid, 2), now_ns).unwrap();
    let record = service.record_cut(&completion).unwrap();
    let changed = ObjectChange {
        ino: ROOT_INO,
        old_generation: Some(1),
        new_generation: Some(1),
        change_mask: CHANGE_INODE,
    };
    let changes = manifest(vec![(ROOT_INO, changed)]);
    let base = service.store().find_delta_base(&completion.reservation).unwrap();
    let subset = service.store().load_revision_delta_subset(base, &changes, &None).unwrap();
    assert_eq!(subset, root_index(0));
    let applied = AppliedDelta {
        index: subset,
        events: vec![Event {
            kind: EventKind::PathChanged,
            ino: ROOT_INO,
            old_generation: Some(1),
            new_generation: Some(1),
            change_mask: CHANGE_INODE,
            old_path: Some(vec![uuid]),
            new_path: Some(vec![uuid]),
        }],
        wakes_triggers: false,
    };
    let same = ChangedDigests {
        old_state: [0; 32],
        old_security: [0; 32],
        new_state: [0; 32],
        new_security: [0; 32],
    };
    let digests = DeltaDigests {
        objects: BTreeMap::from([(ROOT_INO, same)]),
        ref_deletes: Vec::new(),
        ref_adds: Vec::new(),
        base_fault: None,
    };
    service.accept_staged(true, false).unwrap();
    let published = service.publish_incremental(
        &completion,
        &record.recorded,
        &changes,
        &applied,
        &report(1),
        &digests,
    );
    let published = match settle_incremental(published, false) {
        CutOutcome::Settled(settled) => settled.unwrap(),
        CutOutcome::Fallback(error) => panic!("{}", error.message()),
    };
    assert_eq!(service.confirm_cut(&admission, now_ns).unwrap(), published);
    published
}

#[test]
fn a_compared_cut_is_indexed_by_its_changes() {
    let mut service = service();
    let watch = initialized(&mut service);
    let first = compared_cut(&mut service, &watch, 5, 200);
    let second = compared_cut(&mut service, &watch, 7, 300);
    assert_eq!((first.sequence, second.sequence), (1, 2));
    assert_eq!((first.events.len(), second.events.len()), (1, 1));
    assert_eq!(service.store().load_revision(second.revision_id, &valid()).unwrap(), root_index(0));
    let chain = service.store().revision_storage_chain(second.revision_id).unwrap();
    assert_eq!(chain, vec![second.revision_id, first.revision_id, watch.revision_id]);

    let options = HistoricalOptions {
        watch_id: watch.watch_id,
        authorization_id: watch.grant_id,
        requester_uid: 1000,
        from_snapshot_uuid: [4; 16],
        to_snapshot_uuid: [7; 16],
        now_ns: 400,
    };
    let replayed = |service: &mut Service, options: &HistoricalOptions| {
        match service.begin_historical_changes(options).unwrap() {
            HistoricalStep::Known(changes) => changes,
            HistoricalStep::Compare(_) => panic!("the whole history is retained"),
        }
    };
    let whole = replayed(&mut service, &options);
    assert!(!whole.fresh_instance);
    assert_eq!((whole.from_sequence, whole.to_sequence), (0, 2));
    let older =
        replayed(&mut service, &HistoricalOptions { to_snapshot_uuid: [5; 16], ..options });
    let newer =
        replayed(&mut service, &HistoricalOptions { from_snapshot_uuid: [5; 16], ..options });
    let mut joined = older.events;
    joined.extend(newer.events);
    assert_eq!(whole.events, joined);
}

#[test]
fn a_published_comparison_is_given_back() {
    let mut service = service();
    let watch = initialized(&mut service);
    cut(&mut service, &watch, 5, 200);
    let options = HistoricalOptions {
        watch_id: watch.watch_id,
        authorization_id: watch.grant_id,
        requester_uid: 1000,
        from_snapshot_uuid: [4; 16],
        to_snapshot_uuid: [5; 16],
        now_ns: 300,
    };
    let work = match service.begin_historical_changes(&options).unwrap() {
        HistoricalStep::Compare(work) => work,
        HistoricalStep::Known(_) => panic!("both ends are retained"),
    };
    let seen = |uuid: u8| Ok(subvolume(uuid, 2));
    assert!(check_historical_endpoints(&work.claim, &seen(4), &seen(5)).is_ok());
    assert!(check_historical_endpoints(&work.claim, &seen(5), &seen(4)).is_err());
    service.accept_historical(false);
    let applied =
        AppliedDelta { index: root_index(0), events: Vec::new(), wakes_triggers: false };
    let published = service
        .publish_historical_changes(&work.claim, &manifest(Vec::new()), &applied, &valid(), 310)
        .unwrap();
    assert!(!published.fresh_instance);
    assert_eq!((published.from_sequence, published.to_sequence), (0, 1));
    match service.begin_historical_changes(&options).unwrap() {
        HistoricalStep::Known(changes) => assert_eq!(changes, published),
        HistoricalStep::Compare(_) => panic!("the comparison is known"),
    }
}

#[test]
fn the_facade_needs_a_verified_promise() {
    let mut service = service();
    let watch = initialized(&mut service);
    assert!(matches!(
        service.ensure_snapshot_facade_is_enabled(&watch.watch_id).unwrap(),
        FacadeProbe::Known(false)
    ));
    service.config = config().allow_experimental_dirty_witness();
    assert!(!service.snapshot_facade_is_enabled());
    let revision = match service.ensure_snapshot_facade_is_enabled(&watch.watch_id).unwrap() {
        FacadeProbe::Head { revision_id, path } => {
            assert!(path.starts_with(b"/managed/cut-initialize-"));
            revision_id
        }
        FacadeProbe::Known(_) => panic!("the promise is not known to hold"),
    };
    assert_eq!(revision, watch.revision_id);
    assert!(!service.settle_facade_probe(revision, &root_index(0), &valid(), false).unwrap());
    let error = service.settle_facade_probe(revision, &Index::new(), &valid(), true).unwrap_err();
    assert_eq!(
        error.message(),
        "facade ABI probe full index differs from the committed revision"
    );
    let invalid = BTreeMap::from([(revision, "bad".to_owned())]);
    assert_eq!(
        service
            .settle_facade_probe(revision, &root_index(0), &invalid, true)
            .unwrap_err()
            .message(),
        "load facade ABI probe revision: stored checkpoint is invalid: bad"
    );
    assert!(!service.snapshot_facade_is_enabled());
    assert!(service.settle_facade_probe(revision, &root_index(0), &valid(), true).unwrap());
    assert!(service.snapshot_facade_is_enabled());
}

#[test]
fn a_monitored_worktree_hands_its_view_over_once() {
    let mut service = service();
    let watch = initialized(&mut service);
    let policy = service
        .provision_sanitized_worktree_policy(watch.watch_id, watch.grant_id, &policy_root(), 150)
        .unwrap();
    let anchor = compared_cut(&mut service, &watch, 5, 200);
    let plan = service
        .plan_worktree(&policy, &worktree_options(&watch, 200), &anchor, &site(), &destination())
        .unwrap();
    let staged = ExpectedSubvolume { readonly: false, ..subvolume(70, 5) };
    let fence = service.prepare_worktree(&plan, &staged, 210).unwrap();
    let namespace = NamespaceIdentity {
        mount_ns_dev: 1,
        mount_ns_ino: 2,
        process_root_dev: 3,
        process_root_ino: 4,
        process_root_mnt_id: 5,
    };
    let root = RootIdentity {
        dev: 6,
        ino: 7,
        mnt_id: 8,
        fs_uuid: [1; 16],
        subvol_uuid: [70; 16],
    };
    let monitor = NamespaceMonitor::arm(
        b"/trees/user/new".to_vec(),
        WatchTable::new(),
        namespace,
        root,
    )
    .unwrap();
    let published = service.publish_worktree(plan, fence, [70; 16], 220, Some(monitor)).unwrap();
    let here = Some(b"/trees/user/new".to_vec());
    let elsewhere = Some(b"/trees/user".to_vec());
    let id = published.watch_id;
    assert!(service.take_worktree_view_handoff(&id, &watch.grant_id, &here).is_none());
    assert!(service.take_worktree_view_handoff(&id, &published.grant_id, &elsewhere).is_none());
    assert!(service.take_worktree_view_handoff(&id, &published.grant_id, &None).is_none());
    let taken = service.take_worktree_view_handoff(&id, &published.grant_id, &here).unwrap();
    assert_eq!(taken.snapshot_uuid, [5; 16]);
    assert_eq!(taken.monitor.binding().subvol_uuid, [70; 16]);
    assert!(service.take_worktree_view_handoff(&id, &published.grant_id, &here).is_none());
}

#[test]
fn a_failed_deletion_and_a_failed_publication_stay_begun() {
    let failing = config().with_replay_retention(1, 1).with_snapshot_delete_failpoint();
    let mut service = service_with(Store::new([12; 16]), failing);
    let watch = initialized(&mut service);
    cut(&mut service, &watch, 5, 200);
    cut(&mut service, &watch, 7, 300);
    let reservations =
        service.begin_garbage_collect(10_000, 10, &vec![report(1)]).unwrap();
    let reservation = &reservations[0];
    service.start_garbage_collect(reservation, 10_000).unwrap();
    let owner = service.lease_owner;
    service
        .record_garbage_collect(reservation, owner, &reservation.identity.subvol_uuid, 10_000)
        .unwrap();
    let error = service.finish_garbage_collect(reservation, 10_000).unwrap_err();
    assert_eq!(error.message(), "injected failure after snapshot deletion effect");
    let mut later = service_with(service.store, config());
    let operations = load_recovering_snapshot_deletes(later.store()).unwrap();
    later.finish_recovered_delete(&operations[0], 20_000).unwrap();
    assert!(load_recovering_snapshot_deletes(later.store()).unwrap().is_empty());

    let failing = config().with_worktree_publish_failpoint();
    let mut service = service_with(Store::new([12; 16]), failing);
    let watch = initialized(&mut service);
    let policy = service
        .provision_sanitized_worktree_policy(watch.watch_id, watch.grant_id, &policy_root(), 150)
        .unwrap();
    let anchor = compared_cut(&mut service, &watch, 5, 200);
    let plan = service
        .plan_worktree(&policy, &worktree_options(&watch, 200), &anchor, &site(), &destination())
        .unwrap();
    let staged = ExpectedSubvolume { readonly: false, ..subvolume(70, 5) };
    let fence = service.prepare_worktree(&plan, &staged, 210).unwrap();
    let error = service.publish_worktree(plan, fence, [70; 16], 220, None).unwrap_err();
    assert_eq!(error.message(), "injected failure after Worktree publication effect");
    let operations = load_recovering_worktrees(service.store()).unwrap();
    assert_eq!(resume_worktree(&operations[0]).unwrap(), WorktreeResume::Publish);
}

#[test]
fn queries_lease_what_they_read() {
    let mut service = service();
    let watch = initialized(&mut service);
    let binding = binding();
    let activation = service
        .store_mut()
        .activate_snapshot_facade(watch.watch_id, watch.grant_id, &binding)
        .unwrap();
    compared_cut(&mut service, &watch, 5, 200);
    let store = service.store_mut();
    assert!(store.begin_query_lease(&activation, None, 1, [90; 16], 1_000).is_err());
    store.finalize_cut_boundary(&activation, &binding, 1, None).unwrap();
    assert!(store.finalize_cut_boundary(&activation, &binding, 9, None).is_err());
    let lease = store.begin_query_lease(&activation, None, 1, [90; 16], 1_000).unwrap();
    assert_eq!((lease.from_sequence, lease.to_sequence), (None, 1));
    assert!(store.invalidate_snapshot_facade(&activation).is_err());
    store.release_query_lease(&lease, &activation).unwrap();
    assert!(store.release_query_lease(&lease, &activation).is_err());
    assert!(store.revision_pins.is_empty());
    store.invalidate_snapshot_facade(&activation).unwrap();
    assert!(store.begin_query_lease(&activation, None, 1, [90; 16], 1_000).is_err());
}

#[test]
fn watches_are_found_by_path_and_user() {
    let mut service = service();
    let watch = initialized(&mut service);
    let store = service.store_mut();
    let found = store.active_uid_watch_at_path(b"/source", 1000, PERMISSION_READ).unwrap();
    assert_eq!(found, Some((watch.watch_id, watch.grant_id)));
    assert_eq!(store.active_uid_watch_at_path(b"/source", 1001, PERMISSION_READ).unwrap(), None);
    assert_eq!(store.active_uid_watch_at_path(b"/other", 1000, PERMISSION_READ).unwrap(), None);
    assert_eq!(
        store.active_uid_watch_at_path(b"/source", 1000, PERMISSION_WORKTREE).unwrap(),
        None
    );
    assert_eq!(
        store.active_uid_watch_at_path(b"", 1000, PERMISSION_READ).unwrap_err().message(),
        "invalid active-watch lookup"
    );
}

#[test]
fn recovery_takes_cuts_up_by_sequence() {
    let mut service = service();
    let watch = initialized(&mut service);
    let plan = match service.plan_cut(&changes_options(&watch, 200), &Ok([2; 16])).unwrap() {
        CutStep::Create(plan) => plan,
        CutStep::Wait { .. } => panic!("there is no cut to join"),
    };
    let store = service.store_mut();
    let at = store
        .operations
        .iter()
        .position(|row| row.id == plan.reservation.operation_id)
        .unwrap();
    let mut later = store.operations[at].clone();
    later.id = [0; 16];
    later.sequence = Some(2);
    store.operations.insert(0, later);
    let sequences: Vec<i64> = load_recovering_cuts(service.store(), 300)
        .unwrap()
        .iter()
        .map(|operation| operation.completion.reservation.sequence)
        .collect();
    assert_eq!(sequences, vec![1, 2]);
}

/// Whether what every watch is indexed to is stored and pinned.
fn heads_are_kept(store: &Store) -> bool {
    store.watches.iter().all(|watch| match watch.indexed_revision_id {
        Some(id) => store.revisions.iter().find(|row| row.id == id).is_some_and(|revision| {
            let owner = PinOwner::WatchIndexedHead(watch.id);
            store
                .pins
                .iter()
                .any(|pin| pin.snapshot_id == revision.snapshot_id && pin.owner == owner)
        }),
        None => true,
    })
}

#[test]
fn no_watch_loses_what_it_is_indexed_to() {
    let mut service = service_with(Store::new([12; 16]), config().with_replay_retention(1, 1));
    assert!(heads_are_kept(service.store()));
    let watch = initialized(&mut service);
    assert!(heads_are_kept(service.store()));
    let policy = service
        .provision_sanitized_worktree_policy(watch.watch_id, watch.grant_id, &policy_root(), 150)
        .unwrap();
    compared_cut(&mut service, &watch, 5, 200);
    assert!(heads_are_kept(service.store()));
    let anchor = cut(&mut service, &watch, 7, 300);
    assert!(heads_are_kept(service.store()));
    let options = worktree_options(&watch, 300);
    let plan =
        service.plan_worktree(&policy, &options, &anchor, &site(), &destination()).unwrap();
    let staged = ExpectedSubvolume { readonly: false, ..subvolume(70, 7) };
    let fence = service.prepare_worktree(&plan, &staged, 310).unwrap();
    service.publish_worktree(plan, fence, [70; 16], 320, None).unwrap();
    assert!(heads_are_kept(service.store()));
    let spans = service.history_spans().unwrap();
    let digests = spans.iter().map(|_| report(1)).collect();
    let reservations = service.begin_garbage_collect(10_000, 10, &digests).unwrap();
    assert!(!reservations.is_empty());
    assert!(heads_are_kept(service.store()));
    service.store_mut().revoke_grant(watch.watch_id, watch.grant_id, 11_000).unwrap();
    assert!(heads_are_kept(service.store()));
    service.store_mut().recover_process_state([13; 16]).unwrap();
    assert!(heads_are_kept(service.store()));
}
