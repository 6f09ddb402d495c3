//! The manager's bookkeeping, end to end.

use btrfs_awacs::index::{
    event_kind_name, parse_event_kind, Event, EventKind, Index, Object, MODE_DIRECTORY, ROOT_INO,
};
use btrfs_awacs::manager::compact::{IndexDigest, RevisionReport};
use btrfs_awacs::manager::delta::AppliedDelta;
use btrfs_awacs::manager::loading::{accept_delta_subset, LoadStep};
use btrfs_awacs::manager::metadata::{
    apply_revision_metadata, ChangedDigests, DeltaDigests, RevisionMetadata,
};
use btrfs_awacs::manager::owners::{index_owner_counts, owner_uid_xor};
use btrfs_awacs::manager::publish::CheckedIndex;
use btrfs_awacs::manager::rows::{
    AdmissionState, Checkpoint, Comparison, ComparisonKind, ComparisonState, CutState, DeleteState,
    FsmonitorState, GrantState, Operation, OperationKind, OperationState, Overlay, PhysicalState,
    Pin, PinOwner, PinReason, QueryLease, QueryState, RefOverride, RetentionState, Revision,
    RevisionPin, RevisionState, WatchCut, WatchState, Worktree, WorktreeState,
};
use btrfs_awacs::manager::topology::{contains_worktree, lies_in_watch};
use btrfs_awacs::manager::types::SubvolumeInfo;
use btrfs_awacs::manager::{
    path_is_same_or_descendant, CutRequest, HistoricalComparisonAdmission,
    HistoricalComparisonRequest, InitializeRequest, InitializeReservation, InitializedWatch,
    MutationHint, Permissions, Principal, SnapshotIdentity, Store, PERMISSION_CUT, PERMISSION_READ,
    PERMISSION_RETAIN, PERMISSION_TRIGGER, PERMISSION_WORKTREE,
};
use btrfs_awacs::manifest::{
    ChangedObjectsManifest, ObjectChange, Reference, CHANGE_CREATED, CHANGE_DELETED,
    CHANGE_FILE_DATA, CHANGE_INODE, CHANGE_REF,
};
use btrfs_awacs::namespace::ViewBinding;
use std::collections::BTreeMap;

/// What is known of a revision with a sound checkpoint, or with none.
fn report(digest: Result<IndexDigest, String>) -> RevisionReport {
    RevisionReport { digest, checkpoint_fault: None }
}

/// Nothing was found wrong with any index.
fn valid() -> BTreeMap<i64, String> {
    BTreeMap::new()
}

fn object(ino: u64, mode: u32, nlink: u32) -> Object {
    Object {
        ino,
        generation: ino + 1,
        mode,
        nlink,
        uid: 1000,
        gid: 1000,
        rdev: 0,
        privilege_flags: 0,
        security_xattr_hash: [0; 32],
    }
}

fn reference(ino: u64, parent_ino: u64, name: &[u8]) -> Reference {
    Reference { ino, parent_ino, name: name.to_vec() }
}

/// Puts a reference where the order has it.
fn link(index: &mut Index, added: Reference) {
    index.references.push(added);
    index.references.sort();
}

fn index() -> Index {
    let mut index = Index::new();
    index.objects.insert(ROOT_INO, object(ROOT_INO, MODE_DIRECTORY | 0o755, 1));
    index.objects.insert(300, object(300, 0o100644, 2));
    link(&mut index, reference(300, ROOT_INO, b"a"));
    link(&mut index, reference(300, ROOT_INO, &[0xff, b'b']));
    index
}

fn names(index: &Index, ino: u64) -> Vec<Vec<u8>> {
    index.references.iter().filter(|entry| entry.ino == ino).map(|entry| entry.name.clone()).collect()
}

fn mixed(seed: u8, parts: &[&[u8]]) -> [u8; 32] {
    let mut digest = [seed; 32];
    let mut at = 0;
    for part in parts {
        for byte in part.iter() {
            digest[at % 32] = digest[at % 32].wrapping_mul(31).wrapping_add(*byte);
            at += 1;
        }
    }
    digest
}

fn object_state(object: &Object) -> [u8; 32] {
    mixed(
        1,
        &[
            &object.ino.to_be_bytes(),
            &object.generation.to_be_bytes(),
            &object.mode.to_be_bytes(),
            &object.uid.to_be_bytes(),
        ],
    )
}

fn object_security(object: &Object) -> [u8; 32] {
    mixed(2, &[&object.ino.to_be_bytes(), &object.security_xattr_hash])
}

fn reference_state(entry: &Reference) -> [u8; 32] {
    mixed(3, &[&entry.ino.to_be_bytes(), &entry.parent_ino.to_be_bytes(), &entry.name])
}

fn xor(left: [u8; 32], right: [u8; 32]) -> [u8; 32] {
    let mut both = left;
    for (byte, other) in both.iter_mut().zip(right) {
        *byte ^= other;
    }
    both
}

fn digest(index: &Index) -> IndexDigest {
    let mut state_hash = [0; 32];
    let mut security_state_hash = [0; 32];
    let mut privileged_metadata_count = 0;
    for object in index.objects.values() {
        state_hash = xor(state_hash, object_state(object));
        security_state_hash = xor(security_state_hash, object_security(object));
        if object.privilege_flags != 0 {
            privileged_metadata_count += 1;
        }
    }
    for entry in &index.references {
        state_hash = xor(state_hash, reference_state(entry));
    }
    let owners: Vec<u64> = index.objects.values().map(|object| object.uid).collect();
    let single = owners.first().copied().filter(|uid| owners.iter().all(|other| other == uid));
    IndexDigest {
        state_hash,
        single_owner_uid: single,
        privileged_metadata_count,
        security_state_hash,
    }
}

fn checked(index: &Index) -> CheckedIndex {
    CheckedIndex { index: index.clone(), fault: None, digest: digest(index) }
}

fn delta_digests(
    base: &Index,
    target: &Index,
    manifest: &ChangedObjectsManifest,
) -> DeltaDigests {
    let mut objects = BTreeMap::new();
    for ino in manifest.objects.keys() {
        let old = base.objects.get(ino);
        let new = target.objects.get(ino);
        objects.insert(
            *ino,
            ChangedDigests {
                old_state: old.map(object_state).unwrap_or([0; 32]),
                old_security: old.map(object_security).unwrap_or([0; 32]),
                new_state: new.map(object_state).unwrap_or([0; 32]),
                new_security: new.map(object_security).unwrap_or([0; 32]),
            },
        );
    }
    DeltaDigests {
        objects,
        ref_deletes: manifest.ref_deletes.iter().map(reference_state).collect(),
        ref_adds: manifest.ref_adds.iter().map(reference_state).collect(),
        base_fault: None,
    }
}

fn setup() -> (Store, InitializeRequest) {
    let request = InitializeRequest {
        fs_uuid: [1; 16],
        source_subvol_uuid: [2; 16],
        source_path: b"/source".to_vec(),
        reserved_snapshot_path: b"/store/snapshots/w/s-0-op".to_vec(),
        principal: Principal::Uid(1000),
        permissions: Permissions::new(PERMISSION_READ | PERMISSION_CUT).unwrap(),
        requester_uid: 1000,
        requester_gid: 1000,
        lease_owner: [3; 16],
        now_ns: 100,
        lease_expires_ns: 1000,
    };
    (Store::new([12; 16]), request)
}

fn snapshot(request: &InitializeRequest) -> SnapshotIdentity {
    SnapshotIdentity {
        fs_uuid: request.fs_uuid,
        subvol_uuid: [4; 16],
        parent_uuid: Some(request.source_subvol_uuid),
        received_uuid: None,
        root_id: 900,
        ctransid: 10,
        otransid: 9,
        path: request.reserved_snapshot_path.clone(),
        readonly: true,
        created_ns: 200,
    }
}

fn initialize_watch(
    store: &mut Store,
    request: &InitializeRequest,
) -> (InitializeReservation, InitializedWatch) {
    initialize_watch_with_index(store, request, &index())
}

fn initialize_watch_with_index(
    store: &mut Store,
    request: &InitializeRequest,
    initial_index: &Index,
) -> (InitializeReservation, InitializedWatch) {
    let reservation = store.reserve_initialize(request).unwrap();
    store.start_initialize_filesystem_effect(&reservation, request.lease_owner, 150).unwrap();
    let recorded = store
        .record_initialize_snapshot(&reservation, request.lease_owner, &snapshot(request), 200)
        .unwrap();
    let initialized = store
        .publish_initial_checkpoint(
            &reservation,
            request.lease_owner,
            &recorded,
            &checked(initial_index),
            300,
        )
        .unwrap();
    (reservation, initialized)
}

fn binding(request: &InitializeRequest, monitor_session_id: [u8; 16]) -> ViewBinding {
    ViewBinding {
        monitor_session_id,
        root_path: request.source_path.clone(),
        fs_uuid: request.fs_uuid,
        subvol_uuid: request.source_subvol_uuid,
        mount_ns_dev: 1,
        mount_ns_ino: 2,
        process_root_dev: 3,
        process_root_ino: 4,
        process_root_mnt_id: 5,
        watched_root_dev: 6,
        watched_root_ino: 7,
        watched_root_mnt_id: 8,
    }
}

fn cut_snapshot(request: &CutRequest, source_uuid: [u8; 16]) -> SnapshotIdentity {
    SnapshotIdentity {
        fs_uuid: [1; 16],
        subvol_uuid: [5; 16],
        parent_uuid: Some(source_uuid),
        received_uuid: None,
        root_id: 901,
        ctransid: 11,
        otransid: 10,
        path: request.reserved_snapshot_path.clone(),
        readonly: true,
        created_ns: 500,
    }
}

#[test]
fn delta_subset_loads_changed_aliases_and_ancestors_without_unrelated_objects() {
    let (mut store, request) = setup();
    let mut initial = index();
    initial.objects.insert(400, object(400, MODE_DIRECTORY | 0o755, 1));
    initial.objects.insert(401, object(401, 0o100644, 1));
    link(&mut initial, reference(400, ROOT_INO, b"unrelated-directory"));
    link(&mut initial, reference(401, 400, b"unrelated-file"));
    let (_reservation, initialized) = initialize_watch_with_index(&mut store, &request, &initial);
    let manifest = ChangedObjectsManifest {
        objects: BTreeMap::from([(
            300,
            ObjectChange {
                ino: 300,
                old_generation: Some(301),
                new_generation: Some(301),
                change_mask: CHANGE_FILE_DATA,
            },
        )]),
        ref_adds: Vec::new(),
        ref_deletes: Vec::new(),
        raw_ref_adds: 0,
        raw_ref_deletes: 0,
    };
    let subset = store.load_revision_delta_subset(initialized.revision_id, &manifest, &None).unwrap();
    assert_eq!(subset.objects.keys().copied().collect::<Vec<_>>(), vec![256, 300]);
    assert_eq!(names(&subset, 300), vec![b"a".to_vec(), vec![0xff, b'b']]);
    assert!(!subset.objects.contains_key(&400));
    assert!(!subset.objects.contains_key(&401));
}

#[test]
fn owner_cardinality_delta_recovers_single_owner_without_a_namespace_scan() {
    let mut base = Index::new();
    base.objects.insert(ROOT_INO, object(ROOT_INO, MODE_DIRECTORY | 0o755, 1));
    let mut other_owner = object(300, 0o100644, 1);
    other_owner.uid = 2000;
    base.objects.insert(300, other_owner);
    let entry = reference(300, ROOT_INO, b"other-owner");
    base.references.push(entry.clone());
    let mut target = base.clone();
    target.objects.remove(&300);
    target.references.clear();
    let safety = digest(&base);
    let metadata = RevisionMetadata {
        summary_version: 2,
        owner_cardinality: 2,
        owner_uid_xor: 1000 ^ 2000,
        object_count: 2,
        ref_count: 1,
        state_hash: safety.state_hash,
        single_owner_uid: safety.single_owner_uid,
        privileged_metadata_count: 0,
        security_state_hash: safety.security_state_hash,
    };
    let manifest = ChangedObjectsManifest {
        objects: BTreeMap::from([(
            300,
            ObjectChange {
                ino: 300,
                old_generation: Some(other_owner.generation),
                new_generation: None,
                change_mask: CHANGE_INODE | CHANGE_REF | CHANGE_DELETED,
            },
        )]),
        ref_adds: Vec::new(),
        ref_deletes: vec![entry],
        raw_ref_adds: 0,
        raw_ref_deletes: 1,
    };
    let (updated, counts) = apply_revision_metadata(
        &metadata,
        &base,
        &target,
        &manifest,
        &delta_digests(&base, &target, &manifest),
        &BTreeMap::from([(2000, 1)]),
    )
    .unwrap();
    assert_eq!(counts, BTreeMap::from([(2000, 0)]));
    assert_eq!(updated.owner_cardinality, 1);
    assert_eq!(updated.owner_uid_xor, 1000);
    assert_eq!(updated.single_owner_uid, Some(1000));
    assert_eq!(updated.state_hash, digest(&target).state_hash);
    assert_eq!(updated.security_state_hash, digest(&target).security_state_hash);
    assert_eq!(updated.object_count, 1);
    assert_eq!(updated.ref_count, 0);
}

#[test]
fn compaction_upgrades_a_legacy_summary_and_owner_checkpoint() {
    let (mut store, request) = setup();
    let (_reservation, initialized) = initialize_watch(&mut store, &request);
    let at = store.revisions.iter().position(|row| row.id == initialized.revision_id).unwrap();
    store.revisions[at].checkpoint.as_mut().unwrap().owner_counts.clear();
    store.revisions[at].summary.summary_version = 1;
    store.revisions[at].summary.state_hash = [0; 32];
    store.revisions[at].summary.security_state_hash = [0; 32];
    store.revisions[at].summary.owner_cardinality = 0;
    store.revisions[at].summary.owner_uid_xor = 0;
    assert!(store
        .compact_revision(initialized.revision_id, [88; 16], &report(Ok(digest(&index()))))
        .unwrap());
    let metadata = store.load_revision_metadata(initialized.revision_id).unwrap();
    assert_eq!(metadata.summary_version, 2);
    assert_eq!(metadata.owner_cardinality, 1);
    assert_eq!(metadata.owner_uid_xor, 1000);
    let counts = &store.revisions[at].checkpoint.as_ref().unwrap().owner_counts;
    assert_eq!(counts.get(&1000), Some(&2));
    assert!(!store
        .compact_revision(initialized.revision_id, [88; 16], &report(Ok(digest(&index()))))
        .unwrap());
}

#[test]
fn publishes_initial_checkpoint_atomically_and_round_trips_bytes() {
    let (mut store, request) = setup();
    let reservation = store.reserve_initialize(&request).unwrap();
    store.start_initialize_filesystem_effect(&reservation, request.lease_owner, 150).unwrap();
    let recorded = store
        .record_initialize_snapshot(&reservation, request.lease_owner, &snapshot(&request), 200)
        .unwrap();
    let expected = index();
    let initialized = store
        .publish_initial_checkpoint(
            &reservation,
            request.lease_owner,
            &recorded,
            &checked(&expected),
            300,
        )
        .unwrap();
    assert_eq!(initialized.sequence, 0);
    assert!(initialized.fresh_instance);
    assert_eq!(store.load_checkpoint(initialized.revision_id, &None).unwrap(), expected);
    let watch = store.watches.iter().find(|row| row.id == reservation.watch_id).unwrap();
    assert_eq!(
        (watch.state, watch.indexed_seq, watch.last_cut_seq),
        (WatchState::Active, Some(0), Some(0))
    );
    let pin_count = store.pins.iter().filter(|pin| pin.snapshot_id == recorded.snapshot_id).count();
    assert_eq!(pin_count, 2);
}

#[test]
fn startup_aborts_only_pre_effect_initialize_intents() {
    let (mut store, request) = setup();
    store.reserve_initialize(&request).unwrap();
    assert_eq!(store.abort_planned_operations(200).unwrap(), 1);
    assert_eq!((store.operations.len(), store.watches.len(), store.grants.len()), (0, 0, 0));

    let reservation = store.reserve_initialize(&request).unwrap();
    store.start_initialize_filesystem_effect(&reservation, request.lease_owner, 250).unwrap();
    assert_eq!(store.abort_planned_operations(300).unwrap(), 0);
    let operation =
        store.operations.iter().find(|row| row.id == reservation.operation_id).unwrap();
    assert_eq!(operation.state, OperationState::FsStarted);
}

#[test]
fn startup_takeover_fences_the_old_post_effect_worker_owner() {
    let (mut store, request) = setup();
    let reservation = store.reserve_initialize(&request).unwrap();
    store.start_initialize_filesystem_effect(&reservation, request.lease_owner, 150).unwrap();
    let new_owner = [99; 16];
    assert_eq!(store.takeover_recovery_leases(new_owner, 2_000).unwrap(), 1);
    assert!(store
        .record_initialize_snapshot(&reservation, request.lease_owner, &snapshot(&request), 200)
        .is_err());
    store
        .record_initialize_snapshot(&reservation, new_owner, &snapshot(&request), 200)
        .unwrap();
}

#[test]
fn retention_leases_pin_transactionally_and_expire() {
    let (mut store, mut request) = setup();
    request.permissions =
        Permissions::new(PERMISSION_READ | PERMISSION_CUT | PERMISSION_RETAIN).unwrap();
    let (_reservation, initialized) = initialize_watch(&mut store, &request);
    let lease = store
        .create_retention_lease(
            initialized.watch_id,
            initialized.grant_id,
            initialized.snapshot_id,
            400,
            500,
        )
        .unwrap();
    let owner = PinOwner::RetentionLease(lease.id);
    assert_eq!(store.pins.iter().filter(|pin| pin.owner == owner).count(), 1);
    assert_eq!(store.expire_retention_leases(499).unwrap(), 0);
    assert_eq!(store.expire_retention_leases(500).unwrap(), 1);
    let row = store.retention_leases.iter().find(|row| row.id == lease.id).unwrap();
    assert_eq!(row.state, RetentionState::Expired);
    assert_eq!(store.pins.iter().filter(|pin| pin.owner == owner).count(), 0);
}

#[test]
fn revocation_releases_retention_and_blocks_last_grant() {
    let (mut store, mut request) = setup();
    request.permissions =
        Permissions::new(PERMISSION_READ | PERMISSION_CUT | PERMISSION_RETAIN).unwrap();
    let (_reservation, initialized) = initialize_watch(&mut store, &request);
    let lease = store
        .create_retention_lease(
            initialized.watch_id,
            initialized.grant_id,
            initialized.snapshot_id,
            400,
            800,
        )
        .unwrap();
    store.revoke_grant(initialized.watch_id, initialized.grant_id, 450).unwrap();
    let grant = store.grants.iter().find(|row| row.id == initialized.grant_id).unwrap();
    let watch = store.watches.iter().find(|row| row.id == initialized.watch_id).unwrap();
    let retention = store.retention_leases.iter().find(|row| row.id == lease.id).unwrap();
    assert_eq!(grant.state, GrantState::Revoked);
    assert_eq!(watch.state, WatchState::Blocked);
    assert_eq!(retention.state, RetentionState::Revoked);
    let owner = PinOwner::RetentionLease(lease.id);
    assert_eq!(store.pins.iter().filter(|pin| pin.owner == owner).count(), 0);
}

fn query_lease(
    id: [u8; 16],
    initialized: &InitializedWatch,
    clock_epoch: [u8; 16],
    lease_owner: [u8; 16],
) -> QueryLease {
    QueryLease {
        id,
        watch_id: initialized.watch_id,
        authorization_id: initialized.grant_id,
        clock_epoch,
        from_cut_sequence: None,
        to_cut_sequence: 0,
        guard: None,
        lease_owner,
        lease_fence: 1,
        lease_expires_ns: 1000,
        state: QueryState::Active,
    }
}

#[test]
fn revocation_waits_for_the_active_response_fence() {
    let (mut store, request) = setup();
    let (_reservation, initialized) = initialize_watch(&mut store, &request);
    let query_id = [70; 16];
    let clock_epoch =
        store.watches.iter().find(|row| row.id == initialized.watch_id).unwrap().clock_epoch;
    store.query_leases.push(query_lease(query_id, &initialized, clock_epoch, [71; 16]));
    store
        .revision_pins
        .push(RevisionPin { query_id, revision_id: initialized.revision_id });
    assert!(store
        .revoke_grant(initialized.watch_id, initialized.grant_id, 450)
        .unwrap_err()
        .message()
        .contains("response lease"));
    let grant = store.grants.iter().find(|row| row.id == initialized.grant_id).unwrap();
    assert_eq!(
        (grant.state, store.query_leases[0].state),
        (GrantState::Active, QueryState::Active)
    );

    store.revision_pins.clear();
    store.query_leases[0].state = QueryState::Released;
    store.revoke_grant(initialized.watch_id, initialized.grant_id, 451).unwrap();
}

#[test]
fn facade_invalidation_waits_for_the_active_response_fence() {
    let (mut store, request) = setup();
    let (_reservation, initialized) = initialize_watch(&mut store, &request);
    let binding = binding(&request, [72; 16]);
    let activation = store
        .activate_snapshot_facade(initialized.watch_id, initialized.grant_id, &binding)
        .unwrap();
    store
        .query_leases
        .push(query_lease([73; 16], &initialized, activation.clock_epoch, [74; 16]));
    assert!(store
        .invalidate_snapshot_facade(&activation)
        .unwrap_err()
        .message()
        .contains("response lease"));
    let watch = store.watches.iter().find(|row| row.id == initialized.watch_id).unwrap();
    assert_eq!(watch.fsmonitor_state, FsmonitorState::SnapshotOnly);
    assert_eq!(watch.clock_epoch, activation.clock_epoch);

    store.query_leases[0].state = QueryState::Released;
    store.invalidate_snapshot_facade(&activation).unwrap();
}

#[test]
fn revocation_cancels_a_cut_before_the_effect_boundary() {
    let (mut store, request) = setup();
    let (_initialize, initialized) = initialize_watch(&mut store, &request);
    let cut = store
        .reserve_cut(&CutRequest {
            watch_id: initialized.watch_id,
            authorization_id: initialized.grant_id,
            reserved_snapshot_path: b"/store/snapshots/revoked-cut".to_vec(),
            requester_uid: 1000,
            requester_gid: 1000,
            lease_owner: [61; 16],
            now_ns: 400,
            lease_expires_ns: 2_000,
        })
        .unwrap();
    store
        .admit_planned_cut(
            initialized.watch_id,
            initialized.grant_id,
            [62; 16],
            "query",
            410,
            1_500,
        )
        .unwrap()
        .unwrap();
    store.revoke_grant(initialized.watch_id, initialized.grant_id, 450).unwrap();
    let owner = PinOwner::Operation(cut.operation_id);
    let grant = store.grants.iter().find(|row| row.id == initialized.grant_id).unwrap();
    assert_eq!(
        (
            store.operations.iter().filter(|row| row.id == cut.operation_id).count(),
            store.pins.iter().filter(|pin| pin.owner == owner).count(),
            store.admissions.iter().filter(|row| row.operation_id == cut.operation_id).count(),
            grant.state,
        ),
        (0, 0, 0, GrantState::Revoked)
    );
    assert!(store.start_cut_filesystem_effect(&cut, [61; 16], 500).is_err());
}

#[test]
fn stale_fence_cannot_start_or_publish() {
    let (mut store, request) = setup();
    let reservation = store.reserve_initialize(&request).unwrap();
    assert!(store.start_initialize_filesystem_effect(&reservation, [99; 16], 150).is_err());
    store.start_initialize_filesystem_effect(&reservation, request.lease_owner, 150).unwrap();
    let recorded = store
        .record_initialize_snapshot(&reservation, request.lease_owner, &snapshot(&request), 200)
        .unwrap();
    assert!(store
        .publish_initial_checkpoint(&reservation, [99; 16], &recorded, &checked(&index()), 300)
        .is_err());
    assert_eq!(store.revisions.len(), 0);
}

#[test]
fn snapshot_gc_reserves_only_unpinned_rows_and_tombstones_under_one_fence() {
    let (mut store, request) = setup();
    let (_reservation, initialized) = initialize_watch(&mut store, &request);
    assert!(store
        .reserve_unpinned_snapshot_deletes([20; 16], 400, 1000, 4)
        .unwrap()
        .is_empty());

    store.pins.retain(|pin| pin.snapshot_id != initialized.snapshot_id);
    let reservations = store.reserve_unpinned_snapshot_deletes([20; 16], 400, 1000, 4).unwrap();
    assert_eq!(reservations.len(), 1);
    let reservation = &reservations[0];
    assert_eq!(reservation.snapshot_id, initialized.snapshot_id);
    assert!(store.start_snapshot_delete(reservation, [21; 16], 450).is_err());
    store.start_snapshot_delete(reservation, [20; 16], 450).unwrap();
    store.record_snapshot_delete_durable(reservation, [20; 16], 500).unwrap();
    store.finish_snapshot_delete(reservation, [20; 16], 550).unwrap();
    let row = store.snapshots.iter().find(|row| row.id == initialized.snapshot_id).unwrap();
    let operation =
        store.delete_operations.iter().find(|entry| entry.snapshot_id == row.id).unwrap();
    assert_eq!((row.physical_state, operation.state), (PhysicalState::Deleted, DeleteState::Done));
}

#[test]
fn refuses_worktree_permission_without_policy() {
    let (mut store, mut request) = setup();
    request.permissions =
        Permissions::new(PERMISSION_READ | PERMISSION_CUT | PERMISSION_WORKTREE).unwrap();
    assert!(store.reserve_initialize(&request).is_err());
}

#[test]
fn topology_path_exclusion_is_component_aware_and_symmetric() {
    assert!(path_is_same_or_descendant(b"/watch/child", b"/watch"));
    assert!(path_is_same_or_descendant(b"/watch", b"/watch"));
    assert!(!path_is_same_or_descendant(b"/watch-two", b"/watch"));
    assert!(!path_is_same_or_descendant(b"relative/child", b"relative"));

    let (mut store, request) = setup();
    let (initialize, initialized) = initialize_watch(&mut store, &request);
    assert!(lies_in_watch(&store.watches, initialize.filesystem_id, b"/source/worktree"));
    assert!(!lies_in_watch(&store.watches, initialize.filesystem_id, b"/source-two/worktree"));

    let operation_id = [91; 16];
    store.operations.push(Operation {
        id: operation_id,
        kind: OperationKind::Cut,
        state: OperationState::Planned,
        filesystem_id: initialize.filesystem_id,
        watch_id: initialized.watch_id,
        sequence: Some(100),
        source_subvol_uuid: request.source_subvol_uuid,
        base_snapshot_id: Some(initialized.snapshot_id),
        expected_parent_uuid: request.source_subvol_uuid,
        requested_readonly: true,
        requester_uid: 1000,
        requester_gid: 1000,
        authorization_id: initialized.grant_id,
        reserved_path: b"/staging/worktree".to_vec(),
        destination: None,
        discovered_uuid: None,
        guard: None,
        error: None,
        lease_owner: Some(request.lease_owner),
        lease_fence: 1,
        lease_expires_ns: Some(1000),
        updated_ns: 400,
    });
    store.worktrees.push(Worktree {
        id: [92; 16],
        filesystem_id: initialize.filesystem_id,
        subvol_uuid: None,
        path: b"/future/worktree".to_vec(),
        seed_revision_id: initialized.revision_id,
        watch_id: None,
        operation_id,
        state: WorktreeState::Creating,
    });
    assert!(contains_worktree(&store.worktrees, initialize.filesystem_id, b"/future"));
    assert!(!contains_worktree(&store.worktrees, initialize.filesystem_id, b"/future-two"));
}

#[test]
fn continuity_loss_rotates_and_disables_the_facade() {
    let (mut store, request) = setup();
    let (_initialize, initialized) = initialize_watch(&mut store, &request);
    let binding = binding(&request, [31; 16]);
    let activation = store
        .activate_snapshot_facade(initialized.watch_id, initialized.grant_id, &binding)
        .unwrap();
    store.invalidate_snapshot_facade(&activation).unwrap();
    let watch = store.watches.iter().find(|row| row.id == initialized.watch_id).unwrap();
    assert_eq!(watch.fsmonitor_state, FsmonitorState::Disabled);
    assert_ne!(watch.clock_epoch, activation.clock_epoch);
    assert_eq!(watch.view, None);
    assert!(store.invalidate_snapshot_facade(&activation).is_err());
    store
        .activate_snapshot_facade(initialized.watch_id, initialized.grant_id, &binding)
        .unwrap();
    let report = store.recover_process_state([99; 16]).unwrap();
    assert_eq!(report.invalidated_facades, 1);
    assert!(report.boot_changed);
    let watch = store.watches.iter().find(|row| row.id == initialized.watch_id).unwrap();
    assert_eq!(watch.fsmonitor_state, FsmonitorState::Disabled);
}

#[test]
fn process_recovery_fails_direct_comparisons_and_releases_endpoint_pins() {
    let (mut store, request) = setup();
    let (_initialize, initialized) = initialize_watch(&mut store, &request);
    let comparison_id = store.comparisons.iter().map(|row| row.id).max().unwrap_or(0) + 1;
    store.comparisons.push(Comparison {
        id: comparison_id,
        from_snapshot_id: initialized.snapshot_id,
        to_snapshot_id: initialized.snapshot_id,
        kind: ComparisonKind::Incremental,
        algorithm_version: 2,
        state: ComparisonState::Claimed,
        lease_owner: Some([88; 16]),
        lease_fence: 4,
        lease_expires_ns: Some(9999),
        manifest_hash: None,
        raw_ref_adds: None,
        raw_ref_deletes: None,
        objects: Vec::new(),
        references: Vec::new(),
        events: Vec::new(),
    });
    let owner = PinOwner::Comparison(comparison_id);
    store.pins.push(Pin {
        snapshot_id: initialized.snapshot_id,
        owner,
        reason: PinReason::HistoricalComparisonSource,
    });
    let report = store.recover_process_state([99; 16]).unwrap();
    assert_eq!(report.abandoned_historical_comparisons, 1);
    let row = store.comparisons.iter().find(|row| row.id == comparison_id).unwrap();
    assert_eq!(
        (
            row.state,
            row.lease_owner,
            row.lease_fence,
            store.pins.iter().filter(|pin| pin.owner == owner).count(),
        ),
        (ComparisonState::Failed, None, 5, 0)
    );
}

#[test]
fn precision_events_and_guard_state_advance_atomically() {
    let (mut store, request) = setup();
    let (_initialize, initialized) = initialize_watch(&mut store, &request);
    let activation = store
        .activate_snapshot_facade(
            initialized.watch_id,
            initialized.grant_id,
            &binding(&request, [51; 16]),
        )
        .unwrap();
    let initial = store.begin_precision_guard(&activation).unwrap();
    assert_eq!(initial.sequence, 0);
    let cursor = store
        .append_precision_events(
            &activation,
            initial.epoch,
            &[
                MutationHint::Path(b"raw\xffname".to_vec()),
                MutationHint::DirectoryPrefix(b"moved".to_vec()),
            ],
            500,
        )
        .unwrap();
    assert_eq!(cursor.sequence, 2);
    store.complete_precision_guard(&activation, cursor).unwrap();
    let watch = store.watches.iter().find(|row| row.id == initialized.watch_id).unwrap();
    let events =
        store.mutation_events.iter().filter(|row| row.watch_id == initialized.watch_id).count();
    assert_eq!(
        (watch.fsmonitor_state, watch.guard.unwrap().head_seq, events),
        (FsmonitorState::GuardActive, 2, 2)
    );
    store.gap_precision_guard(&activation, initial.epoch).unwrap();
    assert!(store
        .append_precision_events(
            &activation,
            initial.epoch,
            &[MutationHint::Path(b"too-late".to_vec())],
            600,
        )
        .is_err());
    store
        .activate_snapshot_facade(
            initialized.watch_id,
            initialized.grant_id,
            &binding(&request, [52; 16]),
        )
        .unwrap();
    let watch = store.watches.iter().find(|row| row.id == initialized.watch_id).unwrap();
    assert_eq!((watch.fsmonitor_state, watch.guard), (FsmonitorState::SnapshotOnly, None));
}

#[test]
fn fixed_jj_trigger_is_grant_scoped_and_fenced() {
    let (mut store, mut request) = setup();
    request.permissions =
        Permissions::new(PERMISSION_READ | PERMISSION_CUT | PERMISSION_TRIGGER).unwrap();
    let (_initialize, initialized) = initialize_watch(&mut store, &request);
    assert!(!store.has_fixed_jj_trigger(initialized.watch_id, initialized.grant_id).unwrap());
    assert!(!store.register_fixed_jj_trigger(initialized.watch_id, initialized.grant_id).unwrap());
    assert!(store.register_fixed_jj_trigger(initialized.watch_id, initialized.grant_id).unwrap());
    store
        .activate_snapshot_facade(
            initialized.watch_id,
            initialized.grant_id,
            &binding(&request, [40; 16]),
        )
        .unwrap();
    assert_eq!(
        store.active_fixed_jj_trigger_watches(request.requester_uid).unwrap(),
        vec![initialized.watch_id]
    );
    let run = store.claim_fixed_jj_trigger([41; 16], 400, 1_000).unwrap().unwrap();
    assert_eq!(run.through_sequence, 0);
    assert!(store.claim_fixed_jj_trigger([42; 16], 500, 1_100).unwrap().is_none());
    store.finish_fixed_jj_trigger(&run, true).unwrap();
    assert!(store.claim_fixed_jj_trigger([42; 16], 600, 1_200).unwrap().is_none());
    assert!(store.delete_fixed_jj_trigger(initialized.watch_id, initialized.grant_id).unwrap());
    assert!(!store.delete_fixed_jj_trigger(initialized.watch_id, initialized.grant_id).unwrap());
    assert!(store.active_fixed_jj_trigger_watches(request.requester_uid).unwrap().is_empty());
}

#[test]
fn trigger_claim_prefers_the_least_run_watch_for_failure_fairness() {
    let (mut store, mut first_request) = setup();
    first_request.permissions =
        Permissions::new(PERMISSION_READ | PERMISSION_CUT | PERMISSION_TRIGGER).unwrap();
    let (_first_reservation, first) = initialize_watch(&mut store, &first_request);

    let mut second_request = first_request.clone();
    second_request.source_subvol_uuid = [22; 16];
    second_request.source_path = b"/source-two".to_vec();
    second_request.reserved_snapshot_path = b"/store/snapshots/w2/s-0-op".to_vec();
    second_request.lease_owner = [23; 16];
    let second_reservation = store.reserve_initialize(&second_request).unwrap();
    store
        .start_initialize_filesystem_effect(&second_reservation, second_request.lease_owner, 150)
        .unwrap();
    let mut second_snapshot = snapshot(&second_request);
    second_snapshot.subvol_uuid = [24; 16];
    second_snapshot.root_id = 902;
    let second_recorded = store
        .record_initialize_snapshot(
            &second_reservation,
            second_request.lease_owner,
            &second_snapshot,
            200,
        )
        .unwrap();
    let second = store
        .publish_initial_checkpoint(
            &second_reservation,
            second_request.lease_owner,
            &second_recorded,
            &checked(&index()),
            300,
        )
        .unwrap();

    for (initialized, request, session) in
        [(&first, &first_request, [50; 16]), (&second, &second_request, [51; 16])]
    {
        store
            .activate_snapshot_facade(
                initialized.watch_id,
                initialized.grant_id,
                &binding(request, session),
            )
            .unwrap();
        store.register_fixed_jj_trigger(initialized.watch_id, initialized.grant_id).unwrap();
    }
    store.triggers.iter_mut().find(|row| row.watch_id == first.watch_id).unwrap().run_fence = 10;
    let claimed = store.claim_fixed_jj_trigger([52; 16], 400, 1_000).unwrap().unwrap();
    assert_eq!(claimed.watch_id, second.watch_id);
}

#[test]
fn publishes_adjacent_delta_as_overlay_and_preserves_directory_witness() {
    let (mut store, request) = setup();
    let (_initialize, initialized) = initialize_watch(&mut store, &request);
    let cut_request = CutRequest {
        watch_id: initialized.watch_id,
        authorization_id: initialized.grant_id,
        reserved_snapshot_path: b"/store/snapshots/w/s-1-op".to_vec(),
        requester_uid: 1000,
        requester_gid: 1000,
        lease_owner: [6; 16],
        now_ns: 400,
        lease_expires_ns: 2000,
    };
    let cut = store.reserve_cut(&cut_request).unwrap();
    assert_eq!(cut.sequence, 1);
    let first_admission = store
        .admit_planned_cut(
            initialized.watch_id,
            initialized.grant_id,
            [70; 16],
            "query",
            410,
            2_000,
        )
        .unwrap()
        .unwrap();
    let second_admission = store
        .admit_planned_cut(
            initialized.watch_id,
            initialized.grant_id,
            [71; 16],
            "clock",
            420,
            2_000,
        )
        .unwrap()
        .unwrap();
    assert_eq!(first_admission.reservation.operation_id, cut.operation_id);
    assert_eq!(second_admission.reservation.operation_id, cut.operation_id);
    store.start_cut_filesystem_effect(&cut, cut_request.lease_owner, 450).unwrap();
    assert!(store
        .admit_planned_cut(
            initialized.watch_id,
            initialized.grant_id,
            [72; 16],
            "query",
            460,
            2_000,
        )
        .unwrap()
        .is_none());
    let recorded = store
        .record_cut_snapshot(
            &cut,
            cut_request.lease_owner,
            &cut_snapshot(&cut_request, cut.source_subvol_uuid),
            500,
        )
        .unwrap();
    store
        .publish_validated_physical_cut(&cut, cut_request.lease_owner, &recorded, 550)
        .unwrap();

    let root = object(ROOT_INO, MODE_DIRECTORY | 0o755, 1);
    let new_file = object(301, 0o100644, 1);
    let manifest = ChangedObjectsManifest {
        objects: BTreeMap::from([
            (
                ROOT_INO,
                ObjectChange {
                    ino: ROOT_INO,
                    old_generation: Some(root.generation),
                    new_generation: Some(root.generation),
                    change_mask: CHANGE_INODE,
                },
            ),
            (
                300,
                ObjectChange {
                    ino: 300,
                    old_generation: Some(301),
                    new_generation: Some(301),
                    change_mask: CHANGE_FILE_DATA,
                },
            ),
            (
                301,
                ObjectChange {
                    ino: 301,
                    old_generation: None,
                    new_generation: Some(new_file.generation),
                    change_mask: CHANGE_INODE | CHANGE_REF | CHANGE_CREATED,
                },
            ),
        ]),
        ref_adds: vec![reference(301, ROOT_INO, b"new")],
        ref_deletes: Vec::new(),
        raw_ref_adds: 1,
        raw_ref_deletes: 0,
    };
    let base = store.load_revision_delta_subset(initialized.revision_id, &manifest, &None).unwrap();
    let mut target = base.clone();
    target.objects.insert(ROOT_INO, root);
    target.objects.insert(301, new_file);
    link(&mut target, reference(301, ROOT_INO, b"new"));
    let event = |kind: EventKind, ino: u64, mask: u64, old: Option<&[u8]>, new: Option<&[u8]>| {
        let change = &manifest.objects[&ino];
        Event {
            kind,
            ino,
            old_generation: change.old_generation,
            new_generation: change.new_generation,
            change_mask: mask,
            old_path: old.map(|path| path.to_vec()),
            new_path: new.map(|path| path.to_vec()),
        }
    };
    let events = vec![
        event(EventKind::DirectoryDirtyWitness, ROOT_INO, CHANGE_INODE, Some(b""), Some(b"")),
        event(EventKind::PathChanged, 300, CHANGE_FILE_DATA, Some(b"a"), Some(b"a")),
        event(
            EventKind::PathAdded,
            301,
            CHANGE_INODE | CHANGE_REF | CHANGE_CREATED,
            None,
            Some(b"new"),
        ),
    ];
    let applied =
        AppliedDelta { index: target.clone(), events: events.clone(), wakes_triggers: true };
    let published = store
        .publish_adjacent_delta(
            &cut,
            cut_request.lease_owner,
            &recorded,
            &manifest,
            &applied,
            &report(Ok(digest(&index()))),
            &delta_digests(&base, &target, &manifest),
            600,
        )
        .unwrap();
    assert_eq!(published.sequence, 1);
    assert_eq!(store.poll_cut_admission(&first_admission, 610).unwrap().unwrap(), published);
    assert_eq!(store.poll_cut_admission(&second_admission, 610).unwrap().unwrap(), published);
    assert!(published
        .events
        .iter()
        .any(|event| event.kind == EventKind::DirectoryDirtyWitness));
    let full_revision = store.load_revision(published.revision_id, &valid()).unwrap();
    assert_eq!(names(&full_revision, 301), vec![b"new".to_vec()]);
    let stored = store.load_revision_metadata(published.revision_id).unwrap();
    let full = digest(&full_revision);
    assert_eq!(stored.object_count, full_revision.objects.len() as i64);
    assert_eq!(stored.ref_count, full_revision.references.len() as i64);
    assert_eq!(stored.state_hash, full.state_hash);
    assert_eq!(stored.single_owner_uid, full.single_owner_uid);
    assert_eq!(stored.privileged_metadata_count, full.privileged_metadata_count as i64);
    assert_eq!(stored.security_state_hash, full.security_state_hash);
    let full_owner_counts = index_owner_counts(&full_revision).unwrap();
    assert_eq!(stored.owner_cardinality, full_owner_counts.len() as i64);
    assert_eq!(stored.owner_uid_xor, owner_uid_xor(&full_owner_counts));
    let comparison =
        store.comparisons.iter().find(|row| row.id == published.comparison_id).unwrap();
    assert_eq!(comparison.objects.iter().filter(|row| row.ino == ROOT_INO).count(), 1);

    let grant = store.grants.iter().position(|row| row.id == initialized.grant_id).unwrap();
    store.grants[grant].permissions = PERMISSION_READ;
    let historical = store
        .replay_historical_changes(
            initialized.watch_id,
            initialized.grant_id,
            1000,
            [4; 16],
            [5; 16],
        )
        .unwrap();
    assert_eq!((historical.from_sequence, historical.to_sequence), (0, 1));
    assert!(!historical.fresh_instance);
    assert_eq!(historical.events, published.events);
    let empty = store
        .replay_historical_changes(
            initialized.watch_id,
            initialized.grant_id,
            1000,
            [5; 16],
            [5; 16],
        )
        .unwrap();
    assert!(!empty.fresh_instance);
    assert!(empty.events.is_empty());
    assert!(store
        .replay_historical_changes(
            initialized.watch_id,
            initialized.grant_id,
            1000,
            [99; 16],
            [5; 16],
        )
        .is_err());
    let expected_after_compaction = store.load_revision(published.revision_id, &valid()).unwrap();
    store.grants[grant].permissions = PERMISSION_READ | PERMISSION_RETAIN;
    store
        .create_retention_lease(
            initialized.watch_id,
            initialized.grant_id,
            initialized.snapshot_id,
            650,
            2_000,
        )
        .unwrap();
    let clock_epoch =
        store.watches.iter().find(|row| row.id == initialized.watch_id).unwrap().clock_epoch;
    let mut lease = query_lease([74; 16], &initialized, clock_epoch, [75; 16]);
    lease.from_cut_sequence = Some(0);
    lease.to_cut_sequence = 1;
    lease.lease_expires_ns = 750;
    store.query_leases.push(lease);
    assert!(store
        .advance_replay_floor(initialized.watch_id, 1, 700, [73; 16], &report(Ok(full)))
        .is_err());
    let reclaimed =
        store.advance_replay_floor(initialized.watch_id, 1, 800, [73; 16], &report(Ok(full))).unwrap();
    assert_eq!(reclaimed, 0);
    assert_eq!(store.load_revision(published.revision_id, &valid()).unwrap(), expected_after_compaction);
    let revision = store.revisions.iter().find(|row| row.id == published.revision_id).unwrap();
    let comparison =
        store.comparisons.iter().find(|row| row.id == published.comparison_id).unwrap();
    let watch = store.watches.iter().find(|row| row.id == initialized.watch_id).unwrap();
    assert_eq!(
        (revision.delta_depth, comparison.events.len(), watch.replay_floor_seq),
        (0, 0, Some(1))
    );
    let reclaimed_history = store
        .replay_historical_changes(
            initialized.watch_id,
            initialized.grant_id,
            1000,
            [4; 16],
            [5; 16],
        )
        .unwrap();
    assert!(reclaimed_history.fresh_instance);
    assert!(reclaimed_history.events.is_empty());
    let claim = match store
        .claim_historical_comparison(&HistoricalComparisonRequest {
            watch_id: initialized.watch_id,
            authorization_id: initialized.grant_id,
            requester_uid: 1000,
            from_snapshot_uuid: [4; 16],
            to_snapshot_uuid: [5; 16],
            lease_owner: [76; 16],
            now_ns: 900,
            lease_expires_ns: 2_000,
        })
        .unwrap()
    {
        HistoricalComparisonAdmission::Claimed(claim) => claim,
        HistoricalComparisonAdmission::Ready(_) => panic!("direct comparison was not built"),
    };
    let whole = AppliedDelta { index: full_revision, events, wakes_triggers: true };
    let direct = store.publish_historical_comparison(&claim, &manifest, &whole, &valid(), 950).unwrap();
    assert!(!direct.fresh_instance);
    assert_eq!(direct.events, published.events);
    let cached = store
        .claim_historical_comparison(&HistoricalComparisonRequest {
            watch_id: initialized.watch_id,
            authorization_id: initialized.grant_id,
            requester_uid: 1000,
            from_snapshot_uuid: [4; 16],
            to_snapshot_uuid: [5; 16],
            lease_owner: [77; 16],
            now_ns: 1_000,
            lease_expires_ns: 2_000,
        })
        .unwrap();
    assert_eq!(cached, HistoricalComparisonAdmission::Ready(direct));
}

#[test]
fn a_started_cut_takes_no_further_admission() {
    let (mut store, request) = setup();
    let (_initialize, initialized) = initialize_watch(&mut store, &request);
    let cut_request = CutRequest {
        watch_id: initialized.watch_id,
        authorization_id: initialized.grant_id,
        reserved_snapshot_path: b"/store/snapshots/w/race".to_vec(),
        requester_uid: 1000,
        requester_gid: 1000,
        lease_owner: [80; 16],
        now_ns: 400,
        lease_expires_ns: 2_000,
    };
    let cut = store.reserve_cut(&cut_request).unwrap();
    let early = store
        .admit_planned_cut(
            initialized.watch_id,
            initialized.grant_id,
            [81; 16],
            "query",
            410,
            2_000,
        )
        .unwrap()
        .unwrap();
    assert_eq!(early.reservation.operation_id, cut.operation_id);
    store.start_cut_filesystem_effect(&cut, [80; 16], 420).unwrap();
    let late = store
        .admit_planned_cut(
            initialized.watch_id,
            initialized.grant_id,
            [82; 16],
            "query",
            430,
            2_000,
        )
        .unwrap();
    assert!(late.is_none());
    let operation = store.operations.iter().find(|row| row.id == cut.operation_id).unwrap();
    assert_eq!(operation.state, OperationState::FsStarted);
    assert_eq!(
        store.admissions.iter().filter(|row| row.state == AdmissionState::Waiting).count(),
        1
    );
}

#[test]
fn terminal_gap_is_rebuilt_as_a_fenced_full_fresh_checkpoint() {
    let (mut store, request) = setup();
    let (_initialize, initialized) = initialize_watch(&mut store, &request);
    let first_request = CutRequest {
        watch_id: initialized.watch_id,
        authorization_id: initialized.grant_id,
        reserved_snapshot_path: b"/store/snapshots/w/s-1-op".to_vec(),
        requester_uid: 1000,
        requester_gid: 1000,
        lease_owner: [6; 16],
        now_ns: 400,
        lease_expires_ns: 2000,
    };
    let first = store.reserve_cut(&first_request).unwrap();
    store.start_cut_filesystem_effect(&first, first_request.lease_owner, 450).unwrap();
    let first_snapshot = store
        .record_cut_snapshot(
            &first,
            first_request.lease_owner,
            &cut_snapshot(&first_request, first.source_subvol_uuid),
            500,
        )
        .unwrap();
    store
        .publish_validated_physical_cut(&first, first_request.lease_owner, &first_snapshot, 550)
        .unwrap();
    store.fail_cut_comparison(&first, first_request.lease_owner, "invalid delta", 575).unwrap();
    let second_request = CutRequest {
        reserved_snapshot_path: b"/store/snapshots/w/s-2-op".to_vec(),
        lease_owner: [7; 16],
        now_ns: 600,
        lease_expires_ns: 2200,
        ..first_request
    };
    let second = store.reserve_cut(&second_request).unwrap();
    assert_eq!(second.sequence, 2);
    assert_eq!(second.base_snapshot_id, first_snapshot.snapshot_id);
    let watch = store.watches.iter().find(|row| row.id == initialized.watch_id).unwrap();
    assert_eq!(watch.indexed_seq, Some(0));

    store.start_cut_filesystem_effect(&second, second_request.lease_owner, 650).unwrap();
    let mut second_identity = cut_snapshot(&second_request, second.source_subvol_uuid);
    second_identity.subvol_uuid = [6; 16];
    second_identity.root_id = 902;
    second_identity.ctransid = 12;
    second_identity.otransid = 11;
    second_identity.created_ns = 700;
    let second_snapshot = store
        .record_cut_snapshot(&second, second_request.lease_owner, &second_identity, 700)
        .unwrap();
    store
        .publish_validated_physical_cut(
            &second,
            second_request.lease_owner,
            &second_snapshot,
            750,
        )
        .unwrap();
    let paths = BTreeMap::from([
        (ROOT_INO, Ok(vec![Vec::new()])),
        (300, Ok(vec![b"a".to_vec(), vec![0xff, b'b']])),
    ]);
    let published = store
        .publish_full_fresh_checkpoint(
            &second,
            second_request.lease_owner,
            &second_snapshot,
            &checked(&index()),
            &paths,
            800,
        )
        .unwrap();
    assert_eq!(published.sequence, 2);
    assert_eq!(store.load_revision(published.revision_id, &valid()).unwrap(), index());
    let cut = |sequence: i64| store.cuts.iter().find(|row| row.sequence == sequence).unwrap();
    let watch = store.watches.iter().find(|row| row.id == initialized.watch_id).unwrap();
    let revision =
        store.revisions.iter().find(|row| Some(row.id) == watch.indexed_revision_id).unwrap();
    assert_eq!(
        (
            cut(1).state,
            cut(2).state,
            cut(2).fresh_instance,
            watch.indexed_seq,
            revision.delta_depth,
        ),
        (CutState::Failed, CutState::Ready, true, Some(2), 0)
    );
    let history = store
        .replay_historical_changes(
            initialized.watch_id,
            initialized.grant_id,
            1000,
            [4; 16],
            [6; 16],
        )
        .unwrap();
    assert!(history.fresh_instance);
    assert!(history.events.is_empty());
}

#[test]
fn an_abandoned_admission_is_no_longer_answered() {
    let (mut store, request) = setup();
    let (_initialize, initialized) = initialize_watch(&mut store, &request);
    store
        .reserve_cut(&CutRequest {
            watch_id: initialized.watch_id,
            authorization_id: initialized.grant_id,
            reserved_snapshot_path: b"/store/snapshots/w/abandoned".to_vec(),
            requester_uid: 1000,
            requester_gid: 1000,
            lease_owner: [80; 16],
            now_ns: 400,
            lease_expires_ns: 2_000,
        })
        .unwrap();
    let admission = store
        .admit_planned_cut(
            initialized.watch_id,
            initialized.grant_id,
            [81; 16],
            "query",
            410,
            2_000,
        )
        .unwrap()
        .unwrap();
    assert!(store.poll_cut_admission(&admission, 420).unwrap().is_none());
    store.abandon_cut_admission(&admission).unwrap();
    assert_eq!(
        store.admissions.iter().find(|row| row.id == admission.id).unwrap().state,
        AdmissionState::Abandoned
    );
    assert!(store.poll_cut_admission(&admission, 430).is_err());
    assert!(store.abandon_cut_admission(&admission).is_err());
}

#[test]
fn a_retained_snapshot_is_collected_only_once_it_is_released() {
    let (mut store, mut request) = setup();
    request.permissions =
        Permissions::new(PERMISSION_READ | PERMISSION_CUT | PERMISSION_RETAIN).unwrap();
    let (_reservation, initialized) = initialize_watch(&mut store, &request);
    let lease = store
        .create_retention_lease(
            initialized.watch_id,
            initialized.grant_id,
            initialized.snapshot_id,
            400,
            50_000,
        )
        .unwrap();
    let owner = PinOwner::RetentionLease(lease.id);
    store.pins.retain(|pin| pin.owner == owner);
    assert!(store.find_deletable(10).is_empty());
    store.release_retention_lease(&lease).unwrap();
    assert!(store.release_retention_lease(&lease).is_err());
    assert_eq!(store.find_deletable(10), vec![initialized.snapshot_id]);
    let reserved = store.reserve_unpinned_snapshot_deletes([9; 16], 500, 900, 10).unwrap();
    assert_eq!(reserved.len(), 1);
    assert_eq!(reserved[0].snapshot_id, initialized.snapshot_id);
    assert!(store.find_deletable(10).is_empty());
    store.start_snapshot_delete(&reserved[0], [9; 16], 500).unwrap();
    assert!(store.start_snapshot_delete(&reserved[0], [9; 16], 510).is_err());
}

#[test]
fn an_operation_starts_once() {
    let (mut store, request) = setup();
    let reservation = store.reserve_initialize(&request).unwrap();
    store.start_initialize_filesystem_effect(&reservation, request.lease_owner, 150).unwrap();
    assert!(store
        .start_initialize_filesystem_effect(&reservation, request.lease_owner, 160)
        .is_err());
    let taken = store.takeover_recovery_leases([9; 16], 5_000).unwrap();
    assert_eq!(taken, 1);
    let row = store.operations.iter().find(|row| row.id == reservation.operation_id).unwrap();
    assert_eq!(row.lease_owner, Some([9; 16]));
    assert_eq!(row.lease_fence, reservation.operation_fence);
}

#[test]
fn a_trigger_run_knows_its_root() {
    let (mut store, mut request) = setup();
    request.permissions =
        Permissions::new(PERMISSION_READ | PERMISSION_CUT | PERMISSION_TRIGGER).unwrap();
    let (_initialize, initialized) = initialize_watch(&mut store, &request);
    store.register_fixed_jj_trigger(initialized.watch_id, initialized.grant_id).unwrap();
    store
        .activate_snapshot_facade(
            initialized.watch_id,
            initialized.grant_id,
            &binding(&request, [40; 16]),
        )
        .unwrap();
    let run = store.claim_fixed_jj_trigger([41; 16], 400, 1_000).unwrap().unwrap();
    assert_eq!(store.fixed_jj_trigger_root(&run, 1000).unwrap(), b"/source");
    assert!(store.fixed_jj_trigger_root(&run, 1001).is_err());
    store.finish_fixed_jj_trigger(&run, false).unwrap();
    assert!(store.fixed_jj_trigger_root(&run, 1000).is_err());
}

#[test]
fn a_subvolume_names_its_snapshot() {
    let subvolume = SubvolumeInfo {
        uuid: [7; 16],
        parent_uuid: Some([8; 16]),
        received_uuid: None,
        root_id: 260,
        ctransid: 12,
        otransid: 11,
        readonly: true,
    };
    let identity =
        SnapshotIdentity::from_subvolume([1; 16], &subvolume, b"/managed/s".to_vec(), 5);
    let expected = SnapshotIdentity {
        fs_uuid: [1; 16],
        subvol_uuid: [7; 16],
        parent_uuid: Some([8; 16]),
        received_uuid: None,
        root_id: 260,
        ctransid: 12,
        otransid: 11,
        path: b"/managed/s".to_vec(),
        readonly: true,
        created_ns: 5,
    };
    assert_eq!(identity, expected);
}

#[test]
fn kinds_of_events_are_named() {
    for (kind, name) in [
        (EventKind::PathAdded, "path-added"),
        (EventKind::PathRemoved, "path-removed"),
        (EventKind::PathChanged, "path-changed"),
        (EventKind::SubtreeMoved, "subtree-moved"),
        (EventKind::DirectoryDirtyWitness, "directory-dirty-witness"),
    ] {
        assert_eq!(event_kind_name(&kind), name);
        assert_eq!(parse_event_kind(name).unwrap(), kind);
    }
    assert_eq!(
        parse_event_kind("path \"x\"").unwrap_err().message(),
        "unknown stored event kind \"path \\\"x\\\"\""
    );
}

#[test]
fn a_store_out_of_order_is_found() {
    let (mut store, request) = setup();
    initialize_watch(&mut store, &request);
    assert!(store.is_sound());
    let checkpoint = store.revisions[0].checkpoint.as_mut().unwrap();
    assert!(checkpoint.index.is_sound());
    checkpoint.index.references.reverse();
    assert!(!checkpoint.index.is_sound());
    assert!(!store.is_sound());
}

#[test]
fn a_comparison_is_held_once() {
    let (mut store, request) = setup();
    initialize_watch(&mut store, &request);
    let comparison = |id: i64| Comparison {
        id,
        from_snapshot_id: 1,
        to_snapshot_id: 2,
        kind: ComparisonKind::Incremental,
        algorithm_version: 2,
        state: ComparisonState::Claimed,
        lease_owner: None,
        lease_fence: 1,
        lease_expires_ns: None,
        manifest_hash: None,
        raw_ref_adds: None,
        raw_ref_deletes: None,
        objects: Vec::new(),
        references: Vec::new(),
        events: Vec::new(),
    };
    store.comparisons.push(comparison(1));
    assert!(store.is_sound());
    store.comparisons.push(comparison(2));
    assert!(!store.is_sound());
}

#[test]
fn a_delta_and_its_reverse_leave_the_summary() {
    let base = index();
    let mut target = base.clone();
    target.objects.get_mut(&300).unwrap().uid = 2000;
    target.references.remove(1);
    let change = |old: u64, new: u64| ObjectChange {
        ino: 300,
        old_generation: Some(old),
        new_generation: Some(new),
        change_mask: CHANGE_INODE | CHANGE_REF,
    };
    let forth = ChangedObjectsManifest {
        objects: BTreeMap::from([(300, change(301, 301))]),
        ref_adds: Vec::new(),
        ref_deletes: vec![base.references[1].clone()],
        raw_ref_adds: 0,
        raw_ref_deletes: 1,
    };
    let back = ChangedObjectsManifest {
        objects: forth.objects.clone(),
        ref_adds: forth.ref_deletes.clone(),
        ref_deletes: Vec::new(),
        raw_ref_adds: 1,
        raw_ref_deletes: 0,
    };
    let safety = digest(&base);
    let before = RevisionMetadata {
        summary_version: 2,
        owner_cardinality: 1,
        owner_uid_xor: 1000,
        object_count: 2,
        ref_count: 2,
        state_hash: safety.state_hash,
        single_owner_uid: safety.single_owner_uid,
        privileged_metadata_count: 0,
        security_state_hash: safety.security_state_hash,
    };
    let owners = BTreeMap::from([(1000, 2), (2000, 0)]);
    let (changed, counts) = apply_revision_metadata(
        &before,
        &base,
        &target,
        &forth,
        &delta_digests(&base, &target, &forth),
        &owners,
    )
    .unwrap();
    assert_eq!(counts, BTreeMap::from([(1000, 1), (2000, 1)]));
    assert_eq!((changed.owner_cardinality, changed.single_owner_uid), (2, None));
    assert_eq!(changed.state_hash, digest(&target).state_hash);
    let (after, counts) = apply_revision_metadata(
        &changed,
        &target,
        &base,
        &back,
        &delta_digests(&target, &base, &back),
        &counts,
    )
    .unwrap();
    assert_eq!(after, before);
    assert_eq!(counts, owners);
}

/// Stores another revision on the first one, in which a file is gone.
fn overlay_without_file(store: &mut Store, first: i64) {
    let base = &store.revisions[0];
    let overlaid = Revision {
        id: first + 1,
        snapshot_id: base.snapshot_id,
        storage_base_revision_id: Some(first),
        provenance_comparison_id: None,
        delta_depth: 1,
        state: base.state,
        builder_owner: base.builder_owner,
        builder_fence: base.builder_fence,
        summary: base.summary,
        created_ns: 400,
        checkpoint: None,
        overlay: Overlay {
            objects: BTreeMap::from([(300, None)]),
            references: Vec::new(),
            owner_counts: BTreeMap::new(),
        },
    };
    store.revisions.push(overlaid);
}

#[test]
fn an_invalid_revision_is_refused_where_it_is_found() {
    let (mut store, request) = setup();
    let (_initialize, initialized) = initialize_watch(&mut store, &request);
    let first = initialized.revision_id;
    overlay_without_file(&mut store, first);

    let loading = store.begin_load(first + 1).unwrap();
    assert_eq!((loading.left, &loading.index), (1, &index()));
    let fault = Some("bad".to_owned());
    assert_eq!(
        store.go_on_loading(loading.clone(), &fault).unwrap_err().message(),
        "stored checkpoint is invalid: bad"
    );
    let next = match store.go_on_loading(loading, &None).unwrap() {
        LoadStep::Validate(next) => next,
        LoadStep::Loaded(_) => panic!("an overlay is missing"),
    };
    assert!(!next.index.objects.contains_key(&300));
    assert_eq!(
        store.go_on_loading(next.clone(), &fault).unwrap_err().message(),
        format!("stored revision {} is invalid: bad", first + 1)
    );
    let expected = store.load_revision(first + 1, &valid()).unwrap();
    assert_eq!(store.go_on_loading(next, &None).unwrap(), LoadStep::Loaded(expected));
    let invalid = |id: i64| BTreeMap::from([(id, "bad".to_owned())]);
    assert_eq!(
        store.load_revision(first + 1, &invalid(first)).unwrap_err().message(),
        "stored checkpoint is invalid: bad"
    );
    assert_eq!(
        store.load_revision(first + 1, &invalid(first + 1)).unwrap_err().message(),
        format!("stored revision {} is invalid: bad", first + 1)
    );
    assert_eq!(store.load_revision(first, &invalid(first + 1)).unwrap(), index());
    assert_eq!(
        store.load_checkpoint(first, &fault).unwrap_err().message(),
        "stored checkpoint is invalid: bad"
    );
    assert_eq!(
        store.load_checkpoint(first + 1, &fault).unwrap_err().message(),
        format!("revision {} has no ready checkpoint", first + 1)
    );
    let unread: Result<IndexDigest, String> = Err("stored checkpoint is invalid: bad".to_owned());
    assert_eq!(
        store.compact_revision(first + 1, [9; 16], &report(unread.clone())).unwrap_err().message(),
        "stored checkpoint is invalid: bad"
    );

    assert_eq!(
        accept_delta_subset(index(), &fault).unwrap_err().message(),
        "changed-object revision subset is invalid: bad"
    );
    assert_eq!(accept_delta_subset(index(), &None).unwrap(), index());
}

#[test]
fn a_head_that_cannot_be_read_keeps_the_floor() {
    let (mut store, request) = setup();
    let (_initialize, initialized) = initialize_watch(&mut store, &request);
    let at = store.watches.iter().position(|row| row.id == initialized.watch_id).unwrap();
    store.watches[at].indexed_seq = Some(3);
    let unread: Result<IndexDigest, String> = Err("stored checkpoint is invalid: bad".to_owned());
    let error = store
        .advance_replay_floor(initialized.watch_id, 2, 500, [9; 16], &report(unread.clone()))
        .unwrap_err();
    assert_eq!(error.message(), "stored checkpoint is invalid: bad");
    assert_eq!(store.watches[at].replay_floor_seq, Some(0));
    assert_eq!(
        store.advance_replay_floor(initialized.watch_id, 0, 500, [9; 16], &report(unread.clone())).unwrap(),
        0
    );
}

#[test]
fn drawn_identifiers_are_random_ones() {
    let (mut store, request) = setup();
    let reservation = store.reserve_initialize(&request).unwrap();
    for id in [reservation.watch_id, reservation.grant_id, reservation.operation_id] {
        assert_eq!((id[6] & 0xf0, id[8] & 0xc0), (0x40, 0x80));
    }
    assert_ne!(reservation.watch_id, reservation.grant_id);
}

#[test]
fn compaction_leaves_the_summary_of_what_is_read() {
    let (mut store, request) = setup();
    let (_initialize, initialized) = initialize_watch(&mut store, &request);
    let revision = initialized.revision_id + 1;
    overlay_without_file(&mut store, initialized.revision_id);
    let overlay = &mut store.revisions[1].overlay;
    overlay.references = index()
        .references
        .iter()
        .map(|entry| RefOverride { reference: entry.clone(), present: false })
        .collect();
    let whole = store.load_revision(revision, &valid()).unwrap();
    assert_eq!((whole.objects.len(), whole.references.len()), (1, 0));
    assert!(!store.must_compact(revision));
    store.revisions[1].summary.summary_version = 1;
    assert!(store.must_compact(revision));
    assert!(store.compact_revision(revision, [9; 16], &report(Ok(digest(&whole)))).unwrap());
    assert_eq!(store.load_revision(revision, &valid()).unwrap(), whole);
    let summary = store.load_revision_metadata(revision).unwrap();
    assert_eq!((summary.object_count, summary.ref_count), (1, 0));
    assert_eq!((summary.owner_cardinality, summary.owner_uid_xor), (1, 1000));
    assert_eq!(summary.single_owner_uid, Some(1000));
    assert_eq!(summary.privileged_metadata_count, 0);
    assert_eq!(summary.state_hash, digest(&whole).state_hash);
    assert!(!store.compact_revision(revision, [9; 16], &report(Ok(digest(&whole)))).unwrap());
}

#[test]
fn a_store_that_is_not_whole_is_found() {
    let (mut store, request) = setup();
    let (_initialize, initialized) = initialize_watch(&mut store, &request);
    overlay_without_file(&mut store, initialized.revision_id);
    assert!(store.is_sound());
    store.revisions[1].delta_depth = 0;
    assert!(!store.is_sound());
    store.revisions[1].delta_depth = 33;
    assert!(!store.is_sound());
    store.revisions[1].delta_depth = 1;
    store.revisions[1].provenance_comparison_id = Some(77);
    assert!(!store.is_sound());
    store.revisions[1].provenance_comparison_id = None;
    let cut = WatchCut {
        watch_id: initialized.watch_id,
        sequence: 1,
        operation_id: [7; 16],
        base_snapshot_id: 1,
        target_snapshot_id: 2,
        comparison_id: None,
        comparison_from_snapshot_id: None,
        state: CutState::Created,
        fresh_instance: false,
    };
    store.cuts.push(cut);
    store.cuts.push(WatchCut { sequence: 2, ..cut });
    assert!(store.is_sound());
    store.cuts.push(WatchCut { operation_id: [8; 16], ..cut });
    assert!(!store.is_sound());
}

#[test]
fn a_gap_with_an_unfinished_cut_is_not_bridged() {
    let (mut store, request) = setup();
    let (_initialize, initialized) = initialize_watch(&mut store, &request);
    let cut_request = |name: &[u8]| CutRequest {
        watch_id: initialized.watch_id,
        authorization_id: initialized.grant_id,
        reserved_snapshot_path: name.to_vec(),
        requester_uid: 1000,
        requester_gid: 1000,
        lease_owner: [6; 16],
        now_ns: 400,
        lease_expires_ns: 2000,
    };
    let mut publish = |store: &mut Store, name: &[u8], subvol_uuid: [u8; 16], root_id: u64| {
        let request = cut_request(name);
        let cut = store.reserve_cut(&request).unwrap();
        store.start_cut_filesystem_effect(&cut, [6; 16], 450).unwrap();
        let identity = SnapshotIdentity {
            subvol_uuid,
            root_id,
            ..cut_snapshot(&request, cut.source_subvol_uuid)
        };
        let recorded = store.record_cut_snapshot(&cut, [6; 16], &identity, 500).unwrap();
        store.publish_validated_physical_cut(&cut, [6; 16], &recorded, 550).unwrap();
        (cut, recorded)
    };
    let (first, _) = publish(&mut store, b"/store/s-1", [5; 16], 901);
    let operation =
        store.operations.iter().position(|row| row.id == first.operation_id).unwrap();
    store.operations[operation].state = OperationState::Failed;
    let (second, recorded) = publish(&mut store, b"/store/s-2", [6; 16], 902);
    let paths = BTreeMap::from([
        (ROOT_INO, Ok(vec![Vec::new()])),
        (300, Ok(vec![b"a".to_vec(), vec![0xff, b'b']])),
    ]);
    let mut bridge = |store: &mut Store| {
        store.publish_full_fresh_checkpoint(
            &second,
            [6; 16],
            &recorded,
            &checked(&index()),
            &paths,
            800,
        )
    };
    assert_eq!(
        bridge(&mut store).unwrap_err().message(),
        "gap contains a cut which is not terminally failed"
    );
    store.cuts[0].state = CutState::Failed;
    assert_eq!(bridge(&mut store).unwrap().sequence, 2);
    assert!(store.is_sound());
}

#[test]
fn a_sequence_is_cut_once() {
    let (mut store, request) = setup();
    let (_initialize, initialized) = initialize_watch(&mut store, &request);
    let cut_request = CutRequest {
        watch_id: initialized.watch_id,
        authorization_id: initialized.grant_id,
        reserved_snapshot_path: b"/store/s-1".to_vec(),
        requester_uid: 1000,
        requester_gid: 1000,
        lease_owner: [6; 16],
        now_ns: 400,
        lease_expires_ns: 2000,
    };
    let cut = store.reserve_cut(&cut_request).unwrap();
    store.start_cut_filesystem_effect(&cut, [6; 16], 450).unwrap();
    let identity = cut_snapshot(&cut_request, cut.source_subvol_uuid);
    let recorded = store.record_cut_snapshot(&cut, [6; 16], &identity, 500).unwrap();
    store.cuts.push(WatchCut {
        watch_id: initialized.watch_id,
        sequence: 1,
        operation_id: [7; 16],
        base_snapshot_id: 1,
        target_snapshot_id: 2,
        comparison_id: None,
        comparison_from_snapshot_id: None,
        state: CutState::Created,
        fresh_instance: false,
    });
    assert_eq!(
        store
            .publish_validated_physical_cut(&cut, [6; 16], &recorded, 550)
            .unwrap_err()
            .message(),
        "UNIQUE constraint failed: watch_cuts.watch_id, watch_cuts.sequence"
    );
    store.cuts.clear();
    store.publish_validated_physical_cut(&cut, [6; 16], &recorded, 550).unwrap();
    assert_eq!((store.cuts.len(), store.cuts[0].sequence), (1, 1));
}

#[test]
fn a_delta_on_an_invalid_base_is_refused() {
    let (mut store, request) = setup();
    let (_initialize, initialized) = initialize_watch(&mut store, &request);
    let manifest = ChangedObjectsManifest {
        objects: BTreeMap::new(),
        ref_adds: Vec::new(),
        ref_deletes: Vec::new(),
        raw_ref_adds: 0,
        raw_ref_deletes: 0,
    };
    let fault = Some("bad".to_owned());
    assert_eq!(
        store
            .load_revision_delta_subset(initialized.revision_id, &manifest, &fault)
            .unwrap_err()
            .message(),
        "changed-object revision subset is invalid: bad"
    );
    assert!(store
        .load_revision_delta_subset(initialized.revision_id + 9, &manifest, &fault)
        .unwrap_err()
        .message()
        .contains("does not exist"));
    assert!(store
        .load_revision_delta_subset(initialized.revision_id, &manifest, &None)
        .is_ok());
}

#[test]
fn a_checkpoint_beside_a_base_is_checked() {
    let (mut store, request) = setup();
    let (_initialize, initialized) = initialize_watch(&mut store, &request);
    let revision = initialized.revision_id + 1;
    let beside = |fault: Option<&str>, same: bool| {
        let (mut store, request) = setup();
        let (_initialize, initialized) = initialize_watch(&mut store, &request);
        overlay_without_file(&mut store, initialized.revision_id);
        let whole = store.load_revision(revision, &valid()).unwrap();
        store.revisions[1].checkpoint = Some(Checkpoint {
            state: RevisionState::Ready,
            builder_owner: [9; 16],
            builder_fence: 1,
            index: if same { whole.clone() } else { index() },
            owner_counts: BTreeMap::from([(1000, 1)]),
        });
        let report = RevisionReport {
            digest: Ok(digest(&whole)),
            checkpoint_fault: fault.map(str::to_owned),
        };
        store.compact_revision(revision, [9; 16], &report)
    };
    assert!(beside(None, true).unwrap());
    assert_eq!(
        beside(None, false).unwrap_err().message(),
        "published checkpoint differs from its source revision"
    );
    assert_eq!(
        beside(Some("bad"), false).unwrap_err().message(),
        "stored checkpoint is invalid: bad"
    );
    let whole = report(Ok(digest(&index())));
    assert!(!store.compact_revision(revision - 1, [9; 16], &whole).unwrap());
}
