//! What a new process takes up of what an earlier one had begun: all of it, as the store
//! holds it.

use crate::manager::rows::{
    DeleteOperation, DeleteState, Operation, OperationKind, OperationState, Snapshot, Store,
    Worktree,
};
use crate::manager::table::{first, lemma_first, numbered, row};
use crate::manager::types::{RecordedSnapshot, SnapshotIdentity};
use crate::service::decode::{
    cut_fault, cut_is, delete_fault, delete_is, initialize_fault, initialize_is, worktree_fault,
    worktree_is, RecoveringCut, RecoveringCutRow, RecoveringInitialize, RecoveringInitializeRow,
    RecoveringSnapshotDelete, RecoveringSnapshotDeleteRow, RecoveringWorktree,
    RecoveringWorktreeRow,
};
use crate::service::recover::{
    cut_order, delete_order, discovered, initialize_order, is_subvolume, law_recovery_is_in_turn,
    loads_cuts, loads_initializes, loads_snapshot_deletes, loads_worktrees, made_by, reads_cut,
    recovering_cuts, recovering_initializes, recovering_snapshot_deletes, recovering_worktrees,
    worktree_order, writes_cut, writes_delete, writes_initialize, writes_worktree,
};
use vstd::prelude::*;

verus! {

/// Whether the identity is that of the stored snapshot.
pub open spec fn identity_as_stored(
    identity: SnapshotIdentity,
    snapshot: Snapshot,
    fs_uuid: [u8; 16],
) -> bool {
    &&& identity.fs_uuid@ == fs_uuid@
    &&& identity.subvol_uuid@ == snapshot.subvol_uuid@
    &&& identity.parent_uuid is Some <==> snapshot.parent_uuid is Some
    &&& identity.parent_uuid is Some ==> identity.parent_uuid->0@ == snapshot.parent_uuid->0@
    &&& identity.received_uuid is Some <==> snapshot.received_uuid is Some
    &&& identity.received_uuid is Some ==> identity.received_uuid->0@ == snapshot.received_uuid->0@
    &&& identity.root_id == snapshot.root_id
    &&& identity.ctransid == snapshot.ctransid
    &&& identity.otransid == snapshot.otransid
    &&& identity.path@ == snapshot.path@
    &&& identity.readonly == snapshot.readonly
    &&& identity.created_ns == snapshot.created_ns
}

/// Whether the recorded snapshot is the stored one of the subvolume that the operation
/// found.
pub open spec fn recorded_as_stored(
    store: Store,
    operation: Operation,
    recorded: Option<RecordedSnapshot>,
) -> bool {
    &&& recorded matches Some(recorded)
    &&& operation.discovered_uuid matches Some(uuid)
    &&& exists|i: int|
        0 <= i < store.snapshots@.len() && (#[trigger] store.snapshots@[i]).subvol_uuid == uuid
            && store.snapshots@[i].filesystem_id == operation.filesystem_id
            && store.snapshots@[i].id == recorded.snapshot_id && identity_as_stored(
            recorded.identity,
            store.snapshots@[i],
            numbered(store.filesystems@, operation.filesystem_id)->0.fs_uuid,
        )
}

proof fn lemma_states()
    ensures
        "fs_started"@ != "uuid_recorded"@,
        "fs_started"@ != "manifest_ready"@,
        "fs_started"@ != "awaiting_destination"@,
        "uuid_recorded"@ != "manifest_ready"@,
        "fs_started"@ != "delete_durable"@,
{
    reveal_strlit("fs_started");
    reveal_strlit("uuid_recorded");
    reveal_strlit("manifest_ready");
    reveal_strlit("awaiting_destination");
    reveal_strlit("delete_durable");
    assert("fs_started"@[0] == 'f');
    assert("uuid_recorded"@[0] == 'u');
    assert("manifest_ready"@[0] == 'm');
    assert("awaiting_destination"@[0] == 'a');
    assert("delete_durable"@[0] == 'd');
}

proof fn lemma_discovered(store: Store, operation: Operation)
    ensures
        discovered(store, operation) matches Some(snapshot) ==> (
        operation.discovered_uuid matches Some(uuid) && exists|i: int|
            0 <= i < store.snapshots@.len() && (#[trigger] store.snapshots@[i]) == snapshot
                && snapshot.subvol_uuid == uuid && snapshot.filesystem_id
                == operation.filesystem_id),
{
    if let Some(snapshot) = discovered(store, operation) {
        let uuid = operation.discovered_uuid->0;
        let picks = is_subvolume(operation.filesystem_id, uuid);
        lemma_first(store.snapshots@, picks, 0);
        let at = first(store.snapshots@, picks)->0;
        assert(store.snapshots@[at] == snapshot);
    }
}

/// Whether the cut is taken up as the store holds it.
pub open spec fn cut_as_stored(
    store: Store,
    operation: Operation,
    cut: RecoveringCut,
    now_ns: i64,
) -> bool {
    let completion = cut.completion;
    let reservation = completion.reservation;
    &&& reservation.operation_id@ == operation.id@
    &&& reservation.filesystem_id == operation.filesystem_id
    &&& reservation.watch_id@ == operation.watch_id@
    &&& reservation.authorization_id@ == operation.authorization_id@
    &&& operation.sequence == Some(reservation.sequence)
    &&& operation.base_snapshot_id == Some(reservation.base_snapshot_id)
    &&& reservation.source_subvol_uuid@ == operation.source_subvol_uuid@
    &&& reservation.operation_fence == operation.lease_fence
    &&& reservation.cut_fence == row(store.watches@, operation.watch_id)->0.cut_fence
    &&& operation.lease_owner matches Some(owner)
    &&& completion.lease_owner@ == owner@
    &&& completion.destination_path@ == operation.reserved_path@
    &&& cut.live_path@ == row(store.watches@, operation.watch_id)->0.live_path@
    &&& completion.physical_published <==> operation.state == OperationState::ManifestReady
    &&& completion.target is None
    &&& completion.now_ns == now_ns
    &&& if operation.state == OperationState::FsStarted {
        completion.recorded is None
    } else {
        recorded_as_stored(store, operation, completion.recorded)
    }
}

proof fn lemma_cut(store: Store, operation: Operation, cut: RecoveringCut, now_ns: i64)
    requires
        reads_cut(store, operation, now_ns, Ok(cut)),
        recovering_cuts(store)(operation),
    ensures
        cut_as_stored(store, operation, cut, now_ns),
{
    lemma_states();
    lemma_discovered(store, operation);
    let written = choose|written: RecoveringCutRow| #[trigger]
        writes_cut(store, operation, written) && cut_fault(written) is None && cut_is(
            written,
            cut,
            now_ns,
        );
    assert(cut_is(written, cut, now_ns));
}

/// Every cut that began is taken up, once, in the order of the sequences, as the store holds
/// it; and no other cut is.
pub proof fn law_begun_cuts_are_taken_up(
    store: Store,
    now_ns: i64,
    loaded: Vec<RecoveringCut>,
    i: int,
)
    requires
        loads_cuts(store, now_ns, Ok(loaded)),
    ensures
        0 <= i < store.operations@.len() && store.operations@[i].kind == OperationKind::Cut && (
        store.operations@[i].state == OperationState::FsStarted || store.operations@[i].state
            == OperationState::UuidRecorded || store.operations@[i].state
            == OperationState::ManifestReady) && row(
            store.watches@,
            store.operations@[i].watch_id,
        ) is Some && numbered(store.filesystems@, store.operations@[i].filesystem_id) is Some
            ==> exists|k: int|
            0 <= k < loaded@.len() && #[trigger] cut_as_stored(
                store,
                store.operations@[i],
                loaded@[k],
                now_ns,
            ),
        forall|k: int|
            0 <= k < loaded@.len() ==> #[trigger] taken_from(store, loaded@[k], now_ns),
        forall|j: int, k: int|
            0 <= j < k < loaded@.len() ==> (
            #[trigger] loaded@[j]).completion.reservation.sequence <= (
            #[trigger] loaded@[k]).completion.reservation.sequence,
{
    law_recovery_is_in_turn(store);
    let order = cut_order(store);
    let picks = recovering_cuts(store);
    assert forall|k: int| 0 <= k < loaded@.len() implies #[trigger] taken_from(
        store,
        loaded@[k],
        now_ns,
    ) && cut_as_stored(store, store.operations@[order[k]], loaded@[k], now_ns) by {
        assert(order.contains(order[k]));
        lemma_cut(store, store.operations@[order[k]], loaded@[k], now_ns);
        assert(cut_as_stored(store, store.operations@[order[k]], loaded@[k], now_ns));
    }
    assert forall|j: int, k: int| 0 <= j < k < loaded@.len() implies (
    #[trigger] loaded@[j]).completion.reservation.sequence <= (
    #[trigger] loaded@[k]).completion.reservation.sequence by {
        assert(taken_from(store, loaded@[j], now_ns));
        assert(taken_from(store, loaded@[k], now_ns));
        assert(cut_as_stored(store, store.operations@[order[j]], loaded@[j], now_ns));
        assert(cut_as_stored(store, store.operations@[order[k]], loaded@[k], now_ns));
        let left = store.operations@[order[j]];
        let right = store.operations@[order[k]];
        assert(!crate::service::recover::cut_earlier()(right, left));
    }
    if 0 <= i < store.operations@.len() && picks(store.operations@[i]) {
        assert(order.contains(i));
        let k = choose|k: int| 0 <= k < order.len() && order[k] == i;
        assert(taken_from(store, loaded@[k], now_ns));
        assert(cut_as_stored(store, store.operations@[i], loaded@[k], now_ns));
    }
}

/// Whether the cut is one that began, as the store holds it.
pub open spec fn taken_from(store: Store, cut: RecoveringCut, now_ns: i64) -> bool {
    exists|i: int|
        0 <= i < store.operations@.len() && store.operations@[i].kind == OperationKind::Cut
            && store.operations@[i].state != OperationState::Planned && store.operations@[i].state
            != OperationState::Done && store.operations@[i].state != OperationState::Failed
            && #[trigger] cut_as_stored(store, store.operations@[i], cut, now_ns)
}

/// Whether the new watch is taken up as the store holds it.
pub open spec fn watch_as_stored(
    store: Store,
    operation: Operation,
    opened: RecoveringInitialize,
) -> bool {
    let reservation = opened.reservation;
    let watch = row(store.watches@, operation.watch_id)->0;
    &&& reservation.operation_id@ == operation.id@
    &&& reservation.filesystem_id == operation.filesystem_id
    &&& reservation.watch_id@ == operation.watch_id@
    &&& reservation.grant_id@ == operation.authorization_id@
    &&& reservation.clock_epoch@ == watch.clock_epoch@
    &&& reservation.operation_fence == operation.lease_fence
    &&& operation.lease_owner matches Some(owner)
    &&& opened.lease_owner@ == owner@
    &&& opened.reserved_path@ == operation.reserved_path@
    &&& opened.live_path@ == watch.live_path@
    &&& if operation.state == OperationState::FsStarted {
        opened.recorded is None
    } else {
        recorded_as_stored(store, operation, opened.recorded)
    }
}

/// Every watch whose initialization began is taken up as the store holds it.
pub proof fn law_begun_watches_are_taken_up(
    store: Store,
    loaded: Vec<RecoveringInitialize>,
    i: int,
)
    requires
        loads_initializes(store, Ok(loaded)),
    ensures
        0 <= i < store.operations@.len() && store.operations@[i].kind == OperationKind::Initialize
            && (store.operations@[i].state == OperationState::FsStarted
            || store.operations@[i].state == OperationState::UuidRecorded) && row(
            store.watches@,
            store.operations@[i].watch_id,
        ) is Some && numbered(store.filesystems@, store.operations@[i].filesystem_id) is Some
            ==> exists|k: int|
            0 <= k < loaded@.len() && #[trigger] watch_as_stored(
                store,
                store.operations@[i],
                loaded@[k],
            ),
{
    law_recovery_is_in_turn(store);
    let order = initialize_order(store);
    let picks = recovering_initializes(store);
    if 0 <= i < store.operations@.len() && picks(store.operations@[i]) {
        assert(order.contains(i));
        let k = choose|k: int| 0 <= k < order.len() && order[k] == i;
        let operation = store.operations@[i];
        let opened = loaded@[k];
        lemma_states();
        lemma_discovered(store, operation);
        let written = choose|written: RecoveringInitializeRow| #[trigger]
            writes_initialize(store, operation, written) && initialize_fault(written) is None
                && initialize_is(written, opened);
        assert(initialize_is(written, opened));
        assert(watch_as_stored(store, operation, opened));
    }
}

/// Whether the deletion is taken up as the store holds it.
pub open spec fn deletion_as_stored(
    store: Store,
    operation: DeleteOperation,
    deletion: RecoveringSnapshotDelete,
) -> bool {
    let reservation = deletion.reservation;
    &&& reservation.operation_id@ == operation.id@
    &&& reservation.snapshot_id == operation.snapshot_id
    &&& reservation.filesystem_id == operation.filesystem_id
    &&& reservation.operation_fence == operation.lease_fence
    &&& operation.lease_owner matches Some(owner)
    &&& deletion.lease_owner@ == owner@
    &&& deletion.state@ == if operation.state == DeleteState::FsStarted {
        "fs_started"@
    } else {
        "delete_durable"@
    }
    &&& identity_as_stored(
        reservation.identity,
        numbered(store.snapshots@, operation.snapshot_id)->0,
        numbered(store.filesystems@, operation.filesystem_id)->0.fs_uuid,
    )
}

/// Every deletion that began is taken up as the store holds it.
pub proof fn law_begun_deletions_are_taken_up(
    store: Store,
    loaded: Vec<RecoveringSnapshotDelete>,
    i: int,
)
    requires
        loads_snapshot_deletes(store, Ok(loaded)),
    ensures
        0 <= i < store.delete_operations@.len() && (store.delete_operations@[i].state
            == DeleteState::FsStarted || store.delete_operations@[i].state
            == DeleteState::DeleteDurable) && numbered(
            store.snapshots@,
            store.delete_operations@[i].snapshot_id,
        ) is Some && numbered(store.filesystems@, store.delete_operations@[i].filesystem_id) is Some
            ==> exists|k: int|
            0 <= k < loaded@.len() && #[trigger] deletion_as_stored(
                store,
                store.delete_operations@[i],
                loaded@[k],
            ),
{
    law_recovery_is_in_turn(store);
    let order = delete_order(store);
    let picks = recovering_snapshot_deletes(store);
    if 0 <= i < store.delete_operations@.len() && picks(store.delete_operations@[i]) {
        assert(order.contains(i));
        let k = choose|k: int| 0 <= k < order.len() && order[k] == i;
        let operation = store.delete_operations@[i];
        let deletion = loaded@[k];
        let written = choose|written: RecoveringSnapshotDeleteRow| #[trigger]
            writes_delete(store, operation, written) && delete_fault(written) is None && delete_is(
                written,
                deletion,
            );
        assert(delete_is(written, deletion));
        assert(deletion_as_stored(store, operation, deletion));
    }
}

/// Whether the worktree is taken up as the store holds it.
pub open spec fn clone_as_stored(
    store: Store,
    operation: Operation,
    clone: RecoveringWorktree,
) -> bool {
    let reservation = clone.reservation;
    &&& reservation.operation_id@ == operation.id@
    &&& reservation.filesystem_id == operation.filesystem_id
    &&& operation.base_snapshot_id == Some(reservation.seed_snapshot_id)
    &&& reservation.seed_subvol_uuid@ == operation.source_subvol_uuid@
    &&& reservation.operation_fence == operation.lease_fence
    &&& exists|i: int|
        0 <= i < store.worktrees@.len() && (#[trigger] store.worktrees@[i]).operation_id
            == operation.id && store.worktrees@[i].id@ == reservation.worktree_id@
            && store.worktrees@[i].seed_revision_id == reservation.seed_revision_id
    &&& operation.lease_owner matches Some(owner)
    &&& clone.lease_owner@ == owner@
    &&& clone.staged_path@ == operation.reserved_path@
    &&& clone.requester_uid == operation.requester_uid
    &&& clone.discovered_uuid is Some <==> operation.discovered_uuid is Some
    &&& clone.discovered_uuid is Some ==> clone.discovered_uuid->0@
        == operation.discovered_uuid->0@
    &&& operation.destination matches Some(destination)
    &&& clone.destination_parent_ino == destination.parent_ino
    &&& clone.destination_parent_generation == destination.parent_generation
    &&& clone.destination_name@ == destination.name@
    &&& clone.reservation_name@ == destination.reservation_name@
    &&& clone.reservation_ino == destination.reservation_ino
    &&& clone.reservation_generation == destination.reservation_generation
    &&& clone.reservation_nonce@ == destination.reservation_nonce@
    &&& row(store.policies@, destination.policy_id) matches Some(policy)
    &&& reservation.policy_hash@ == policy.policy_hash@
    &&& clone.destination_root_path@ == policy.destination_root_path@
    &&& clone.destination_root_uuid@ == policy.destination_root_subvol_uuid@
    &&& clone.destination_root_generation == policy.destination_root_generation
}

/// Every worktree that began is taken up as the store holds it.
pub proof fn law_begun_worktrees_are_taken_up(
    store: Store,
    loaded: Vec<RecoveringWorktree>,
    i: int,
)
    requires
        loads_worktrees(store, Ok(loaded)),
    ensures
        0 <= i < store.operations@.len() && store.operations@[i].kind == OperationKind::Worktree
            && (store.operations@[i].state == OperationState::FsStarted
            || store.operations@[i].state == OperationState::AwaitingDestination) && (exists|j: int|
            0 <= j < store.worktrees@.len() && (#[trigger] store.worktrees@[j]).operation_id
                == store.operations@[i].id) && (
        store.operations@[i].destination matches Some(destination) && row(
            store.policies@,
            destination.policy_id,
        ) is Some) ==> exists|k: int|
            0 <= k < loaded@.len() && #[trigger] clone_as_stored(
                store,
                store.operations@[i],
                loaded@[k],
            ),
{
    law_recovery_is_in_turn(store);
    let order = worktree_order(store);
    let picks = recovering_worktrees(store);
    if 0 <= i < store.operations@.len() && (exists|j: int|
        0 <= j < store.worktrees@.len() && (#[trigger] store.worktrees@[j]).operation_id
            == store.operations@[i].id) {
        let operation = store.operations@[i];
        let made = made_by(operation.id);
        let j = choose|j: int|
            0 <= j < store.worktrees@.len() && (#[trigger] store.worktrees@[j]).operation_id
                == operation.id;
        assert(made(store.worktrees@[j]));
        if picks(operation) {
            assert(order.contains(i));
            let k = choose|k: int| 0 <= k < order.len() && order[k] == i;
            let clone = loaded@[k];
            let written = choose|written: RecoveringWorktreeRow| #[trigger]
                writes_worktree(store, operation, written) && worktree_fault(written) is None
                    && worktree_is(written, clone);
            lemma_first(store.worktrees@, made, 0);
            let at = first(store.worktrees@, made)->0;
            assert(store.worktrees@[at].operation_id == operation.id);
            assert(clone_as_stored(store, operation, clone));
        }
    }
}

} // verus!
