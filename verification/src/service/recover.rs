//! Finding what an earlier process had begun.

use crate::manager::rows::{
    DeleteOperation, DeleteState, Operation, OperationKind, OperationState, Snapshot, Store,
    Worktree,
};
use crate::manager::table::{
    arrange, arranged, find, find_first, find_number, first, in_turn, law_arranged_in_order,
    numbered, orders, places, row, some, turn,
};
use crate::ordered::{bytes_less, bytes_precede, law_bytes_order};
use crate::service::config::ServiceError;
use crate::service::decode::{
    cut_fault, cut_is, decode_recovering_cut, decode_recovering_initialize,
    decode_recovering_snapshot_delete, decode_recovering_worktree, delete_fault, delete_is,
    initialize_fault, initialize_is, worktree_fault, worktree_is, IdentityRow, RecoveringCut,
    RecoveringCutRow, RecoveringInitialize, RecoveringInitializeRow, RecoveringSnapshotDelete,
    RecoveringSnapshotDeleteRow, RecoveringWorktree, RecoveringWorktreeRow,
};
use crate::text::{copy_bytes, in_context, same_array};
use vstd::prelude::*;

verus! {

/// How the state of an operation is written.
pub open spec fn state_text(state: OperationState) -> Seq<char> {
    match state {
        OperationState::Planned => "planned"@,
        OperationState::FsStarted => "fs_started"@,
        OperationState::UuidRecorded => "uuid_recorded"@,
        OperationState::ManifestReady => "manifest_ready"@,
        OperationState::AwaitingDestination => "awaiting_destination"@,
        OperationState::Done => "done"@,
        OperationState::Failed => "failed"@,
    }
}

/// How the state of a deletion is written.
pub open spec fn delete_state_text(state: DeleteState) -> Seq<char> {
    match state {
        DeleteState::Planned => "planned"@,
        DeleteState::FsStarted => "fs_started"@,
        DeleteState::FsDeleted => "fs_deleted"@,
        DeleteState::DeleteDurable => "delete_durable"@,
        DeleteState::Done => "done"@,
        DeleteState::Failed => "failed"@,
    }
}

fn write_state(state: OperationState) -> (text: String)
    ensures
        text@ == state_text(state),
{
    let text: &str = match state {
        OperationState::Planned => "planned",
        OperationState::FsStarted => "fs_started",
        OperationState::UuidRecorded => "uuid_recorded",
        OperationState::ManifestReady => "manifest_ready",
        OperationState::AwaitingDestination => "awaiting_destination",
        OperationState::Done => "done",
        OperationState::Failed => "failed",
    };
    text.to_owned()
}

fn write_delete_state(state: DeleteState) -> (text: String)
    ensures
        text@ == delete_state_text(state),
{
    let text: &str = match state {
        DeleteState::Planned => "planned",
        DeleteState::FsStarted => "fs_started",
        DeleteState::FsDeleted => "fs_deleted",
        DeleteState::DeleteDurable => "delete_durable",
        DeleteState::Done => "done",
        DeleteState::Failed => "failed",
    };
    text.to_owned()
}

/// The snapshot of a filesystem that is the subvolume.
pub open spec fn is_subvolume(filesystem_id: i64, subvol_uuid: [u8; 16]) -> spec_fn(
    Snapshot,
) -> bool {
    |snapshot: Snapshot|
        snapshot.filesystem_id == filesystem_id && snapshot.subvol_uuid == subvol_uuid
}

/// The snapshot that an operation discovered.
pub open spec fn discovered(store: Store, operation: Operation) -> Option<Snapshot> {
    match operation.discovered_uuid {
        Some(uuid) => match first(
            store.snapshots@,
            is_subvolume(operation.filesystem_id, uuid),
        ) {
            Some(at) => Some(store.snapshots@[at]),
            None => None,
        },
        None => None,
    }
}

fn find_discovered(store: &Store, operation: &Operation) -> (at: Option<usize>)
    ensures
        match at {
            Some(at) => at < store.snapshots@.len() && discovered(*store, *operation) == Some(
                store.snapshots@[at as int],
            ),
            None => discovered(*store, *operation) is None,
        },
{
    let filesystem_id: i64 = operation.filesystem_id;
    match operation.discovered_uuid {
        Some(uuid) => {
            let test = |snapshot: &Snapshot| -> (picked: bool)
                ensures
                    picked == is_subvolume(filesystem_id, uuid)(*snapshot),
                {
                    snapshot.filesystem_id == filesystem_id && same_array(
                        &snapshot.subvol_uuid,
                        &uuid,
                    )
                };
            find_first(&store.snapshots, test, Ghost(is_subvolume(filesystem_id, uuid)))
        },
        None => None,
    }
}

/// Whether an identifier is written as the bytes.
pub open spec fn writes_id(id: Option<[u8; 16]>, bytes: Option<Vec<u8>>) -> bool {
    match (id, bytes) {
        (Some(id), Some(bytes)) => bytes@ == id@,
        (None, None) => true,
        _ => false,
    }
}

fn write_id(id: &Option<[u8; 16]>) -> (bytes: Option<Vec<u8>>)
    ensures
        writes_id(*id, bytes),
{
    match id {
        Some(id) => Some(copy_bytes(id)),
        None => None,
    }
}

/// Whether the row holds the identity of the snapshot, where there is one.
pub open spec fn writes_identity(
    fs_uuid: [u8; 16],
    snapshot: Option<Snapshot>,
    identity: IdentityRow,
) -> bool {
    &&& writes_id(Some(fs_uuid), identity.fs_uuid)
    &&& match snapshot {
        Some(snapshot) => {
            &&& writes_id(Some(snapshot.subvol_uuid), identity.subvol_uuid)
            &&& writes_id(snapshot.parent_uuid, identity.parent_uuid)
            &&& writes_id(snapshot.received_uuid, identity.received_uuid)
            &&& identity.root_id == Some(Ok::<u64, String>(snapshot.root_id))
            &&& identity.ctransid == Some(Ok::<u64, String>(snapshot.ctransid))
            &&& identity.otransid == Some(Ok::<u64, String>(snapshot.otransid))
            &&& identity.snapshot_path matches Some(path)
            &&& path@ == snapshot.path@
            &&& identity.readonly == Some(
                if snapshot.readonly {
                    1i64
                } else {
                    0i64
                },
            )
            &&& identity.created_ns == Some(snapshot.created_ns)
        },
        None => {
            &&& identity.subvol_uuid is None
            &&& identity.parent_uuid is None
            &&& identity.received_uuid is None
            &&& identity.root_id is None
            &&& identity.ctransid is None
            &&& identity.otransid is None
            &&& identity.snapshot_path is None
            &&& identity.readonly is None
            &&& identity.created_ns is None
        },
    }
}

fn write_identity(fs_uuid: &[u8; 16], snapshot: Option<&Snapshot>) -> (identity: IdentityRow)
    ensures
        writes_identity(
            *fs_uuid,
            match snapshot {
                Some(snapshot) => Some(*snapshot),
                None => None,
            },
            identity,
        ),
{
    match snapshot {
        Some(snapshot) => IdentityRow {
            fs_uuid: Some(copy_bytes(fs_uuid)),
            subvol_uuid: Some(copy_bytes(&snapshot.subvol_uuid)),
            parent_uuid: write_id(&snapshot.parent_uuid),
            received_uuid: write_id(&snapshot.received_uuid),
            root_id: Some(Ok(snapshot.root_id)),
            ctransid: Some(Ok(snapshot.ctransid)),
            otransid: Some(Ok(snapshot.otransid)),
            snapshot_path: Some(copy_bytes(&snapshot.path)),
            readonly: Some(
                if snapshot.readonly {
                    1
                } else {
                    0
                },
            ),
            created_ns: Some(snapshot.created_ns),
        },
        None => IdentityRow {
            fs_uuid: Some(copy_bytes(fs_uuid)),
            subvol_uuid: None,
            parent_uuid: None,
            received_uuid: None,
            root_id: None,
            ctransid: None,
            otransid: None,
            snapshot_path: None,
            readonly: None,
            created_ns: None,
        },
    }
}

/// Whether an operation was touched earlier than another.
pub open spec fn touched_earlier() -> spec_fn(Operation, Operation) -> bool {
    |left: Operation, right: Operation|
        left.updated_ns < right.updated_ns || (left.updated_ns == right.updated_ns && bytes_less(
            left.id@,
            right.id@,
        ))
}

/// Whether an operation has an earlier sequence than another.
pub open spec fn cut_earlier() -> spec_fn(Operation, Operation) -> bool {
    |left: Operation, right: Operation|
        match (left.sequence, right.sequence) {
            (None, Some(_)) => true,
            (Some(_), None) => false,
            (None, None) => bytes_less(left.id@, right.id@),
            (Some(a), Some(b)) => a < b || (a == b && bytes_less(left.id@, right.id@)),
        }
}

/// Whether a deletion was touched earlier than another.
pub open spec fn delete_earlier() -> spec_fn(DeleteOperation, DeleteOperation) -> bool {
    |left: DeleteOperation, right: DeleteOperation|
        left.updated_ns < right.updated_ns || (left.updated_ns == right.updated_ns && bytes_less(
            left.id@,
            right.id@,
        ))
}

/// What is missing in the first incomplete row from the `at`-th on.
pub open spec fn missing_from<T>(
    rows: Seq<T>,
    order: Seq<int>,
    missing: spec_fn(T) -> Option<Seq<char>>,
    at: int,
) -> Option<Seq<char>>
    decreases order.len() - at,
{
    if at < 0 || at >= order.len() {
        None
    } else if missing(rows[order[at]]) is Some {
        missing(rows[order[at]])
    } else {
        missing_from(rows, order, missing, at + 1)
    }
}

fn less_touched(left: &Operation, right: &Operation) -> (less: bool)
    ensures
        less == touched_earlier()(*left, *right),
{
    left.updated_ns < right.updated_ns || (left.updated_ns == right.updated_ns && bytes_precede(
        &left.id,
        &right.id,
    ))
}

fn less_cut(left: &Operation, right: &Operation) -> (less: bool)
    ensures
        less == cut_earlier()(*left, *right),
{
    match (left.sequence, right.sequence) {
        (None, Some(_)) => true,
        (Some(_), None) => false,
        (None, None) => bytes_precede(&left.id, &right.id),
        (Some(a), Some(b)) => a < b || (a == b && bytes_precede(&left.id, &right.id)),
    }
}

fn less_delete(left: &DeleteOperation, right: &DeleteOperation) -> (less: bool)
    ensures
        less == delete_earlier()(*left, *right),
{
    left.updated_ns < right.updated_ns || (left.updated_ns == right.updated_ns && bytes_precede(
        &left.id,
        &right.id,
    ))
}

/// The worktree that the operation makes.
pub open spec fn made_by(operation_id: [u8; 16]) -> spec_fn(Worktree) -> bool {
    |worktree: Worktree| worktree.operation_id == operation_id
}

fn find_made_by(worktrees: &Vec<Worktree>, operation_id: &[u8; 16]) -> (at: Option<usize>)
    ensures
        match at {
            Some(at) => first(worktrees@, made_by(*operation_id)) == Some(at as int) && at
                < worktrees@.len() && some(worktrees@, made_by(*operation_id)),
            None => !some(worktrees@, made_by(*operation_id)),
        },
{
    let test = |worktree: &Worktree| -> (picked: bool)
        ensures
            picked == made_by(*operation_id)(*worktree),
        { same_array(&worktree.operation_id, operation_id) };
    find_first(worktrees, test, Ghost(made_by(*operation_id)))
}

fn has_policy(store: &Store, operation: &Operation) -> (found: bool)
    ensures
        found == (operation.destination matches Some(destination) && row(
            store.policies@,
            destination.policy_id,
        ) is Some),
{
    match &operation.destination {
        Some(destination) => find(&store.policies, &destination.policy_id).is_some(),
        None => false,
    }
}

/// The initializations whose effect began.
pub open spec fn recovering_initializes(store: Store) -> spec_fn(Operation) -> bool {
    |operation: Operation|
        operation.kind == OperationKind::Initialize && (operation.state
            == OperationState::FsStarted || operation.state == OperationState::UuidRecorded)
            && row(store.watches@, operation.watch_id) is Some && numbered(
            store.filesystems@,
            operation.filesystem_id,
        ) is Some
}

/// What is missing in the row.
pub open spec fn initialize_missing() -> spec_fn(Operation) -> Option<Seq<char>> {
    |operation: Operation|
        if operation.lease_owner is None {
            Some(
                in_context(
                    "decode initialize recovery"@,
                    "Invalid column type Null at index: 5, name: lease_owner"@,
                ),
            )
        } else {
            None
        }
}

fn find_initialize_missing(operation: &Operation) -> (missing: Option<ServiceError>)
    ensures
        match missing {
            Some(error) => initialize_missing()(*operation) == Some(error@),
            None => initialize_missing()(*operation) is None,
        },
{
    if operation.lease_owner.is_none() {
        return Some(
            ServiceError::context(
                "decode initialize recovery",
                "Invalid column type Null at index: 5, name: lease_owner",
            ),
        );
    }
    None
}

/// Whether the row is what the store holds of the operation.
pub open spec fn writes_initialize(
    store: Store,
    operation: Operation,
    written: RecoveringInitializeRow,
) -> bool {
    let watch = row(store.watches@, operation.watch_id)->0;
    let filesystem = numbered(store.filesystems@, operation.filesystem_id)->0;
    let snapshot = discovered(store, operation);
    &&& written.operation_id@ == operation.id@
    &&& written.filesystem_id == operation.filesystem_id
    &&& written.watch_id@ == operation.watch_id@
    &&& written.authorization_id@ == operation.authorization_id@
    &&& written.clock_epoch@ == watch.clock_epoch@
    &&& operation.lease_owner matches Some(owner)
    &&& written.lease_owner@ == owner@
    &&& written.operation_fence == operation.lease_fence
    &&& written.reserved_path@ == operation.reserved_path@
    &&& written.live_path@ == watch.live_path@
    &&& written.state@ == state_text(operation.state)
    &&& written.snapshot_id == match snapshot {
        Some(snapshot) => Some(snapshot.id),
        None => None,
    }
    &&& writes_identity(filesystem.fs_uuid, snapshot, written.identity)
}

fn write_initialize(store: &Store, operation: &Operation) -> (written: Option<
    RecoveringInitializeRow,
>)
    ensures
        match written {
            Some(written) => writes_initialize(*store, *operation, written),
            None => !recovering_initializes(*store)(*operation) || initialize_missing()(*operation) is Some,
        },
{
    let watch_at: usize = find(&store.watches, &operation.watch_id)?;
    let filesystem_at: usize = find_number(&store.filesystems, operation.filesystem_id)?;
    let owner: [u8; 16] = operation.lease_owner?;
    let watch = &store.watches[watch_at];
    let fs_uuid: [u8; 16] = store.filesystems[filesystem_at].fs_uuid;
    let (snapshot_id, identity): (Option<i64>, IdentityRow) = match find_discovered(
        store,
        operation,
    ) {
        Some(at) => (
            Some(store.snapshots[at].id),
            write_identity(&fs_uuid, Some(&store.snapshots[at])),
        ),
        None => (None, write_identity(&fs_uuid, None)),
    };
    Some(
        RecoveringInitializeRow {
            operation_id: copy_bytes(&operation.id),
            filesystem_id: operation.filesystem_id,
            watch_id: copy_bytes(&operation.watch_id),
            authorization_id: copy_bytes(&operation.authorization_id),
            clock_epoch: copy_bytes(&watch.clock_epoch),
            lease_owner: copy_bytes(&owner),
            operation_fence: operation.lease_fence,
            reserved_path: copy_bytes(&operation.reserved_path),
            live_path: copy_bytes(&watch.live_path),
            state: write_state(operation.state),
            snapshot_id,
            identity,
        },
    )
}

/// The order in which they are taken up.
pub open spec fn initialize_order(store: Store) -> Seq<int> {
    arranged(
        store.operations@,
        recovering_initializes(store),
        touched_earlier(),
        store.operations@.len() as int,
    )
}

/// Whether the operation reads back as `read`.
pub open spec fn reads_initialize(
    store: Store,
    operation: Operation,
    read: Result<RecoveringInitialize, Seq<char>>,
) -> bool {
    exists|written: RecoveringInitializeRow| #[trigger]
        writes_initialize(store, operation, written) && match read {
            Ok(operation) => initialize_fault(written) is None && initialize_is(written, operation),
            Err(fault) => initialize_fault(written) == Some(fault),
        }
}

/// Whether the `i`-th can be read.
pub open spec fn initialize_readable(store: Store, i: int) -> bool {
    exists|operation: RecoveringInitialize| #[trigger]
        reads_initialize(
            store,
            store.operations@[initialize_order(store)[i]],
            Ok::<RecoveringInitialize, Seq<char>>(operation),
        )
}

/// Whether the `i`-th is the first that cannot be read, and why.
pub open spec fn stops_at_initialize(store: Store, i: int, fault: Seq<char>) -> bool {
    let order = initialize_order(store);
    let rows = store.operations@;
    &&& 0 <= i < order.len()
    &&& reads_initialize(
        store,
        rows[order[i]],
        Err::<RecoveringInitialize, Seq<char>>(fault),
    )
    &&& forall|j: int| 0 <= j < i ==> #[trigger] initialize_readable(store, j)
}

/// What loading them gives: all of them, or why the first faulty one cannot be
/// read.
pub open spec fn loads_initializes(
    store: Store,
    loaded: Result<Vec<RecoveringInitialize>, ServiceError>,
) -> bool {
    let order = initialize_order(store);
    let rows = store.operations@;
    match missing_from(rows, order, initialize_missing(), 0) {
        Some(fault) => {
            &&& loaded matches Err(error)
            &&& error@ == fault
        },
        None => match loaded {
            Ok(operations) => {
                &&& operations@.len() == order.len()
                &&& forall|i: int|
                    0 <= i < order.len() ==> reads_initialize(
                        store,
                        rows[order[i]],
                        Ok::<RecoveringInitialize, Seq<char>>(#[trigger] operations@[i]),
                    )
            },
            Err(error) => exists|i: int| #[trigger] stops_at_initialize(store, i, error@),
        },
    }
}

/// The initializations whose effect began.
pub fn load_recovering_initializes(store: &Store) -> (loaded: Result<
    Vec<RecoveringInitialize>,
    ServiceError,
>)
    ensures
        loads_initializes(*store, loaded),
{
    let test = |operation: &Operation| -> (picked: bool)
        ensures
            picked == recovering_initializes(*store)(*operation),
        {
            operation.kind == OperationKind::Initialize && (operation.state
                    == OperationState::FsStarted || operation.state
                    == OperationState::UuidRecorded) && find(
                    &store.watches,
                    &operation.watch_id,
                ).is_some() && find_number(&store.filesystems, operation.filesystem_id).is_some()
        };
    let less = |left: &Operation, right: &Operation| -> (found: bool)
        ensures
            found == touched_earlier()(*left, *right),
        { less_touched(left, right) };
    let order = arrange(
        &store.operations,
        test,
        Ghost(recovering_initializes(*store)),
        less,
        Ghost(touched_earlier()),
    );
    let ghost chosen = initialize_order(*store);
    let ghost rows = store.operations@;
    assert(places(order@) == chosen);
    assert forall|i: int| 0 <= i < order@.len() implies chosen[i] == #[trigger] order@[i] by {
        assert(places(order@)[i] == order@[i]);
    }
    let mut at: usize = 0;
    while at < order.len()
        invariant
            at <= order@.len(),
            order@.len() == chosen.len(),
            rows == store.operations@,
            chosen == initialize_order(*store),
            forall|i: int| 0 <= i < order@.len() ==> #[trigger] order@[i] < rows.len(),
            forall|i: int| 0 <= i < order@.len() ==> chosen[i] == #[trigger] order@[i],
            missing_from(rows, chosen, initialize_missing(), 0) == missing_from(
                rows,
                chosen,
                initialize_missing(),
                at as int,
            ),
            forall|i: int| 0 <= i < at ==> initialize_missing()(rows[#[trigger] chosen[i]]) is None,
        decreases order.len() - at,
    {
        assert(chosen[at as int] == order@[at as int]);
        match find_initialize_missing(&store.operations[order[at]]) {
            Some(error) => {
                return Err(error);
            },
            None => {},
        }
        at += 1;
    }
    let mut operations: Vec<RecoveringInitialize> = Vec::new();
    let mut at: usize = 0;
    while at < order.len()
        invariant
            at <= order@.len(),
            order@.len() == chosen.len(),
            rows == store.operations@,
            chosen == initialize_order(*store),
            forall|i: int| 0 <= i < order@.len() ==> #[trigger] order@[i] < rows.len(),
            forall|i: int| 0 <= i < order@.len() ==> chosen[i] == #[trigger] order@[i],
            missing_from(rows, chosen, initialize_missing(), 0) is None,
            forall|i: int|
                0 <= i < chosen.len() ==> initialize_missing()(rows[#[trigger] chosen[i]]) is None,
            operations@.len() == at,
            forall|i: int|
                0 <= i < at ==> reads_initialize(
                    *store,
                    rows[chosen[i]],
                    Ok::<RecoveringInitialize, Seq<char>>(#[trigger] operations@[i]),
                ),
            forall|i: int| 0 <= i < at ==> #[trigger] initialize_readable(*store, i),
        decreases order.len() - at,
    {
        let ghost operation = rows[chosen[at as int]];
        proof {
            assert(chosen[at as int] == order@[at as int]);
            lemma_arranged_picked(
                rows,
                recovering_initializes(*store),
                touched_earlier(),
                rows.len() as int,
                at as int,
            );
        }
        match write_initialize(store, &store.operations[order[at]]) {
            None => {
                assert(false);
            },
            Some(written) => {
                let ghost shown = written;
                match decode_recovering_initialize(written) {
                    Ok(decoded) => {
                        assert(writes_initialize(*store, operation, shown));
                        assert(reads_initialize(
                            *store,
                            rows[chosen[at as int]],
                            Ok::<RecoveringInitialize, Seq<char>>(decoded),
                        ));
                        assert(initialize_readable(*store, at as int));
                        operations.push(decoded);
                    },
                    Err(error) => {
                        assert(writes_initialize(*store, operation, shown));
                        assert(reads_initialize(
                            *store,
                            rows[chosen[at as int]],
                            Err::<RecoveringInitialize, Seq<char>>(error@),
                        ));
                        let failed: Result<Vec<RecoveringInitialize>, ServiceError> = Err(error);
                        assert(missing_from(
                            store.operations@,
                            initialize_order(*store),
                            initialize_missing(),
                            0,
                        ) is None);
                        assert(stops_at_initialize(
                            *store,
                            at as int,
                            failed->Err_0@,
                        ));
                        return failed;
                    },
                }
            },
        }
        at += 1;
    }
    Ok(operations)
}

/// The cuts whose effect began.
pub open spec fn recovering_cuts(store: Store) -> spec_fn(Operation) -> bool {
    |operation: Operation|
        operation.kind == OperationKind::Cut && (operation.state == OperationState::FsStarted
            || operation.state == OperationState::UuidRecorded || operation.state
            == OperationState::ManifestReady) && row(store.watches@, operation.watch_id) is Some
            && numbered(store.filesystems@, operation.filesystem_id) is Some
}

/// What is missing in the row.
pub open spec fn cut_missing() -> spec_fn(Operation) -> Option<Seq<char>> {
    |operation: Operation|
        if operation.sequence is None {
            Some(
                in_context(
                    "decode cut recovery"@,
                    "Invalid column type Null at index: 4, name: sequence"@,
                ),
            )
        } else if operation.base_snapshot_id is None {
            Some(
                in_context(
                    "decode cut recovery"@,
                    "Invalid column type Null at index: 5, name: base_snapshot_id"@,
                ),
            )
        } else if operation.lease_owner is None {
            Some(
                in_context(
                    "decode cut recovery"@,
                    "Invalid column type Null at index: 7, name: lease_owner"@,
                ),
            )
        } else {
            None
        }
}

fn find_cut_missing(operation: &Operation) -> (missing: Option<ServiceError>)
    ensures
        match missing {
            Some(error) => cut_missing()(*operation) == Some(error@),
            None => cut_missing()(*operation) is None,
        },
{
    if operation.sequence.is_none() {
        return Some(
            ServiceError::context(
                "decode cut recovery",
                "Invalid column type Null at index: 4, name: sequence",
            ),
        );
    }
    if operation.base_snapshot_id.is_none() {
        return Some(
            ServiceError::context(
                "decode cut recovery",
                "Invalid column type Null at index: 5, name: base_snapshot_id",
            ),
        );
    }
    if operation.lease_owner.is_none() {
        return Some(
            ServiceError::context(
                "decode cut recovery",
                "Invalid column type Null at index: 7, name: lease_owner",
            ),
        );
    }
    None
}

/// Whether the row is what the store holds of the operation.
pub open spec fn writes_cut(
    store: Store,
    operation: Operation,
    written: RecoveringCutRow,
) -> bool {
    let watch = row(store.watches@, operation.watch_id)->0;
    let filesystem = numbered(store.filesystems@, operation.filesystem_id)->0;
    let snapshot = discovered(store, operation);
    &&& written.operation_id@ == operation.id@
    &&& written.filesystem_id == operation.filesystem_id
    &&& written.watch_id@ == operation.watch_id@
    &&& written.authorization_id@ == operation.authorization_id@
    &&& Some(written.sequence) == operation.sequence
    &&& Some(written.base_snapshot_id) == operation.base_snapshot_id
    &&& written.source_subvol_uuid@ == operation.source_subvol_uuid@
    &&& operation.lease_owner matches Some(owner)
    &&& written.lease_owner@ == owner@
    &&& written.operation_fence == operation.lease_fence
    &&& written.cut_fence == watch.cut_fence
    &&& written.reserved_path@ == operation.reserved_path@
    &&& written.live_path@ == watch.live_path@
    &&& written.state@ == state_text(operation.state)
    &&& written.snapshot_id == match snapshot {
        Some(snapshot) => Some(snapshot.id),
        None => None,
    }
    &&& writes_identity(filesystem.fs_uuid, snapshot, written.identity)
}

fn write_cut(store: &Store, operation: &Operation) -> (written: Option<
    RecoveringCutRow,
>)
    ensures
        match written {
            Some(written) => writes_cut(*store, *operation, written),
            None => !recovering_cuts(*store)(*operation) || cut_missing()(*operation) is Some,
        },
{
    let watch_at: usize = find(&store.watches, &operation.watch_id)?;
    let filesystem_at: usize = find_number(&store.filesystems, operation.filesystem_id)?;
    let sequence: i64 = operation.sequence?;
    let base_snapshot_id: i64 = operation.base_snapshot_id?;
    let owner: [u8; 16] = operation.lease_owner?;
    let watch = &store.watches[watch_at];
    let fs_uuid: [u8; 16] = store.filesystems[filesystem_at].fs_uuid;
    let (snapshot_id, identity): (Option<i64>, IdentityRow) = match find_discovered(
        store,
        operation,
    ) {
        Some(at) => (
            Some(store.snapshots[at].id),
            write_identity(&fs_uuid, Some(&store.snapshots[at])),
        ),
        None => (None, write_identity(&fs_uuid, None)),
    };
    Some(
        RecoveringCutRow {
            operation_id: copy_bytes(&operation.id),
            filesystem_id: operation.filesystem_id,
            watch_id: copy_bytes(&operation.watch_id),
            authorization_id: copy_bytes(&operation.authorization_id),
            sequence,
            base_snapshot_id,
            source_subvol_uuid: copy_bytes(&operation.source_subvol_uuid),
            lease_owner: copy_bytes(&owner),
            operation_fence: operation.lease_fence,
            cut_fence: watch.cut_fence,
            reserved_path: copy_bytes(&operation.reserved_path),
            live_path: copy_bytes(&watch.live_path),
            state: write_state(operation.state),
            snapshot_id,
            identity,
        },
    )
}

/// The order in which they are taken up.
pub open spec fn cut_order(store: Store) -> Seq<int> {
    arranged(
        store.operations@,
        recovering_cuts(store),
        cut_earlier(),
        store.operations@.len() as int,
    )
}

/// Whether the operation reads back as `read`.
pub open spec fn reads_cut(
    store: Store,
    operation: Operation,
    now_ns: i64,
    read: Result<RecoveringCut, Seq<char>>,
) -> bool {
    exists|written: RecoveringCutRow| #[trigger]
        writes_cut(store, operation, written) && match read {
            Ok(operation) => cut_fault(written) is None && cut_is(written, operation, now_ns),
            Err(fault) => cut_fault(written) == Some(fault),
        }
}

/// Whether the `i`-th can be read.
pub open spec fn cut_readable(store: Store, now_ns: i64, i: int) -> bool {
    exists|operation: RecoveringCut| #[trigger]
        reads_cut(
            store,
            store.operations@[cut_order(store)[i]],
            now_ns,
            Ok::<RecoveringCut, Seq<char>>(operation),
        )
}

/// Whether the `i`-th is the first that cannot be read, and why.
pub open spec fn stops_at_cut(store: Store, now_ns: i64, i: int, fault: Seq<char>) -> bool {
    let order = cut_order(store);
    let rows = store.operations@;
    &&& 0 <= i < order.len()
    &&& reads_cut(
        store,
        rows[order[i]],
        now_ns,
        Err::<RecoveringCut, Seq<char>>(fault),
    )
    &&& forall|j: int| 0 <= j < i ==> #[trigger] cut_readable(store, now_ns, j)
}

/// What loading them gives: all of them, or why the first faulty one cannot be
/// read.
pub open spec fn loads_cuts(
    store: Store,
    now_ns: i64,
    loaded: Result<Vec<RecoveringCut>, ServiceError>,
) -> bool {
    let order = cut_order(store);
    let rows = store.operations@;
    match missing_from(rows, order, cut_missing(), 0) {
        Some(fault) => {
            &&& loaded matches Err(error)
            &&& error@ == fault
        },
        None => match loaded {
            Ok(operations) => {
                &&& operations@.len() == order.len()
                &&& forall|i: int|
                    0 <= i < order.len() ==> reads_cut(
                        store,
                        rows[order[i]],
                        now_ns,
                        Ok::<RecoveringCut, Seq<char>>(#[trigger] operations@[i]),
                    )
            },
            Err(error) => exists|i: int| #[trigger] stops_at_cut(store, now_ns, i, error@),
        },
    }
}

/// The cuts whose effect began.
pub fn load_recovering_cuts(store: &Store, now_ns: i64) -> (loaded: Result<
    Vec<RecoveringCut>,
    ServiceError,
>)
    ensures
        loads_cuts(*store, now_ns, loaded),
{
    let test = |operation: &Operation| -> (picked: bool)
        ensures
            picked == recovering_cuts(*store)(*operation),
        {
            operation.kind == OperationKind::Cut && (operation.state
                    == OperationState::FsStarted || operation.state
                    == OperationState::UuidRecorded || operation.state
                    == OperationState::ManifestReady) && find(
                    &store.watches,
                    &operation.watch_id,
                ).is_some() && find_number(&store.filesystems, operation.filesystem_id).is_some()
        };
    let less = |left: &Operation, right: &Operation| -> (found: bool)
        ensures
            found == cut_earlier()(*left, *right),
        { less_cut(left, right) };
    let order = arrange(
        &store.operations,
        test,
        Ghost(recovering_cuts(*store)),
        less,
        Ghost(cut_earlier()),
    );
    let ghost chosen = cut_order(*store);
    let ghost rows = store.operations@;
    assert(places(order@) == chosen);
    assert forall|i: int| 0 <= i < order@.len() implies chosen[i] == #[trigger] order@[i] by {
        assert(places(order@)[i] == order@[i]);
    }
    let mut at: usize = 0;
    while at < order.len()
        invariant
            at <= order@.len(),
            order@.len() == chosen.len(),
            rows == store.operations@,
            chosen == cut_order(*store),
            forall|i: int| 0 <= i < order@.len() ==> #[trigger] order@[i] < rows.len(),
            forall|i: int| 0 <= i < order@.len() ==> chosen[i] == #[trigger] order@[i],
            missing_from(rows, chosen, cut_missing(), 0) == missing_from(
                rows,
                chosen,
                cut_missing(),
                at as int,
            ),
            forall|i: int| 0 <= i < at ==> cut_missing()(rows[#[trigger] chosen[i]]) is None,
        decreases order.len() - at,
    {
        assert(chosen[at as int] == order@[at as int]);
        match find_cut_missing(&store.operations[order[at]]) {
            Some(error) => {
                return Err(error);
            },
            None => {},
        }
        at += 1;
    }
    let mut operations: Vec<RecoveringCut> = Vec::new();
    let mut at: usize = 0;
    while at < order.len()
        invariant
            at <= order@.len(),
            order@.len() == chosen.len(),
            rows == store.operations@,
            chosen == cut_order(*store),
            forall|i: int| 0 <= i < order@.len() ==> #[trigger] order@[i] < rows.len(),
            forall|i: int| 0 <= i < order@.len() ==> chosen[i] == #[trigger] order@[i],
            missing_from(rows, chosen, cut_missing(), 0) is None,
            forall|i: int|
                0 <= i < chosen.len() ==> cut_missing()(rows[#[trigger] chosen[i]]) is None,
            operations@.len() == at,
            forall|i: int|
                0 <= i < at ==> reads_cut(
                    *store,
                    rows[chosen[i]],
                    now_ns,
                    Ok::<RecoveringCut, Seq<char>>(#[trigger] operations@[i]),
                ),
            forall|i: int| 0 <= i < at ==> #[trigger] cut_readable(*store, now_ns, i),
        decreases order.len() - at,
    {
        let ghost operation = rows[chosen[at as int]];
        proof {
            assert(chosen[at as int] == order@[at as int]);
            lemma_arranged_picked(
                rows,
                recovering_cuts(*store),
                cut_earlier(),
                rows.len() as int,
                at as int,
            );
        }
        match write_cut(store, &store.operations[order[at]]) {
            None => {
                assert(false);
            },
            Some(written) => {
                let ghost shown = written;
                match decode_recovering_cut(written, now_ns) {
                    Ok(decoded) => {
                        assert(writes_cut(*store, operation, shown));
                        assert(reads_cut(
                            *store,
                            rows[chosen[at as int]],
                            now_ns,
                            Ok::<RecoveringCut, Seq<char>>(decoded),
                        ));
                        assert(cut_readable(*store, now_ns, at as int));
                        operations.push(decoded);
                    },
                    Err(error) => {
                        assert(writes_cut(*store, operation, shown));
                        assert(reads_cut(
                            *store,
                            rows[chosen[at as int]],
                            now_ns,
                            Err::<RecoveringCut, Seq<char>>(error@),
                        ));
                        let failed: Result<Vec<RecoveringCut>, ServiceError> = Err(error);
                        assert(missing_from(
                            store.operations@,
                            cut_order(*store),
                            cut_missing(),
                            0,
                        ) is None);
                        assert(stops_at_cut(
                            *store,
                            now_ns,
                            at as int,
                            failed->Err_0@,
                        ));
                        return failed;
                    },
                }
            },
        }
        at += 1;
    }
    Ok(operations)
}

/// The worktrees whose effect began.
pub open spec fn recovering_worktrees(store: Store) -> spec_fn(Operation) -> bool {
    |operation: Operation|
        operation.kind == OperationKind::Worktree && (operation.state == OperationState::FsStarted
            || operation.state == OperationState::AwaitingDestination) && some(
            store.worktrees@,
            made_by(operation.id),
        ) && (operation.destination matches Some(destination) && row(
            store.policies@,
            destination.policy_id,
        ) is Some)
}

/// What is missing in the row.
pub open spec fn worktree_missing() -> spec_fn(Operation) -> Option<Seq<char>> {
    |operation: Operation|
        if operation.base_snapshot_id is None {
            Some(
                in_context(
                    "decode Worktree recovery"@,
                    "Invalid column type Null at index: 3, name: base_snapshot_id"@,
                ),
            )
        } else if operation.lease_owner is None {
            Some(
                in_context(
                    "decode Worktree recovery"@,
                    "Invalid column type Null at index: 6, name: lease_owner"@,
                ),
            )
        } else {
            None
        }
}

fn find_worktree_missing(operation: &Operation) -> (missing: Option<ServiceError>)
    ensures
        match missing {
            Some(error) => worktree_missing()(*operation) == Some(error@),
            None => worktree_missing()(*operation) is None,
        },
{
    if operation.base_snapshot_id.is_none() {
        return Some(
            ServiceError::context(
                "decode Worktree recovery",
                "Invalid column type Null at index: 3, name: base_snapshot_id",
            ),
        );
    }
    if operation.lease_owner.is_none() {
        return Some(
            ServiceError::context(
                "decode Worktree recovery",
                "Invalid column type Null at index: 6, name: lease_owner",
            ),
        );
    }
    None
}

/// Whether the row is what the store holds of the operation.
pub open spec fn writes_worktree(
    store: Store,
    operation: Operation,
    written: RecoveringWorktreeRow,
) -> bool {
    let worktree = store.worktrees@[first(store.worktrees@, made_by(operation.id))->0];
    &&& operation.destination matches Some(destination)
    &&& row(store.policies@, destination.policy_id) matches Some(policy)
    &&& written.operation_id@ == operation.id@
    &&& written.worktree_id@ == worktree.id@
    &&& written.filesystem_id == operation.filesystem_id
    &&& Some(written.seed_snapshot_id) == operation.base_snapshot_id
    &&& written.seed_revision_id == worktree.seed_revision_id
    &&& written.seed_subvol_uuid@ == operation.source_subvol_uuid@
    &&& operation.lease_owner matches Some(owner)
    &&& written.lease_owner@ == owner@
    &&& written.operation_fence == operation.lease_fence
    &&& written.state@ == state_text(operation.state)
    &&& written.staged_path@ == operation.reserved_path@
    &&& written.destination_root_path@ == policy.destination_root_path@
    &&& written.destination_root_uuid@ == policy.destination_root_subvol_uuid@
    &&& written.destination_root_generation == Ok::<u64, String>(
        policy.destination_root_generation,
    )
    &&& written.destination_parent_ino == Ok::<u64, String>(destination.parent_ino)
    &&& written.destination_parent_generation == Ok::<u64, String>(destination.parent_generation)
    &&& written.destination_name@ == destination.name@
    &&& written.reservation_name@ == destination.reservation_name@
    &&& written.reservation_ino == Ok::<u64, String>(destination.reservation_ino)
    &&& written.reservation_generation == Ok::<u64, String>(destination.reservation_generation)
    &&& written.reservation_nonce@ == destination.reservation_nonce@
    &&& written.requester_uid == operation.requester_uid
    &&& writes_id(operation.discovered_uuid, written.discovered_uuid)
    &&& written.policy_hash@ == policy.policy_hash@
}

fn write_worktree(store: &Store, operation: &Operation) -> (written: Option<
    RecoveringWorktreeRow,
>)
    ensures
        match written {
            Some(written) => writes_worktree(*store, *operation, written),
            None => !recovering_worktrees(*store)(*operation) || worktree_missing()(*operation) is Some,
        },
{
    let worktree_at: usize = find_made_by(&store.worktrees, &operation.id)?;
    let base_snapshot_id: i64 = operation.base_snapshot_id?;
    let owner: [u8; 16] = operation.lease_owner?;
    match &operation.destination {
        None => None,
        Some(destination) => {
            let policy_at: usize = find(&store.policies, &destination.policy_id)?;
            let worktree = &store.worktrees[worktree_at];
            let policy = &store.policies[policy_at];
            Some(
                RecoveringWorktreeRow {
                    operation_id: copy_bytes(&operation.id),
                    worktree_id: copy_bytes(&worktree.id),
                    filesystem_id: operation.filesystem_id,
                    seed_snapshot_id: base_snapshot_id,
                    seed_revision_id: worktree.seed_revision_id,
                    seed_subvol_uuid: copy_bytes(&operation.source_subvol_uuid),
                    lease_owner: copy_bytes(&owner),
                    operation_fence: operation.lease_fence,
                    state: write_state(operation.state),
                    staged_path: copy_bytes(&operation.reserved_path),
                    destination_root_path: copy_bytes(&policy.destination_root_path),
                    destination_root_uuid: copy_bytes(&policy.destination_root_subvol_uuid),
                    destination_root_generation: Ok(policy.destination_root_generation),
                    destination_parent_ino: Ok(destination.parent_ino),
                    destination_parent_generation: Ok(destination.parent_generation),
                    destination_name: copy_bytes(&destination.name),
                    reservation_name: copy_bytes(&destination.reservation_name),
                    reservation_ino: Ok(destination.reservation_ino),
                    reservation_generation: Ok(destination.reservation_generation),
                    reservation_nonce: copy_bytes(&destination.reservation_nonce),
                    requester_uid: operation.requester_uid,
                    discovered_uuid: write_id(&operation.discovered_uuid),
                    policy_hash: copy_bytes(&policy.policy_hash),
                },
            )
        },
    }
}

/// The order in which they are taken up.
pub open spec fn worktree_order(store: Store) -> Seq<int> {
    arranged(
        store.operations@,
        recovering_worktrees(store),
        touched_earlier(),
        store.operations@.len() as int,
    )
}

/// Whether the operation reads back as `read`.
pub open spec fn reads_worktree(
    store: Store,
    operation: Operation,
    read: Result<RecoveringWorktree, Seq<char>>,
) -> bool {
    exists|written: RecoveringWorktreeRow| #[trigger]
        writes_worktree(store, operation, written) && match read {
            Ok(operation) => worktree_fault(written) is None && worktree_is(written, operation),
            Err(fault) => worktree_fault(written) == Some(fault),
        }
}

/// Whether the `i`-th can be read.
pub open spec fn worktree_readable(store: Store, i: int) -> bool {
    exists|operation: RecoveringWorktree| #[trigger]
        reads_worktree(
            store,
            store.operations@[worktree_order(store)[i]],
            Ok::<RecoveringWorktree, Seq<char>>(operation),
        )
}

/// Whether the `i`-th is the first that cannot be read, and why.
pub open spec fn stops_at_worktree(store: Store, i: int, fault: Seq<char>) -> bool {
    let order = worktree_order(store);
    let rows = store.operations@;
    &&& 0 <= i < order.len()
    &&& reads_worktree(
        store,
        rows[order[i]],
        Err::<RecoveringWorktree, Seq<char>>(fault),
    )
    &&& forall|j: int| 0 <= j < i ==> #[trigger] worktree_readable(store, j)
}

/// What loading them gives: all of them, or why the first faulty one cannot be
/// read.
pub open spec fn loads_worktrees(
    store: Store,
    loaded: Result<Vec<RecoveringWorktree>, ServiceError>,
) -> bool {
    let order = worktree_order(store);
    let rows = store.operations@;
    match missing_from(rows, order, worktree_missing(), 0) {
        Some(fault) => {
            &&& loaded matches Err(error)
            &&& error@ == fault
        },
        None => match loaded {
            Ok(operations) => {
                &&& operations@.len() == order.len()
                &&& forall|i: int|
                    0 <= i < order.len() ==> reads_worktree(
                        store,
                        rows[order[i]],
                        Ok::<RecoveringWorktree, Seq<char>>(#[trigger] operations@[i]),
                    )
            },
            Err(error) => exists|i: int| #[trigger] stops_at_worktree(store, i, error@),
        },
    }
}

/// The worktrees whose effect began.
pub fn load_recovering_worktrees(store: &Store) -> (loaded: Result<
    Vec<RecoveringWorktree>,
    ServiceError,
>)
    ensures
        loads_worktrees(*store, loaded),
{
    let test = |operation: &Operation| -> (picked: bool)
        ensures
            picked == recovering_worktrees(*store)(*operation),
        {
            operation.kind == OperationKind::Worktree && (operation.state
                    == OperationState::FsStarted || operation.state
                    == OperationState::AwaitingDestination) && find_made_by(
                    &store.worktrees,
                    &operation.id,
                ).is_some() && has_policy(store, operation)
        };
    let less = |left: &Operation, right: &Operation| -> (found: bool)
        ensures
            found == touched_earlier()(*left, *right),
        { less_touched(left, right) };
    let order = arrange(
        &store.operations,
        test,
        Ghost(recovering_worktrees(*store)),
        less,
        Ghost(touched_earlier()),
    );
    let ghost chosen = worktree_order(*store);
    let ghost rows = store.operations@;
    assert(places(order@) == chosen);
    assert forall|i: int| 0 <= i < order@.len() implies chosen[i] == #[trigger] order@[i] by {
        assert(places(order@)[i] == order@[i]);
    }
    let mut at: usize = 0;
    while at < order.len()
        invariant
            at <= order@.len(),
            order@.len() == chosen.len(),
            rows == store.operations@,
            chosen == worktree_order(*store),
            forall|i: int| 0 <= i < order@.len() ==> #[trigger] order@[i] < rows.len(),
            forall|i: int| 0 <= i < order@.len() ==> chosen[i] == #[trigger] order@[i],
            missing_from(rows, chosen, worktree_missing(), 0) == missing_from(
                rows,
                chosen,
                worktree_missing(),
                at as int,
            ),
            forall|i: int| 0 <= i < at ==> worktree_missing()(rows[#[trigger] chosen[i]]) is None,
        decreases order.len() - at,
    {
        assert(chosen[at as int] == order@[at as int]);
        match find_worktree_missing(&store.operations[order[at]]) {
            Some(error) => {
                return Err(error);
            },
            None => {},
        }
        at += 1;
    }
    let mut operations: Vec<RecoveringWorktree> = Vec::new();
    let mut at: usize = 0;
    while at < order.len()
        invariant
            at <= order@.len(),
            order@.len() == chosen.len(),
            rows == store.operations@,
            chosen == worktree_order(*store),
            forall|i: int| 0 <= i < order@.len() ==> #[trigger] order@[i] < rows.len(),
            forall|i: int| 0 <= i < order@.len() ==> chosen[i] == #[trigger] order@[i],
            missing_from(rows, chosen, worktree_missing(), 0) is None,
            forall|i: int|
                0 <= i < chosen.len() ==> worktree_missing()(rows[#[trigger] chosen[i]]) is None,
            operations@.len() == at,
            forall|i: int|
                0 <= i < at ==> reads_worktree(
                    *store,
                    rows[chosen[i]],
                    Ok::<RecoveringWorktree, Seq<char>>(#[trigger] operations@[i]),
                ),
            forall|i: int| 0 <= i < at ==> #[trigger] worktree_readable(*store, i),
        decreases order.len() - at,
    {
        let ghost operation = rows[chosen[at as int]];
        proof {
            assert(chosen[at as int] == order@[at as int]);
            lemma_arranged_picked(
                rows,
                recovering_worktrees(*store),
                touched_earlier(),
                rows.len() as int,
                at as int,
            );
        }
        match write_worktree(store, &store.operations[order[at]]) {
            None => {
                assert(false);
            },
            Some(written) => {
                let ghost shown = written;
                match decode_recovering_worktree(written) {
                    Ok(decoded) => {
                        assert(writes_worktree(*store, operation, shown));
                        assert(reads_worktree(
                            *store,
                            rows[chosen[at as int]],
                            Ok::<RecoveringWorktree, Seq<char>>(decoded),
                        ));
                        assert(worktree_readable(*store, at as int));
                        operations.push(decoded);
                    },
                    Err(error) => {
                        assert(writes_worktree(*store, operation, shown));
                        assert(reads_worktree(
                            *store,
                            rows[chosen[at as int]],
                            Err::<RecoveringWorktree, Seq<char>>(error@),
                        ));
                        let failed: Result<Vec<RecoveringWorktree>, ServiceError> = Err(error);
                        assert(missing_from(
                            store.operations@,
                            worktree_order(*store),
                            worktree_missing(),
                            0,
                        ) is None);
                        assert(stops_at_worktree(
                            *store,
                            at as int,
                            failed->Err_0@,
                        ));
                        return failed;
                    },
                }
            },
        }
        at += 1;
    }
    Ok(operations)
}

/// The deletions that began.
pub open spec fn recovering_snapshot_deletes(store: Store) -> spec_fn(DeleteOperation) -> bool {
    |operation: DeleteOperation|
        (operation.state == DeleteState::FsStarted || operation.state == DeleteState::DeleteDurable)
            && numbered(store.snapshots@, operation.snapshot_id) is Some && numbered(
            store.filesystems@,
            operation.filesystem_id,
        ) is Some
}

/// What is missing in the row.
pub open spec fn delete_missing() -> spec_fn(DeleteOperation) -> Option<Seq<char>> {
    |operation: DeleteOperation|
        if operation.lease_owner is None {
            Some(
                in_context(
                    "decode snapshot-delete recovery"@,
                    "Invalid column type Null at index: 3, name: lease_owner"@,
                ),
            )
        } else {
            None
        }
}

fn find_delete_missing(operation: &DeleteOperation) -> (missing: Option<ServiceError>)
    ensures
        match missing {
            Some(error) => delete_missing()(*operation) == Some(error@),
            None => delete_missing()(*operation) is None,
        },
{
    if operation.lease_owner.is_none() {
        return Some(
            ServiceError::context(
                "decode snapshot-delete recovery",
                "Invalid column type Null at index: 3, name: lease_owner",
            ),
        );
    }
    None
}

/// Whether the row is what the store holds of the operation.
pub open spec fn writes_delete(
    store: Store,
    operation: DeleteOperation,
    written: RecoveringSnapshotDeleteRow,
) -> bool {
    let snapshot = numbered(store.snapshots@, operation.snapshot_id)->0;
    let filesystem = numbered(store.filesystems@, operation.filesystem_id)->0;
    &&& written.operation_id@ == operation.id@
    &&& written.snapshot_id == operation.snapshot_id
    &&& written.filesystem_id == operation.filesystem_id
    &&& operation.lease_owner matches Some(owner)
    &&& written.lease_owner@ == owner@
    &&& written.operation_fence == operation.lease_fence
    &&& written.state@ == delete_state_text(operation.state)
    &&& writes_identity(filesystem.fs_uuid, Some(snapshot), written.identity)
}

fn write_delete(store: &Store, operation: &DeleteOperation) -> (written: Option<
    RecoveringSnapshotDeleteRow,
>)
    ensures
        match written {
            Some(written) => writes_delete(*store, *operation, written),
            None => !recovering_snapshot_deletes(*store)(*operation) || delete_missing()(*operation) is Some,
        },
{
    let snapshot_at: usize = find_number(&store.snapshots, operation.snapshot_id)?;
    let filesystem_at: usize = find_number(&store.filesystems, operation.filesystem_id)?;
    let owner: [u8; 16] = operation.lease_owner?;
    let fs_uuid: [u8; 16] = store.filesystems[filesystem_at].fs_uuid;
    Some(
        RecoveringSnapshotDeleteRow {
            operation_id: copy_bytes(&operation.id),
            snapshot_id: operation.snapshot_id,
            filesystem_id: operation.filesystem_id,
            lease_owner: copy_bytes(&owner),
            operation_fence: operation.lease_fence,
            state: write_delete_state(operation.state),
            identity: write_identity(&fs_uuid, Some(&store.snapshots[snapshot_at])),
        },
    )
}

/// The order in which they are taken up.
pub open spec fn delete_order(store: Store) -> Seq<int> {
    arranged(
        store.delete_operations@,
        recovering_snapshot_deletes(store),
        delete_earlier(),
        store.delete_operations@.len() as int,
    )
}

/// Whether the operation reads back as `read`.
pub open spec fn reads_delete(
    store: Store,
    operation: DeleteOperation,
    read: Result<RecoveringSnapshotDelete, Seq<char>>,
) -> bool {
    exists|written: RecoveringSnapshotDeleteRow| #[trigger]
        writes_delete(store, operation, written) && match read {
            Ok(operation) => delete_fault(written) is None && delete_is(written, operation),
            Err(fault) => delete_fault(written) == Some(fault),
        }
}

/// Whether the `i`-th can be read.
pub open spec fn delete_readable(store: Store, i: int) -> bool {
    exists|operation: RecoveringSnapshotDelete| #[trigger]
        reads_delete(
            store,
            store.delete_operations@[delete_order(store)[i]],
            Ok::<RecoveringSnapshotDelete, Seq<char>>(operation),
        )
}

/// Whether the `i`-th is the first that cannot be read, and why.
pub open spec fn stops_at_delete(store: Store, i: int, fault: Seq<char>) -> bool {
    let order = delete_order(store);
    let rows = store.delete_operations@;
    &&& 0 <= i < order.len()
    &&& reads_delete(
        store,
        rows[order[i]],
        Err::<RecoveringSnapshotDelete, Seq<char>>(fault),
    )
    &&& forall|j: int| 0 <= j < i ==> #[trigger] delete_readable(store, j)
}

/// What loading them gives: all of them, or why the first faulty one cannot be
/// read.
pub open spec fn loads_snapshot_deletes(
    store: Store,
    loaded: Result<Vec<RecoveringSnapshotDelete>, ServiceError>,
) -> bool {
    let order = delete_order(store);
    let rows = store.delete_operations@;
    match missing_from(rows, order, delete_missing(), 0) {
        Some(fault) => {
            &&& loaded matches Err(error)
            &&& error@ == fault
        },
        None => match loaded {
            Ok(operations) => {
                &&& operations@.len() == order.len()
                &&& forall|i: int|
                    0 <= i < order.len() ==> reads_delete(
                        store,
                        rows[order[i]],
                        Ok::<RecoveringSnapshotDelete, Seq<char>>(#[trigger] operations@[i]),
                    )
            },
            Err(error) => exists|i: int| #[trigger] stops_at_delete(store, i, error@),
        },
    }
}

/// The deletions that began.
pub fn load_recovering_snapshot_deletes(store: &Store) -> (loaded: Result<
    Vec<RecoveringSnapshotDelete>,
    ServiceError,
>)
    ensures
        loads_snapshot_deletes(*store, loaded),
{
    let test = |operation: &DeleteOperation| -> (picked: bool)
        ensures
            picked == recovering_snapshot_deletes(*store)(*operation),
        {
            (operation.state == DeleteState::FsStarted || operation.state
                    == DeleteState::DeleteDurable) && find_number(
                    &store.snapshots,
                    operation.snapshot_id,
                ).is_some() && find_number(&store.filesystems, operation.filesystem_id).is_some()
        };
    let less = |left: &DeleteOperation, right: &DeleteOperation| -> (found: bool)
        ensures
            found == delete_earlier()(*left, *right),
        { less_delete(left, right) };
    let order = arrange(
        &store.delete_operations,
        test,
        Ghost(recovering_snapshot_deletes(*store)),
        less,
        Ghost(delete_earlier()),
    );
    let ghost chosen = delete_order(*store);
    let ghost rows = store.delete_operations@;
    assert(places(order@) == chosen);
    assert forall|i: int| 0 <= i < order@.len() implies chosen[i] == #[trigger] order@[i] by {
        assert(places(order@)[i] == order@[i]);
    }
    let mut at: usize = 0;
    while at < order.len()
        invariant
            at <= order@.len(),
            order@.len() == chosen.len(),
            rows == store.delete_operations@,
            chosen == delete_order(*store),
            forall|i: int| 0 <= i < order@.len() ==> #[trigger] order@[i] < rows.len(),
            forall|i: int| 0 <= i < order@.len() ==> chosen[i] == #[trigger] order@[i],
            missing_from(rows, chosen, delete_missing(), 0) == missing_from(
                rows,
                chosen,
                delete_missing(),
                at as int,
            ),
            forall|i: int| 0 <= i < at ==> delete_missing()(rows[#[trigger] chosen[i]]) is None,
        decreases order.len() - at,
    {
        assert(chosen[at as int] == order@[at as int]);
        match find_delete_missing(&store.delete_operations[order[at]]) {
            Some(error) => {
                return Err(error);
            },
            None => {},
        }
        at += 1;
    }
    let mut operations: Vec<RecoveringSnapshotDelete> = Vec::new();
    let mut at: usize = 0;
    while at < order.len()
        invariant
            at <= order@.len(),
            order@.len() == chosen.len(),
            rows == store.delete_operations@,
            chosen == delete_order(*store),
            forall|i: int| 0 <= i < order@.len() ==> #[trigger] order@[i] < rows.len(),
            forall|i: int| 0 <= i < order@.len() ==> chosen[i] == #[trigger] order@[i],
            missing_from(rows, chosen, delete_missing(), 0) is None,
            forall|i: int|
                0 <= i < chosen.len() ==> delete_missing()(rows[#[trigger] chosen[i]]) is None,
            operations@.len() == at,
            forall|i: int|
                0 <= i < at ==> reads_delete(
                    *store,
                    rows[chosen[i]],
                    Ok::<RecoveringSnapshotDelete, Seq<char>>(#[trigger] operations@[i]),
                ),
            forall|i: int| 0 <= i < at ==> #[trigger] delete_readable(*store, i),
        decreases order.len() - at,
    {
        let ghost operation = rows[chosen[at as int]];
        proof {
            assert(chosen[at as int] == order@[at as int]);
            lemma_arranged_picked(
                rows,
                recovering_snapshot_deletes(*store),
                delete_earlier(),
                rows.len() as int,
                at as int,
            );
        }
        match write_delete(store, &store.delete_operations[order[at]]) {
            None => {
                assert(false);
            },
            Some(written) => {
                let ghost shown = written;
                match decode_recovering_snapshot_delete(written) {
                    Ok(decoded) => {
                        assert(writes_delete(*store, operation, shown));
                        assert(reads_delete(
                            *store,
                            rows[chosen[at as int]],
                            Ok::<RecoveringSnapshotDelete, Seq<char>>(decoded),
                        ));
                        assert(delete_readable(*store, at as int));
                        operations.push(decoded);
                    },
                    Err(error) => {
                        assert(writes_delete(*store, operation, shown));
                        assert(reads_delete(
                            *store,
                            rows[chosen[at as int]],
                            Err::<RecoveringSnapshotDelete, Seq<char>>(error@),
                        ));
                        let failed: Result<Vec<RecoveringSnapshotDelete>, ServiceError> = Err(error);
                        assert(missing_from(
                            store.delete_operations@,
                            delete_order(*store),
                            delete_missing(),
                            0,
                        ) is None);
                        assert(stops_at_delete(
                            *store,
                            at as int,
                            failed->Err_0@,
                        ));
                        return failed;
                    },
                }
            },
        }
        at += 1;
    }
    Ok(operations)
}

/// Every arranged row is picked.
proof fn lemma_arranged_picked<T>(
    rows: Seq<T>,
    picks: spec_fn(T) -> bool,
    earlier: spec_fn(T, T) -> bool,
    n: int,
    i: int,
)
    requires
        0 <= n <= rows.len(),
        0 <= i < arranged(rows, picks, earlier, n).len(),
    ensures
        0 <= arranged(rows, picks, earlier, n)[i] < n,
        picks(rows[arranged(rows, picks, earlier, n)[i]]),
    decreases n,
{
    if n > 0 {
        let order = arranged(rows, picks, earlier, n - 1);
        if picks(rows[n - 1]) {
            let here = turn(rows, order, earlier, n - 1, 0);
            lemma_turn(rows, order, earlier, n - 1, 0);
            if i < here {
                lemma_arranged_picked(rows, picks, earlier, n - 1, i);
            } else if i > here {
                lemma_arranged_picked(rows, picks, earlier, n - 1, i - 1);
            }
        } else {
            lemma_arranged_picked(rows, picks, earlier, n - 1, i);
        }
    }
}

proof fn lemma_turn<T>(
    rows: Seq<T>,
    order: Seq<int>,
    earlier: spec_fn(T, T) -> bool,
    at: int,
    from: int,
)
    requires
        0 <= from <= order.len(),
    ensures
        from <= turn(rows, order, earlier, at, from) <= order.len(),
    decreases order.len() - from,
{
    if from < order.len() && !earlier(rows[at], rows[order[from]]) {
        lemma_turn(rows, order, earlier, at, from + 1);
    }
}

proof fn lemma_touched_orders()
    ensures
        orders(touched_earlier()),
{
    let earlier = touched_earlier();
    assert forall|a: Operation, b: Operation, c: Operation| #[trigger]
        earlier(a, b) && #[trigger] earlier(b, c) implies earlier(a, c) by {
        law_bytes_order(a.id@, b.id@, c.id@);
    }
    assert forall|a: Operation| !(#[trigger] earlier(a, a)) by {
        law_bytes_order(a.id@, a.id@, a.id@);
    }
}

proof fn lemma_cut_orders()
    ensures
        orders(cut_earlier()),
{
    let earlier = cut_earlier();
    assert forall|a: Operation, b: Operation, c: Operation| #[trigger]
        earlier(a, b) && #[trigger] earlier(b, c) implies earlier(a, c) by {
        law_bytes_order(a.id@, b.id@, c.id@);
    }
    assert forall|a: Operation| !(#[trigger] earlier(a, a)) by {
        law_bytes_order(a.id@, a.id@, a.id@);
    }
}

proof fn lemma_delete_orders()
    ensures
        orders(delete_earlier()),
{
    let earlier = delete_earlier();
    assert forall|a: DeleteOperation, b: DeleteOperation, c: DeleteOperation| #[trigger]
        earlier(a, b) && #[trigger] earlier(b, c) implies earlier(a, c) by {
        law_bytes_order(a.id@, b.id@, c.id@);
    }
    assert forall|a: DeleteOperation| !(#[trigger] earlier(a, a)) by {
        law_bytes_order(a.id@, a.id@, a.id@);
    }
}

/// Whatever an earlier process had begun is taken up once, and in order: cuts
/// by their sequence, all else by when it last changed, and what is level by
/// its identifier.
pub proof fn law_recovery_is_in_turn(store: Store)
    ensures
        in_turn(
            store.operations@,
            recovering_initializes(store),
            touched_earlier(),
            initialize_order(store),
        ),
        in_turn(store.operations@, recovering_cuts(store), cut_earlier(), cut_order(store)),
        in_turn(
            store.operations@,
            recovering_worktrees(store),
            touched_earlier(),
            worktree_order(store),
        ),
        in_turn(
            store.delete_operations@,
            recovering_snapshot_deletes(store),
            delete_earlier(),
            delete_order(store),
        ),
{
    lemma_touched_orders();
    lemma_cut_orders();
    lemma_delete_orders();
    let operations = store.operations@;
    let all = operations.len() as int;
    law_arranged_in_order(operations, recovering_initializes(store), touched_earlier(), all);
    law_arranged_in_order(operations, recovering_cuts(store), cut_earlier(), all);
    law_arranged_in_order(operations, recovering_worktrees(store), touched_earlier(), all);
    law_arranged_in_order(
        store.delete_operations@,
        recovering_snapshot_deletes(store),
        delete_earlier(),
        store.delete_operations@.len() as int,
    );
}

} // verus!
