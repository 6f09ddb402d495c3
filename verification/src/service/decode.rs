//! Reading back what an earlier process had begun, from the rows it left.

use crate::manager::types::{
    blob_length_text, CutReservation, InitializeReservation, RecordedSnapshot,
    SnapshotDeleteReservation, SnapshotIdentity, WorktreeReservation,
};
use crate::service::checks::{fixed_service_blob, ExpectedSubvolume};
use crate::service::config::ServiceError;
use crate::text::{in_context, is_text};
use vstd::prelude::*;

verus! {

/// A stored number, or why it cannot be read.
pub type StoredNumber = Result<u64, String>;

/// The stored identity of a snapshot, as far as there is one.
#[derive(Debug)]
pub struct IdentityRow {
    pub fs_uuid: Option<Vec<u8>>,
    pub subvol_uuid: Option<Vec<u8>>,
    pub parent_uuid: Option<Vec<u8>>,
    pub received_uuid: Option<Vec<u8>>,
    pub root_id: Option<StoredNumber>,
    pub ctransid: Option<StoredNumber>,
    pub otransid: Option<StoredNumber>,
    pub snapshot_path: Option<Vec<u8>>,
    pub readonly: Option<i64>,
    pub created_ns: Option<i64>,
}

#[derive(Debug)]
pub struct RecoveringInitializeRow {
    pub operation_id: Vec<u8>,
    pub filesystem_id: i64,
    pub watch_id: Vec<u8>,
    pub authorization_id: Vec<u8>,
    pub clock_epoch: Vec<u8>,
    pub lease_owner: Vec<u8>,
    pub operation_fence: i64,
    pub reserved_path: Vec<u8>,
    pub live_path: Vec<u8>,
    pub state: String,
    pub snapshot_id: Option<i64>,
    pub identity: IdentityRow,
}

/// An initialization whose effect began.
#[derive(Debug)]
pub struct RecoveringInitialize {
    pub reservation: InitializeReservation,
    pub lease_owner: [u8; 16],
    pub reserved_path: Vec<u8>,
    pub live_path: Vec<u8>,
    pub recorded: Option<RecordedSnapshot>,
}

#[derive(Debug)]
pub struct RecoveringCutRow {
    pub operation_id: Vec<u8>,
    pub filesystem_id: i64,
    pub watch_id: Vec<u8>,
    pub authorization_id: Vec<u8>,
    pub sequence: i64,
    pub base_snapshot_id: i64,
    pub source_subvol_uuid: Vec<u8>,
    pub lease_owner: Vec<u8>,
    pub operation_fence: i64,
    pub cut_fence: i64,
    pub reserved_path: Vec<u8>,
    pub live_path: Vec<u8>,
    pub state: String,
    pub snapshot_id: Option<i64>,
    pub identity: IdentityRow,
}

/// A cut from its snapshot on.
#[derive(Debug)]
pub struct CutCompletion {
    pub reservation: CutReservation,
    pub lease_owner: [u8; 16],
    pub target: Option<ExpectedSubvolume>,
    pub destination_path: Vec<u8>,
    pub recorded: Option<RecordedSnapshot>,
    pub physical_published: bool,
    pub reuse_staged_spool: bool,
    pub now_ns: i64,
}

/// A cut whose effect began.
#[derive(Debug)]
pub struct RecoveringCut {
    pub completion: CutCompletion,
    pub live_path: Vec<u8>,
}

#[derive(Debug)]
pub struct RecoveringSnapshotDeleteRow {
    pub operation_id: Vec<u8>,
    pub snapshot_id: i64,
    pub filesystem_id: i64,
    pub lease_owner: Vec<u8>,
    pub operation_fence: i64,
    pub state: String,
    pub identity: IdentityRow,
}

/// A deletion that began.
#[derive(Debug)]
pub struct RecoveringSnapshotDelete {
    pub reservation: SnapshotDeleteReservation,
    pub lease_owner: [u8; 16],
    pub state: String,
}

#[derive(Debug)]
pub struct RecoveringWorktreeRow {
    pub operation_id: Vec<u8>,
    pub worktree_id: Vec<u8>,
    pub filesystem_id: i64,
    pub seed_snapshot_id: i64,
    pub seed_revision_id: i64,
    pub seed_subvol_uuid: Vec<u8>,
    pub lease_owner: Vec<u8>,
    pub operation_fence: i64,
    pub state: String,
    pub staged_path: Vec<u8>,
    pub destination_root_path: Vec<u8>,
    pub destination_root_uuid: Vec<u8>,
    pub destination_root_generation: StoredNumber,
    pub destination_parent_ino: StoredNumber,
    pub destination_parent_generation: StoredNumber,
    pub destination_name: Vec<u8>,
    pub reservation_name: Vec<u8>,
    pub reservation_ino: StoredNumber,
    pub reservation_generation: StoredNumber,
    pub reservation_nonce: Vec<u8>,
    pub requester_uid: u32,
    pub discovered_uuid: Option<Vec<u8>>,
    pub policy_hash: Vec<u8>,
}

/// A worktree whose effect began.
#[derive(Debug)]
pub struct RecoveringWorktree {
    pub reservation: WorktreeReservation,
    pub lease_owner: [u8; 16],
    pub state: String,
    pub staged_path: Vec<u8>,
    pub destination_root_path: Vec<u8>,
    pub destination_root_uuid: [u8; 16],
    pub destination_root_generation: u64,
    pub destination_parent_ino: u64,
    pub destination_parent_generation: u64,
    pub destination_name: Vec<u8>,
    pub reservation_name: Vec<u8>,
    pub reservation_ino: u64,
    pub reservation_generation: u64,
    pub reservation_nonce: [u8; 32],
    pub requester_uid: u32,
    pub discovered_uuid: Option<[u8; 16]>,
}

/// The first of two faults.
pub open spec fn earliest(first: Option<Seq<char>>, second: Option<Seq<char>>) -> Option<Seq<char>> {
    if first is Some {
        first
    } else {
        second
    }
}

/// What is wrong with a stored field that must have `n` bytes.
pub open spec fn blob_fault(value: Seq<u8>, n: nat, field: Seq<char>) -> Option<Seq<char>> {
    if value.len() != n {
        Some(blob_length_text(field, value.len(), n))
    } else {
        None
    }
}

/// What is said of a field that is not there.
pub open spec fn omits(operation: Seq<char>, field: Seq<char>) -> Seq<char> {
    "recorded "@ + operation + " omits "@ + field
}

fn omission(operation: &str, field: &str) -> (error: ServiceError)
    ensures
        error@ == omits(operation@, field@),
{
    let mut text = String::new();
    text.append("recorded ");
    text.append(operation);
    text.append(" omits ");
    text.append(field);
    assert(text@ =~= omits(operation@, field@));
    ServiceError::of(text)
}

/// What is wrong with an identifier that must be there.
pub open spec fn required_id_fault(
    value: Option<Vec<u8>>,
    operation: Seq<char>,
    field: Seq<char>,
) -> Option<Seq<char>> {
    match value {
        None => Some(omits(operation, field)),
        Some(value) => blob_fault(value@, 16, field),
    }
}

/// What is wrong with an identifier that need not be there.
pub open spec fn optional_id_fault(value: Option<Vec<u8>>, field: Seq<char>) -> Option<Seq<char>> {
    match value {
        None => None,
        Some(value) => blob_fault(value@, 16, field),
    }
}

/// What is wrong with a stored number.
pub open spec fn number_fault(value: StoredNumber, field: Seq<char>) -> Option<Seq<char>> {
    match value {
        Ok(_) => None,
        Err(cause) => Some(in_context("decode "@ + field, cause@)),
    }
}

/// What is wrong with a stored number that must be there.
pub open spec fn required_number_fault(
    value: Option<StoredNumber>,
    operation: Seq<char>,
    field: Seq<char>,
) -> Option<Seq<char>> {
    match value {
        None => Some(omits(operation, field)),
        Some(value) => number_fault(value, field),
    }
}

fn decode_required_id(value: &Option<Vec<u8>>, operation: &str, field: &str) -> (id: Result<
    [u8; 16],
    ServiceError,
>)
    ensures
        match id {
            Ok(id) => required_id_fault(*value, operation@, field@) is None && value->0@ == id@,
            Err(error) => required_id_fault(*value, operation@, field@) == Some(error@),
        },
{
    match value {
        None => Err(omission(operation, field)),
        Some(value) => fixed_service_blob::<16>(value, field),
    }
}

/// The bytes of an identifier that need not be there.
pub open spec fn id_bytes(id: Option<[u8; 16]>) -> Option<Seq<u8>> {
    match id {
        Some(id) => Some(id@),
        None => None,
    }
}

/// The bytes of a field that need not be there.
pub open spec fn field_bytes(value: Option<Vec<u8>>) -> Option<Seq<u8>> {
    match value {
        Some(value) => Some(value@),
        None => None,
    }
}

fn decode_optional_id(value: &Option<Vec<u8>>, field: &str) -> (id: Result<
    Option<[u8; 16]>,
    ServiceError,
>)
    ensures
        match id {
            Ok(id) => optional_id_fault(*value, field@) is None && id_bytes(id) == field_bytes(
                *value,
            ),
            Err(error) => optional_id_fault(*value, field@) == Some(error@),
        },
{
    match value {
        None => Ok(None),
        Some(value) => match fixed_service_blob::<16>(value, field) {
            Ok(id) => Ok(Some(id)),
            Err(error) => Err(error),
        },
    }
}

/// Reads a stored number.
pub fn decode_recovery_u64(value: &StoredNumber, field: &str) -> (number: Result<u64, ServiceError>)
    ensures
        match number {
            Ok(number) => *value == Ok::<u64, String>(number),
            Err(error) => number_fault(*value, field@) == Some(error@),
        },
{
    match value {
        Ok(number) => Ok(*number),
        Err(cause) => {
            let mut step = String::new();
            step.append("decode ");
            step.append(field);
            assert(step@ =~= "decode "@ + field@);
            Err(ServiceError::context(step.as_str(), cause.as_str()))
        },
    }
}

fn decode_required_number(value: &Option<StoredNumber>, operation: &str, field: &str) -> (number:
    Result<u64, ServiceError>)
    ensures
        match number {
            Ok(number) => *value == Some(Ok::<u64, String>(number)),
            Err(error) => required_number_fault(*value, operation@, field@) == Some(error@),
        },
{
    match value {
        None => Err(omission(operation, field)),
        Some(value) => decode_recovery_u64(value, field),
    }
}

/// What is wrong with the stored identity of a snapshot.
pub open spec fn identity_fault(row: IdentityRow, operation: Seq<char>) -> Option<Seq<char>> {
    earliest(
        required_id_fault(row.fs_uuid, operation, "filesystem UUID"@),
        earliest(
            required_id_fault(row.subvol_uuid, operation, "subvolume UUID"@),
            earliest(
                optional_id_fault(row.parent_uuid, "parent UUID"@),
                earliest(
                    optional_id_fault(row.received_uuid, "received UUID"@),
                    earliest(
                        required_number_fault(row.root_id, operation, "root ID"@),
                        earliest(
                            required_number_fault(row.ctransid, operation, "ctransid"@),
                            earliest(
                                required_number_fault(row.otransid, operation, "otransid"@),
                                if row.snapshot_path is None {
                                    Some(omits(operation, "snapshot path"@))
                                } else if row.created_ns is None {
                                    Some(omits(operation, "created_ns"@))
                                } else {
                                    None
                                },
                            ),
                        ),
                    ),
                ),
            ),
        ),
    )
}

/// Whether the row holds the identity.
pub open spec fn identity_is(row: IdentityRow, identity: SnapshotIdentity) -> bool {
    &&& row.fs_uuid matches Some(fs_uuid)
    &&& fs_uuid@ == identity.fs_uuid@
    &&& row.subvol_uuid matches Some(subvol_uuid)
    &&& subvol_uuid@ == identity.subvol_uuid@
    &&& field_bytes(row.parent_uuid) == id_bytes(identity.parent_uuid)
    &&& field_bytes(row.received_uuid) == id_bytes(identity.received_uuid)
    &&& row.root_id == Some(Ok::<u64, String>(identity.root_id))
    &&& row.ctransid == Some(Ok::<u64, String>(identity.ctransid))
    &&& row.otransid == Some(Ok::<u64, String>(identity.otransid))
    &&& row.snapshot_path == Some(identity.path)
    &&& identity.readonly == (row.readonly == Some(1i64))
    &&& row.created_ns == Some(identity.created_ns)
}

/// Reads the stored identity of a snapshot.
pub fn decode_recovery_snapshot_identity(row: IdentityRow, operation: &str) -> (identity: Result<
    SnapshotIdentity,
    ServiceError,
>)
    ensures
        match identity {
            Ok(identity) => identity_fault(row, operation@) is None && identity_is(row, identity),
            Err(error) => identity_fault(row, operation@) == Some(error@),
        },
{
    let fs_uuid: [u8; 16] = match decode_required_id(&row.fs_uuid, operation, "filesystem UUID") {
        Ok(value) => value,
        Err(error) => {
            return Err(error);
        },
    };
    let subvol_uuid: [u8; 16] = match decode_required_id(&row.subvol_uuid, operation, "subvolume UUID") {
        Ok(value) => value,
        Err(error) => {
            return Err(error);
        },
    };
    let parent_uuid: Option<[u8; 16]> = match decode_optional_id(&row.parent_uuid, "parent UUID") {
        Ok(value) => value,
        Err(error) => {
            return Err(error);
        },
    };
    let received_uuid: Option<[u8; 16]> = match decode_optional_id(&row.received_uuid, "received UUID") {
        Ok(value) => value,
        Err(error) => {
            return Err(error);
        },
    };
    let root_id: u64 = match decode_required_number(&row.root_id, operation, "root ID") {
        Ok(value) => value,
        Err(error) => {
            return Err(error);
        },
    };
    let ctransid: u64 = match decode_required_number(&row.ctransid, operation, "ctransid") {
        Ok(value) => value,
        Err(error) => {
            return Err(error);
        },
    };
    let otransid: u64 = match decode_required_number(&row.otransid, operation, "otransid") {
        Ok(value) => value,
        Err(error) => {
            return Err(error);
        },
    };
    let path: Vec<u8> = match row.snapshot_path {
        Some(path) => path,
        None => {
            return Err(omission(operation, "snapshot path"));
        },
    };
    let created_ns: i64 = match row.created_ns {
        Some(created_ns) => created_ns,
        None => {
            return Err(omission(operation, "created_ns"));
        },
    };
    Ok(
        SnapshotIdentity {
            fs_uuid,
            subvol_uuid,
            parent_uuid,
            received_uuid,
            root_id,
            ctransid,
            otransid,
            path,
            readonly: row.readonly == Some(1),
            created_ns,
        },
    )
}

/// What is wrong with the recorded snapshot of an initialization.
pub open spec fn initialize_record_fault(row: RecoveringInitializeRow) -> Option<Seq<char>> {
    if row.state@ == "fs_started"@ {
        if row.snapshot_id is Some {
            Some("fs_started initialize unexpectedly has a recorded snapshot"@)
        } else {
            None
        }
    } else if row.state@ == "uuid_recorded"@ {
        earliest(
            identity_fault(row.identity, "initialize"@),
            if row.snapshot_id is None {
                Some(omits("initialize"@, "snapshot ID"@))
            } else {
                None
            },
        )
    } else {
        Some("invalid initialize recovery state"@)
    }
}

/// What is wrong with the row of an initialization.
pub open spec fn initialize_fault(row: RecoveringInitializeRow) -> Option<Seq<char>> {
    earliest(
        blob_fault(row.watch_id@, 16, "recovery watch ID"@),
        earliest(
            blob_fault(row.authorization_id@, 16, "recovery grant ID"@),
            earliest(
                blob_fault(row.operation_id@, 16, "recovery operation ID"@),
                earliest(
                    blob_fault(row.clock_epoch@, 16, "recovery clock epoch"@),
                    earliest(
                        initialize_record_fault(row),
                        blob_fault(row.lease_owner@, 16, "recovery lease owner"@),
                    ),
                ),
            ),
        ),
    )
}

/// Whether the snapshot is what the row has recorded.
pub open spec fn record_is(
    snapshot_id: Option<i64>,
    identity: IdentityRow,
    recorded: Option<RecordedSnapshot>,
) -> bool {
    &&& recorded matches Some(recorded)
    &&& snapshot_id == Some(recorded.snapshot_id)
    &&& identity_is(identity, recorded.identity)
}

/// Whether the row is that of the initialization.
pub open spec fn initialize_is(
    row: RecoveringInitializeRow,
    operation: RecoveringInitialize,
) -> bool {
    &&& operation.reservation.filesystem_id == row.filesystem_id
    &&& operation.reservation.watch_id@ == row.watch_id@
    &&& operation.reservation.grant_id@ == row.authorization_id@
    &&& operation.reservation.operation_id@ == row.operation_id@
    &&& operation.reservation.clock_epoch@ == row.clock_epoch@
    &&& operation.reservation.operation_fence == row.operation_fence
    &&& operation.reservation.topology_fence == 0
    &&& operation.lease_owner@ == row.lease_owner@
    &&& operation.reserved_path == row.reserved_path
    &&& operation.live_path == row.live_path
    &&& if row.state@ == "fs_started"@ {
        operation.recorded is None
    } else {
        record_is(row.snapshot_id, row.identity, operation.recorded)
    }
}

/// Reads the row of an initialization.
pub fn decode_recovering_initialize(row: RecoveringInitializeRow) -> (operation: Result<
    RecoveringInitialize,
    ServiceError,
>)
    ensures
        match operation {
            Ok(operation) => initialize_fault(row) is None && initialize_is(row, operation),
            Err(error) => initialize_fault(row) == Some(error@),
        },
{
    let watch_id: [u8; 16] = match fixed_service_blob::<16>(&row.watch_id, "recovery watch ID") {
        Ok(value) => value,
        Err(error) => {
            return Err(error);
        },
    };
    let grant_id: [u8; 16] = match fixed_service_blob::<16>(&row.authorization_id, "recovery grant ID") {
        Ok(value) => value,
        Err(error) => {
            return Err(error);
        },
    };
    let operation_id: [u8; 16] = match fixed_service_blob::<16>(&row.operation_id, "recovery operation ID") {
        Ok(value) => value,
        Err(error) => {
            return Err(error);
        },
    };
    let clock_epoch: [u8; 16] = match fixed_service_blob::<16>(&row.clock_epoch, "recovery clock epoch") {
        Ok(value) => value,
        Err(error) => {
            return Err(error);
        },
    };
    let reservation = InitializeReservation {
        filesystem_id: row.filesystem_id,
        watch_id,
        grant_id,
        operation_id,
        clock_epoch,
        operation_fence: row.operation_fence,
        topology_fence: 0,
    };
    proof {
        reveal_strlit("fs_started");
        reveal_strlit("uuid_recorded");
    }
    let recorded: Option<RecordedSnapshot> = if is_text(row.state.as_str(), "fs_started") {
        if row.snapshot_id.is_some() {
            return Err(
                ServiceError::new("fs_started initialize unexpectedly has a recorded snapshot"),
            );
        }
        None
    } else if is_text(row.state.as_str(), "uuid_recorded") {
        let identity = match decode_recovery_snapshot_identity(row.identity, "initialize") {
            Ok(identity) => identity,
            Err(error) => {
                return Err(error);
            },
        };
        match row.snapshot_id {
            Some(snapshot_id) => Some(RecordedSnapshot { snapshot_id, identity }),
            None => {
                return Err(omission("initialize", "snapshot ID"));
            },
        }
    } else {
        return Err(ServiceError::new("invalid initialize recovery state"));
    };
    let lease_owner: [u8; 16] = match fixed_service_blob::<16>(&row.lease_owner, "recovery lease owner") {
        Ok(value) => value,
        Err(error) => {
            return Err(error);
        },
    };
    Ok(
        RecoveringInitialize {
            reservation,
            lease_owner,
            reserved_path: row.reserved_path,
            live_path: row.live_path,
            recorded,
        },
    )
}

/// What is wrong with the recorded snapshot of a cut.
pub open spec fn cut_record_fault(row: RecoveringCutRow) -> Option<Seq<char>> {
    if row.state@ == "fs_started"@ {
        if row.snapshot_id is Some {
            Some("fs_started cut unexpectedly has a recorded snapshot"@)
        } else {
            None
        }
    } else if row.state@ == "uuid_recorded"@ || row.state@ == "manifest_ready"@ {
        if row.snapshot_id is None {
            Some(omits("cut"@, "snapshot ID"@))
        } else {
            identity_fault(row.identity, "cut"@)
        }
    } else {
        Some("invalid cut recovery state"@)
    }
}

/// What is wrong with the row of a cut.
pub open spec fn cut_fault(row: RecoveringCutRow) -> Option<Seq<char>> {
    earliest(
        blob_fault(row.watch_id@, 16, "cut recovery watch ID"@),
        earliest(
            blob_fault(row.authorization_id@, 16, "cut recovery authorization ID"@),
            earliest(
                blob_fault(row.operation_id@, 16, "cut recovery operation ID"@),
                earliest(
                    blob_fault(row.source_subvol_uuid@, 16, "cut recovery source UUID"@),
                    earliest(
                        cut_record_fault(row),
                        blob_fault(row.lease_owner@, 16, "cut recovery lease owner"@),
                    ),
                ),
            ),
        ),
    )
}

/// Whether the row is that of the cut.
pub open spec fn cut_is(row: RecoveringCutRow, operation: RecoveringCut, now_ns: i64) -> bool {
    let completion = operation.completion;
    &&& completion.reservation.filesystem_id == row.filesystem_id
    &&& completion.reservation.watch_id@ == row.watch_id@
    &&& completion.reservation.authorization_id@ == row.authorization_id@
    &&& completion.reservation.operation_id@ == row.operation_id@
    &&& completion.reservation.sequence == row.sequence
    &&& completion.reservation.base_snapshot_id == row.base_snapshot_id
    &&& completion.reservation.source_subvol_uuid@ == row.source_subvol_uuid@
    &&& completion.reservation.operation_fence == row.operation_fence
    &&& completion.reservation.cut_fence == row.cut_fence
    &&& completion.lease_owner@ == row.lease_owner@
    &&& completion.target is None
    &&& completion.destination_path == row.reserved_path
    &&& if row.state@ == "fs_started"@ {
        completion.recorded is None
    } else {
        record_is(row.snapshot_id, row.identity, completion.recorded)
    }
    &&& completion.physical_published == (row.state@ == "manifest_ready"@)
    &&& completion.reuse_staged_spool
    &&& completion.now_ns == now_ns
    &&& operation.live_path == row.live_path
}

/// Reads the row of a cut.
pub fn decode_recovering_cut(row: RecoveringCutRow, now_ns: i64) -> (operation: Result<
    RecoveringCut,
    ServiceError,
>)
    ensures
        match operation {
            Ok(operation) => cut_fault(row) is None && cut_is(row, operation, now_ns),
            Err(error) => cut_fault(row) == Some(error@),
        },
{
    let watch_id: [u8; 16] = match fixed_service_blob::<16>(&row.watch_id, "cut recovery watch ID") {
        Ok(value) => value,
        Err(error) => {
            return Err(error);
        },
    };
    let authorization_id: [u8; 16] = match fixed_service_blob::<16>(&row.authorization_id, "cut recovery authorization ID") {
        Ok(value) => value,
        Err(error) => {
            return Err(error);
        },
    };
    let operation_id: [u8; 16] = match fixed_service_blob::<16>(&row.operation_id, "cut recovery operation ID") {
        Ok(value) => value,
        Err(error) => {
            return Err(error);
        },
    };
    let source_subvol_uuid: [u8; 16] = match fixed_service_blob::<16>(&row.source_subvol_uuid, "cut recovery source UUID") {
        Ok(value) => value,
        Err(error) => {
            return Err(error);
        },
    };
    let reservation = CutReservation {
        filesystem_id: row.filesystem_id,
        watch_id,
        authorization_id,
        operation_id,
        sequence: row.sequence,
        base_snapshot_id: row.base_snapshot_id,
        source_subvol_uuid,
        operation_fence: row.operation_fence,
        cut_fence: row.cut_fence,
    };
    proof {
        reveal_strlit("fs_started");
        reveal_strlit("uuid_recorded");
        reveal_strlit("manifest_ready");
    }
    let physical_published: bool = is_text(row.state.as_str(), "manifest_ready");
    let recorded: Option<RecordedSnapshot> = if is_text(row.state.as_str(), "fs_started") {
        if row.snapshot_id.is_some() {
            return Err(ServiceError::new("fs_started cut unexpectedly has a recorded snapshot"));
        }
        None
    } else if is_text(row.state.as_str(), "uuid_recorded") || physical_published {
        let snapshot_id: i64 = match row.snapshot_id {
            Some(snapshot_id) => snapshot_id,
            None => {
                return Err(omission("cut", "snapshot ID"));
            },
        };
        match decode_recovery_snapshot_identity(row.identity, "cut") {
            Ok(identity) => Some(RecordedSnapshot { snapshot_id, identity }),
            Err(error) => {
                return Err(error);
            },
        }
    } else {
        return Err(ServiceError::new("invalid cut recovery state"));
    };
    let lease_owner: [u8; 16] = match fixed_service_blob::<16>(&row.lease_owner, "cut recovery lease owner") {
        Ok(value) => value,
        Err(error) => {
            return Err(error);
        },
    };
    Ok(
        RecoveringCut {
            completion: CutCompletion {
                reservation,
                lease_owner,
                target: None,
                destination_path: row.reserved_path,
                recorded,
                physical_published,
                reuse_staged_spool: true,
                now_ns,
            },
            live_path: row.live_path,
        },
    )
}

/// What is wrong with the row of a deletion.
pub open spec fn delete_fault(row: RecoveringSnapshotDeleteRow) -> Option<Seq<char>> {
    earliest(
        identity_fault(row.identity, "snapshot deletion"@),
        earliest(
            blob_fault(row.operation_id@, 16, "snapshot-delete recovery operation ID"@),
            blob_fault(row.lease_owner@, 16, "snapshot-delete recovery lease owner"@),
        ),
    )
}

/// Whether the row is that of the deletion.
pub open spec fn delete_is(
    row: RecoveringSnapshotDeleteRow,
    operation: RecoveringSnapshotDelete,
) -> bool {
    &&& operation.reservation.operation_id@ == row.operation_id@
    &&& operation.reservation.snapshot_id == row.snapshot_id
    &&& operation.reservation.filesystem_id == row.filesystem_id
    &&& operation.reservation.operation_fence == row.operation_fence
    &&& identity_is(row.identity, operation.reservation.identity)
    &&& operation.lease_owner@ == row.lease_owner@
    &&& operation.state == row.state
}

/// Reads the row of a deletion.
pub fn decode_recovering_snapshot_delete(row: RecoveringSnapshotDeleteRow) -> (operation: Result<
    RecoveringSnapshotDelete,
    ServiceError,
>)
    ensures
        match operation {
            Ok(operation) => delete_fault(row) is None && delete_is(row, operation),
            Err(error) => delete_fault(row) == Some(error@),
        },
{
    let identity: SnapshotIdentity = match decode_recovery_snapshot_identity(row.identity, "snapshot deletion") {
        Ok(value) => value,
        Err(error) => {
            return Err(error);
        },
    };
    let operation_id: [u8; 16] = match fixed_service_blob::<16>(
        &row.operation_id,
        "snapshot-delete recovery operation ID",
    ) {
        Ok(value) => value,
        Err(error) => {
            return Err(error);
        },
    };
    let lease_owner: [u8; 16] = match fixed_service_blob::<16>(
        &row.lease_owner,
        "snapshot-delete recovery lease owner",
    ) {
        Ok(value) => value,
        Err(error) => {
            return Err(error);
        },
    };
    Ok(
        RecoveringSnapshotDelete {
            reservation: SnapshotDeleteReservation {
                operation_id,
                snapshot_id: row.snapshot_id,
                filesystem_id: row.filesystem_id,
                operation_fence: row.operation_fence,
                identity,
            },
            lease_owner,
            state: row.state,
        },
    )
}

/// What is wrong with the state of a worktree.
pub open spec fn worktree_state_fault(row: RecoveringWorktreeRow) -> Option<Seq<char>> {
    if row.state@ == "fs_started"@ {
        if row.discovered_uuid is Some {
            Some("fs_started Worktree unexpectedly has a discovered UUID"@)
        } else {
            None
        }
    } else if row.state@ == "awaiting_destination"@ {
        if row.discovered_uuid is None {
            Some("awaiting-destination Worktree omits its discovered UUID"@)
        } else {
            None
        }
    } else {
        Some("invalid Worktree recovery state"@)
    }
}

/// What is wrong with where a worktree is to appear.
pub open spec fn worktree_destination_fault(row: RecoveringWorktreeRow) -> Option<Seq<char>> {
    earliest(
        blob_fault(row.destination_root_uuid@, 16, "Worktree recovery root UUID"@),
        earliest(
            number_fault(row.destination_root_generation, "Worktree recovery root generation"@),
            earliest(
                number_fault(row.destination_parent_ino, "Worktree recovery parent inode"@),
                earliest(
                    number_fault(
                        row.destination_parent_generation,
                        "Worktree recovery parent generation"@,
                    ),
                    earliest(
                        number_fault(row.reservation_ino, "Worktree recovery reservation inode"@),
                        earliest(
                            number_fault(
                                row.reservation_generation,
                                "Worktree recovery reservation generation"@,
                            ),
                            blob_fault(
                                row.reservation_nonce@,
                                32,
                                "Worktree recovery reservation nonce"@,
                            ),
                        ),
                    ),
                ),
            ),
        ),
    )
}

/// What is wrong with the row of a worktree.
pub open spec fn worktree_fault(row: RecoveringWorktreeRow) -> Option<Seq<char>> {
    earliest(
        optional_id_fault(row.discovered_uuid, "Worktree recovery discovered UUID"@),
        earliest(
            worktree_state_fault(row),
            earliest(
                blob_fault(row.operation_id@, 16, "Worktree recovery operation ID"@),
                earliest(
                    blob_fault(row.worktree_id@, 16, "Worktree recovery ID"@),
                    earliest(
                        blob_fault(row.seed_subvol_uuid@, 16, "Worktree recovery seed UUID"@),
                        earliest(
                            blob_fault(row.policy_hash@, 32, "Worktree recovery policy hash"@),
                            earliest(
                                blob_fault(
                                    row.lease_owner@,
                                    16,
                                    "Worktree recovery lease owner"@,
                                ),
                                worktree_destination_fault(row),
                            ),
                        ),
                    ),
                ),
            ),
        ),
    )
}

/// Whether the row is that of the worktree.
pub open spec fn worktree_is(row: RecoveringWorktreeRow, operation: RecoveringWorktree) -> bool {
    &&& operation.reservation.operation_id@ == row.operation_id@
    &&& operation.reservation.worktree_id@ == row.worktree_id@
    &&& operation.reservation.filesystem_id == row.filesystem_id
    &&& operation.reservation.seed_snapshot_id == row.seed_snapshot_id
    &&& operation.reservation.seed_revision_id == row.seed_revision_id
    &&& operation.reservation.seed_subvol_uuid@ == row.seed_subvol_uuid@
    &&& operation.reservation.operation_fence == row.operation_fence
    &&& operation.reservation.policy_hash@ == row.policy_hash@
    &&& operation.lease_owner@ == row.lease_owner@
    &&& operation.state == row.state
    &&& operation.staged_path == row.staged_path
    &&& operation.destination_root_path == row.destination_root_path
    &&& operation.destination_root_uuid@ == row.destination_root_uuid@
    &&& row.destination_root_generation == Ok::<u64, String>(
        operation.destination_root_generation,
    )
    &&& row.destination_parent_ino == Ok::<u64, String>(operation.destination_parent_ino)
    &&& row.destination_parent_generation == Ok::<u64, String>(
        operation.destination_parent_generation,
    )
    &&& operation.destination_name == row.destination_name
    &&& operation.reservation_name == row.reservation_name
    &&& row.reservation_ino == Ok::<u64, String>(operation.reservation_ino)
    &&& row.reservation_generation == Ok::<u64, String>(operation.reservation_generation)
    &&& operation.reservation_nonce@ == row.reservation_nonce@
    &&& operation.requester_uid == row.requester_uid
    &&& id_bytes(operation.discovered_uuid) == field_bytes(row.discovered_uuid)
}

/// Reads the row of a worktree.
pub fn decode_recovering_worktree(row: RecoveringWorktreeRow) -> (operation: Result<
    RecoveringWorktree,
    ServiceError,
>)
    ensures
        match operation {
            Ok(operation) => worktree_fault(row) is None && worktree_is(row, operation),
            Err(error) => worktree_fault(row) == Some(error@),
        },
{
    let discovered_uuid: Option<[u8; 16]> = match decode_optional_id(
        &row.discovered_uuid,
        "Worktree recovery discovered UUID",
    ) {
        Ok(value) => value,
        Err(error) => {
            return Err(error);
        },
    };
    proof {
        reveal_strlit("fs_started");
        reveal_strlit("awaiting_destination");
    }
    if is_text(row.state.as_str(), "fs_started") {
        if discovered_uuid.is_some() {
            return Err(
                ServiceError::new("fs_started Worktree unexpectedly has a discovered UUID"),
            );
        }
    } else if is_text(row.state.as_str(), "awaiting_destination") {
        if discovered_uuid.is_none() {
            return Err(
                ServiceError::new("awaiting-destination Worktree omits its discovered UUID"),
            );
        }
    } else {
        return Err(ServiceError::new("invalid Worktree recovery state"));
    }
    let operation_id: [u8; 16] = match fixed_service_blob::<16>(&row.operation_id, "Worktree recovery operation ID") {
        Ok(value) => value,
        Err(error) => {
            return Err(error);
        },
    };
    let worktree_id: [u8; 16] = match fixed_service_blob::<16>(&row.worktree_id, "Worktree recovery ID") {
        Ok(value) => value,
        Err(error) => {
            return Err(error);
        },
    };
    let seed_subvol_uuid: [u8; 16] = match fixed_service_blob::<16>(&row.seed_subvol_uuid, "Worktree recovery seed UUID") {
        Ok(value) => value,
        Err(error) => {
            return Err(error);
        },
    };
    let policy_hash: [u8; 32] = match fixed_service_blob::<32>(&row.policy_hash, "Worktree recovery policy hash") {
        Ok(value) => value,
        Err(error) => {
            return Err(error);
        },
    };
    let lease_owner: [u8; 16] = match fixed_service_blob::<16>(&row.lease_owner, "Worktree recovery lease owner") {
        Ok(value) => value,
        Err(error) => {
            return Err(error);
        },
    };
    let destination_root_uuid: [u8; 16] = match fixed_service_blob::<16>(
        &row.destination_root_uuid,
        "Worktree recovery root UUID",
    ) {
        Ok(value) => value,
        Err(error) => {
            return Err(error);
        },
    };
    let destination_root_generation: u64 = match decode_recovery_u64(
        &row.destination_root_generation,
        "Worktree recovery root generation",
    ) {
        Ok(value) => value,
        Err(error) => {
            return Err(error);
        },
    };
    let destination_parent_ino: u64 = match decode_recovery_u64(
        &row.destination_parent_ino,
        "Worktree recovery parent inode",
    ) {
        Ok(value) => value,
        Err(error) => {
            return Err(error);
        },
    };
    let destination_parent_generation: u64 = match decode_recovery_u64(
        &row.destination_parent_generation,
        "Worktree recovery parent generation",
    ) {
        Ok(value) => value,
        Err(error) => {
            return Err(error);
        },
    };
    let reservation_ino: u64 = match decode_recovery_u64(
        &row.reservation_ino,
        "Worktree recovery reservation inode",
    ) {
        Ok(value) => value,
        Err(error) => {
            return Err(error);
        },
    };
    let reservation_generation: u64 = match decode_recovery_u64(
        &row.reservation_generation,
        "Worktree recovery reservation generation",
    ) {
        Ok(value) => value,
        Err(error) => {
            return Err(error);
        },
    };
    let reservation_nonce: [u8; 32] = match fixed_service_blob::<32>(
        &row.reservation_nonce,
        "Worktree recovery reservation nonce",
    ) {
        Ok(value) => value,
        Err(error) => {
            return Err(error);
        },
    };
    Ok(
        RecoveringWorktree {
            reservation: WorktreeReservation {
                operation_id,
                worktree_id,
                filesystem_id: row.filesystem_id,
                seed_snapshot_id: row.seed_snapshot_id,
                seed_revision_id: row.seed_revision_id,
                seed_subvol_uuid,
                operation_fence: row.operation_fence,
                policy_hash,
            },
            lease_owner,
            state: row.state,
            staged_path: row.staged_path,
            destination_root_path: row.destination_root_path,
            destination_root_uuid,
            destination_root_generation,
            destination_parent_ino,
            destination_parent_generation,
            destination_name: row.destination_name,
            reservation_name: row.reservation_name,
            reservation_ino,
            reservation_generation,
            reservation_nonce,
            requester_uid: row.requester_uid,
            discovered_uuid,
        },
    )
}

} // verus!
