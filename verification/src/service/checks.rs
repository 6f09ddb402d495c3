//! What the service checks before it trusts a directory, a snapshot or a name.

use crate::bytes::{get_array_16, get_range, push_bytes};
use crate::digest::{drawn, random_id, sha256, sha256_digest};
use crate::index::ROOT_INO;
use crate::manager::recovery::in_flight;
use crate::manager::rows::{Operation, OperationState, PhysicalState, Snapshot, Store};
use crate::manager::types::{
    blob_length_text, fixed_manager_blob, same_option, SnapshotIdentity,
};
use crate::names::{
    hex, is_managed_object_name, managed_object_name, quarantine_name, QUARANTINE_INFIX,
    QUARANTINE_NAME,
};
use crate::paths::{
    begins_with, is_rooted, lies_in, parent_is, remainder, rooted, slash_at, starts_with,
    strip_base, DOT, SLASH,
};
use crate::service::config::ServiceError;
use crate::text::{copy_bytes, decimal, in_context, same_array, same_bytes, with_number};
use vstd::prelude::*;

verus! {

/// A subvolume as it was seen.
#[derive(Clone, Copy, Debug, Eq, PartialEq)]
pub struct ExpectedSubvolume {
    pub filesystem_uuid: [u8; 16],
    pub subvolume_uuid: [u8; 16],
    pub parent_uuid: Option<[u8; 16]>,
    pub received_uuid: Option<[u8; 16]>,
    pub root_id: u64,
    pub ctransid: u64,
    pub otransid: u64,
    pub readonly: bool,
}

impl ExpectedSubvolume {
    /// Whether two subvolumes look the same.
    pub fn same(&self, other: &Self) -> (same: bool)
        ensures
            same == (*self == *other),
    {
        same_array(&self.filesystem_uuid, &other.filesystem_uuid) && same_array(
            &self.subvolume_uuid,
            &other.subvolume_uuid,
        ) && same_option(&self.parent_uuid, &other.parent_uuid) && same_option(
            &self.received_uuid,
            &other.received_uuid,
        ) && self.root_id == other.root_id && self.ctransid == other.ctransid && self.otransid
            == other.otransid && self.readonly == other.readonly
    }
}

/// The identity of a new snapshot.
pub fn snapshot_identity(snapshot: &ExpectedSubvolume, path: Vec<u8>, created_ns: i64) -> (identity:
    SnapshotIdentity)
    ensures
        identity == identity_of(*snapshot, path, created_ns),
{
    SnapshotIdentity {
        fs_uuid: snapshot.filesystem_uuid,
        subvol_uuid: snapshot.subvolume_uuid,
        parent_uuid: snapshot.parent_uuid,
        received_uuid: snapshot.received_uuid,
        root_id: snapshot.root_id,
        ctransid: snapshot.ctransid,
        otransid: snapshot.otransid,
        path,
        readonly: snapshot.readonly,
        created_ns,
    }
}

/// The identity of a new snapshot.
pub open spec fn identity_of(
    snapshot: ExpectedSubvolume,
    path: Vec<u8>,
    created_ns: i64,
) -> SnapshotIdentity {
    SnapshotIdentity {
        fs_uuid: snapshot.filesystem_uuid,
        subvol_uuid: snapshot.subvolume_uuid,
        parent_uuid: snapshot.parent_uuid,
        received_uuid: snapshot.received_uuid,
        root_id: snapshot.root_id,
        ctransid: snapshot.ctransid,
        otransid: snapshot.otransid,
        path,
        readonly: snapshot.readonly,
        created_ns,
    }
}

/// Whether a subvolume is the recorded snapshot.
pub open spec fn is_recorded(recorded: SnapshotIdentity, observed: ExpectedSubvolume) -> bool {
    observed == ExpectedSubvolume {
        filesystem_uuid: recorded.fs_uuid,
        subvolume_uuid: recorded.subvol_uuid,
        parent_uuid: recorded.parent_uuid,
        received_uuid: recorded.received_uuid,
        root_id: recorded.root_id,
        ctransid: recorded.ctransid,
        otransid: recorded.otransid,
        readonly: recorded.readonly,
    }
}

/// Checks that a subvolume still is the recorded snapshot.
pub fn verify_recorded_snapshot(recorded: &SnapshotIdentity, observed: &ExpectedSubvolume) -> (
checked: Result<(), ServiceError>)
    ensures
        match checked {
            Ok(_) => is_recorded(*recorded, *observed),
            Err(error) => !is_recorded(*recorded, *observed) && error@
                == "managed snapshot no longer matches its recorded identity"@,
        },
{
    let expected = ExpectedSubvolume {
        filesystem_uuid: recorded.fs_uuid,
        subvolume_uuid: recorded.subvol_uuid,
        parent_uuid: recorded.parent_uuid,
        received_uuid: recorded.received_uuid,
        root_id: recorded.root_id,
        ctransid: recorded.ctransid,
        otransid: recorded.otransid,
        readonly: recorded.readonly,
    };
    if observed.same(&expected) {
        Ok(())
    } else {
        Err(ServiceError::new("managed snapshot no longer matches its recorded identity"))
    }
}

/// A snapshot is known again by the identity that it was recorded with.
pub proof fn law_recorded_identity(snapshot: ExpectedSubvolume, path: Vec<u8>, created_ns: i64)
    ensures
        is_recorded(identity_of(snapshot, path, created_ns), snapshot),
{
}

/// Why a source cannot be watched, by the true paths of the source and of the
/// managed directory.
pub open spec fn descendant_fault(
    source: Result<Vec<u8>, String>,
    managed: Result<Vec<u8>, String>,
) -> Option<Seq<char>> {
    match source {
        Err(cause) => Some(in_context("canonicalize source"@, cause@)),
        Ok(source) => match managed {
            Err(cause) => Some(in_context("canonicalize managed directory"@, cause@)),
            Ok(managed) => if begins_with(managed@, source@) {
                Some("managed snapshot directory must not be inside the watched source"@)
            } else {
                None
            },
        },
    }
}

/// Checks that the managed directory does not lie in the watched source.
pub fn reject_managed_descendant(
    source: &Result<Vec<u8>, String>,
    managed: &Result<Vec<u8>, String>,
) -> (checked: Result<(), ServiceError>)
    ensures
        match checked {
            Ok(_) => descendant_fault(*source, *managed) is None,
            Err(error) => descendant_fault(*source, *managed) == Some(error@),
        },
{
    match source {
        Err(cause) => Err(ServiceError::context("canonicalize source", cause.as_str())),
        Ok(source) => match managed {
            Err(cause) => Err(
                ServiceError::context("canonicalize managed directory", cause.as_str()),
            ),
            Ok(managed) => if starts_with(managed, source) {
                Err(
                    ServiceError::new(
                        "managed snapshot directory must not be inside the watched source",
                    ),
                )
            } else {
                Ok(())
            },
        },
    }
}

/// An entry of a directory as it was found.
#[derive(Clone, Debug, Eq, PartialEq)]
pub struct FoundEntry {
    pub path: Vec<u8>,
    /// The path as it is shown.
    pub shown: String,
    pub is_directory: bool,
    pub is_symlink: bool,
    pub ino: u64,
}

/// Whether an entry is a directory of its own.
pub open spec fn real_directory(entry: FoundEntry) -> bool {
    entry.is_directory && !entry.is_symlink
}

/// Whether an entry is the root of a subvolume.
pub open spec fn is_nested(entry: FoundEntry) -> bool {
    real_directory(entry) && entry.ino == ROOT_INO
}

/// What is wrong with the first nested subvolume from the `at`-th entry on.
pub open spec fn nested_from(entries: Seq<FoundEntry>, at: int) -> Option<Seq<char>>
    decreases entries.len() - at,
{
    if at < 0 || at >= entries.len() {
        None
    } else if is_nested(entries[at]) {
        Some("immutable snapshot contains nested subvolume "@ + entries[at].shown@)
    } else {
        nested_from(entries, at + 1)
    }
}

/// The directories among the first `n` entries that are not the root of a
/// subvolume.
pub open spec fn directories_before(entries: Seq<FoundEntry>, n: int) -> Seq<Seq<u8>>
    decreases n,
{
    if n <= 0 {
        Seq::empty()
    } else if real_directory(entries[n - 1]) && entries[n - 1].ino != ROOT_INO {
        directories_before(entries, n - 1).push(entries[n - 1].path@)
    } else {
        directories_before(entries, n - 1)
    }
}

/// The paths that are still to be looked at.
pub open spec fn paths_view(paths: Seq<Vec<u8>>) -> Seq<Seq<u8>> {
    paths.map_values(|path: Vec<u8>| path@)
}

/// Adds the directories among the entries that are not the root of a
/// subvolume.
pub fn add_directories(pending: &mut Vec<Vec<u8>>, entries: &Vec<FoundEntry>)
    ensures
        paths_view(final(pending)@) == paths_view(old(pending)@) + directories_before(
            entries@,
            entries@.len() as int,
        ),
{
    let ghost before = pending@;
    let mut at: usize = 0;
    assert(paths_view(pending@) =~= paths_view(before) + directories_before(entries@, 0));
    while at < entries.len()
        invariant
            at <= entries@.len(),
            paths_view(pending@) == paths_view(before) + directories_before(entries@, at as int),
        decreases entries.len() - at,
    {
        let entry = &entries[at];
        if entry.is_directory && !entry.is_symlink && entry.ino != ROOT_INO {
            let ghost earlier = pending@;
            let path = copy_bytes(&entry.path);
            pending.push(path);
            assert(paths_view(pending@) =~= paths_view(earlier).push(path@));
            assert(paths_view(pending@) =~= paths_view(before) + directories_before(
                entries@,
                at + 1,
            ));
        }
        at += 1;
    }
}

/// Looks at the entries of one directory of a snapshot: a nested subvolume is
/// refused, and the other directories are still to be looked at.
pub fn reject_nested_subvolumes(pending: &mut Vec<Vec<u8>>, entries: &Vec<FoundEntry>) -> (checked:
    Result<(), ServiceError>)
    ensures
        match nested_from(entries@, 0) {
            Some(fault) => {
                &&& checked matches Err(error)
                &&& error@ == fault
                &&& final(pending)@ == old(pending)@
            },
            None => checked is Ok && paths_view(final(pending)@) == paths_view(old(pending)@)
                + directories_before(entries@, entries@.len() as int),
        },
{
    let mut at: usize = 0;
    while at < entries.len()
        invariant
            at <= entries@.len(),
            pending@ == old(pending)@,
            nested_from(entries@, 0) == nested_from(entries@, at as int),
        decreases entries.len() - at,
    {
        let entry = &entries[at];
        if entry.is_directory && !entry.is_symlink && entry.ino == ROOT_INO {
            let mut text = String::new();
            text.append("immutable snapshot contains nested subvolume ");
            text.append(entry.shown.as_str());
            assert(text@ =~= "immutable snapshot contains nested subvolume "@ + entry.shown@);
            return Err(ServiceError::of(text));
        }
        at += 1;
    }
    add_directories(pending, entries);
    Ok(())
}

/// Whether the directory is the one that is searched for. Its generation is
/// looked at only where the inode number is right.
pub open spec fn identity_found(
    ino: u64,
    generation: Result<u64, String>,
    wanted_ino: u64,
    wanted_generation: u64,
) -> Result<bool, Seq<char>> {
    if ino != wanted_ino {
        Ok(false)
    } else {
        match generation {
            Err(cause) => Err(
                in_context("read destination-policy directory generation"@, cause@),
            ),
            Ok(generation) => Ok(generation == wanted_generation),
        }
    }
}

/// Whether the directory is the one that is searched for.
pub fn is_wanted_directory(
    ino: u64,
    generation: &Result<u64, String>,
    wanted_ino: u64,
    wanted_generation: u64,
) -> (wanted: Result<bool, ServiceError>)
    ensures
        match wanted {
            Ok(wanted) => identity_found(ino, *generation, wanted_ino, wanted_generation) == Ok::<
                bool,
                Seq<char>,
            >(wanted),
            Err(error) => identity_found(ino, *generation, wanted_ino, wanted_generation)
                == Err::<bool, Seq<char>>(error@),
        },
{
    if ino != wanted_ino {
        return Ok(false);
    }
    match generation {
        Err(cause) => Err(
            ServiceError::context("read destination-policy directory generation", cause.as_str()),
        ),
        Ok(generation) => Ok(*generation == wanted_generation),
    }
}

/// Takes the next directory to search. The search has failed once there is
/// none.
pub fn find_directory_by_identity(pending: &mut Vec<Vec<u8>>) -> (next: Result<
    Vec<u8>,
    ServiceError,
>)
    ensures
        match next {
            Ok(path) => old(pending)@.len() > 0 && path == old(pending)@.last() && final(pending)@
                == old(pending)@.drop_last(),
            Err(error) => old(pending)@.len() == 0 && final(pending)@ == old(pending)@ && error@
                == "Worktree destination parent is no longer beneath its policy root"@,
        },
{
    match pending.pop() {
        Some(path) => Ok(path),
        None => Err(
            ServiceError::new("Worktree destination parent is no longer beneath its policy root"),
        ),
    }
}

/// Whether a segment stands for nothing, or for this or the upper directory.
pub open spec fn odd_segment(segment: Seq<u8>) -> bool {
    segment.len() == 0 || segment == seq![DOT] || segment == seq![DOT, DOT]
}

/// Whether a segment from `from` on is odd.
pub open spec fn odd_from(path: Seq<u8>, from: int) -> bool
    decreases path.len() - from,
{
    if from < 0 || from > path.len() {
        false
    } else {
        let cut = slash_at(path, from);
        ||| odd_segment(path.subrange(from, cut))
        ||| (from <= cut < path.len() && odd_from(path, cut + 1))
    }
}

/// Whether a relative path is written in its plainest form.
pub open spec fn normalized(path: Seq<u8>) -> bool {
    !rooted(path) && (path.len() == 0 || !odd_from(path, 0))
}

fn find_slash(path: &[u8], from: usize) -> (at: usize)
    requires
        from <= path@.len(),
    ensures
        at == slash_at(path@, from as int),
        from <= at <= path@.len(),
{
    let mut at: usize = from;
    while at < path.len() && path[at] != SLASH
        invariant
            from <= at <= path@.len(),
            slash_at(path@, from as int) == slash_at(path@, at as int),
        decreases path.len() - at,
    {
        at += 1;
    }
    at
}

fn is_odd(segment: &Vec<u8>) -> (odd: bool)
    ensures
        odd == odd_segment(segment@),
{
    if segment.len() == 1 && segment[0] == DOT {
        assert(segment@ =~= seq![DOT]);
        return true;
    }
    if segment.len() == 2 && segment[0] == DOT && segment[1] == DOT {
        assert(segment@ =~= seq![DOT, DOT]);
        return true;
    }
    segment.len() == 0
}

fn has_odd(path: &[u8]) -> (found: bool)
    ensures
        found == odd_from(path@, 0),
{
    let mut from: usize = 0;
    loop
        invariant
            from <= path@.len(),
            odd_from(path@, 0) == odd_from(path@, from as int),
        decreases path@.len() - from,
    {
        let cut: usize = find_slash(path, from);
        let segment = get_range(path, from, cut);
        if is_odd(&segment) {
            return true;
        }
        if cut == path.len() {
            return false;
        }
        from = cut + 1;
    }
}

/// The path of a directory below its root, or why it is not one.
pub open spec fn relative_directory(root: Seq<u8>, child: Seq<u8>) -> Result<Seq<u8>, Seq<char>> {
    if !begins_with(child, root) {
        Err("Worktree destination parent is outside its policy root"@)
    } else if !normalized(remainder(child, root)) {
        Err("Worktree destination relative path is not normalized"@)
    } else {
        Ok(remainder(child, root))
    }
}

/// The path of a directory below its root.
pub fn relative_directory_bytes(root: &[u8], child: &[u8]) -> (relative: Result<
    Vec<u8>,
    ServiceError,
>)
    ensures
        match relative {
            Ok(relative) => relative_directory(root@, child@) == Ok::<Seq<u8>, Seq<char>>(
                relative@,
            ),
            Err(error) => relative_directory(root@, child@) == Err::<Seq<u8>, Seq<char>>(error@),
        },
{
    match strip_base(child, root) {
        None => Err(
            ServiceError::new("Worktree destination parent is outside its policy root"),
        ),
        Some(relative) => if is_rooted(&relative) || (relative.len() > 0 && has_odd(&relative)) {
            Err(ServiceError::new("Worktree destination relative path is not normalized"))
        } else {
            Ok(relative)
        },
    }
}

/// Checks that the broker has no receipt whose effect is open.
pub fn reject_unresolved_receipts(count: &Result<u64, String>) -> (checked: Result<
    (),
    ServiceError,
>)
    ensures
        match (*count, checked) {
            (Err(cause), Err(error)) => error@ == in_context(
                "inspect unresolved broker receipts"@,
                cause@,
            ),
            (Ok(count), Ok(_)) => count == 0,
            (Ok(count), Err(error)) => count != 0 && error@ == "broker has "@ + decimal(
                count as nat,
            ) + " unresolved receipt(s); exact recovery is required before service"@,
            _ => false,
        },
{
    match count {
        Err(cause) => Err(
            ServiceError::context("inspect unresolved broker receipts", cause.as_str()),
        ),
        Ok(count) => if *count != 0 {
            Err(
                ServiceError::of(
                    with_number(
                        "broker has ",
                        *count,
                        " unresolved receipt(s); exact recovery is required before service",
                    ),
                ),
            )
        } else {
            Ok(())
        },
    }
}

/// Takes a stored field of exactly `N` bytes.
pub fn fixed_service_blob<const N: usize>(value: &[u8], field: &str) -> (fixed: Result<
    [u8; N],
    ServiceError,
>)
    ensures
        match fixed {
            Ok(fixed) => value@.len() == N && fixed@ == value@,
            Err(error) => value@.len() != N && error@ == blob_length_text(
                field@,
                value@.len(),
                N as nat,
            ),
        },
{
    match fixed_manager_blob::<N>(value, field) {
        Ok(fixed) => Ok(fixed),
        Err(error) => Err(ServiceError::new(error.message())),
    }
}

/// `btrfs-awacs-effect-id-v1`, closed by a zero.
pub const EFFECT_ID_DOMAIN: [u8; 25] = [
    98, 116, 114, 102, 115, 45, 97, 119, 97, 99, 115, 45, 101, 102, 102, 101, 99, 116, 45, 105, 100,
    45, 118, 49, 0,
];

/// The identifier of one effect of an operation: the first half of a digest.
pub open spec fn effect_id(operation_id: Seq<u8>, label: Seq<u8>) -> Seq<u8> {
    sha256(EFFECT_ID_DOMAIN@ + operation_id + label).take(16)
}

/// The identifier of one effect of an operation.
pub fn derived_effect_id(operation_id: &[u8; 16], label: &[u8]) -> (id: [u8; 16])
    ensures
        id@ == effect_id(operation_id@, label@),
{
    let mut bytes: Vec<u8> = Vec::new();
    push_bytes(&mut bytes, &EFFECT_ID_DOMAIN);
    push_bytes(&mut bytes, operation_id);
    push_bytes(&mut bytes, label);
    assert(bytes@ =~= EFFECT_ID_DOMAIN@ + operation_id@ + label@);
    let digest: [u8; 32] = sha256_digest(&bytes);
    let id: [u8; 16] = get_array_16(&digest, 0);
    assert(id@ =~= digest@.take(16));
    id
}

/// What was found at the path of a stored snapshot.
#[derive(Debug)]
pub struct PathObservation {
    /// The path as it is shown.
    pub shown: String,
    /// Whether something is there.
    pub present: Result<bool, String>,
}

/// What is wrong with a stored snapshot at its path.
pub open spec fn stored_path_fault(
    snapshot: Snapshot,
    observation: PathObservation,
    managed: Seq<u8>,
) -> Option<Seq<char>> {
    if !lies_in(snapshot.path@, managed) {
        Some("stored managed snapshot path escapes its configured directory"@)
    } else {
        match observation.present {
            Err(cause) => Some(in_context("inspect tombstoned managed snapshot path"@, cause@)),
            Ok(present) => if snapshot.physical_state == PhysicalState::Deleted && present {
                Some(
                    "durability fault: deleted managed snapshot reappeared at "@
                        + observation.shown@,
                )
            } else {
                None
            },
        }
    }
}

/// What is wrong with the first faulty snapshot from the `at`-th on.
pub open spec fn stored_paths_fault_from(
    snapshots: Seq<Snapshot>,
    observations: Seq<PathObservation>,
    managed: Seq<u8>,
    at: int,
) -> Option<Seq<char>>
    decreases snapshots.len() - at,
{
    if at < 0 || at >= snapshots.len() {
        None
    } else if stored_path_fault(snapshots[at], observations[at], managed) is Some {
        stored_path_fault(snapshots[at], observations[at], managed)
    } else {
        stored_paths_fault_from(snapshots, observations, managed, at + 1)
    }
}

/// Whether the path is that of a snapshot that is not deleted, or is reserved
/// by an operation that began.
pub open spec fn known_path(store: Store, path: Seq<u8>) -> bool {
    ||| exists|i: int|
        0 <= i < store.snapshots@.len() && (#[trigger] store.snapshots@[i]).path@ == path
            && store.snapshots@[i].physical_state != PhysicalState::Deleted
    ||| exists|i: int|
        0 <= i < store.operations@.len() && in_flight()(#[trigger] store.operations@[i])
            && store.operations@[i].reserved_path@ == path
}

/// Checks the stored snapshots against what was found at their paths.
pub fn check_stored_paths(store: &Store, observations: &Vec<PathObservation>, managed: &[u8]) -> (
checked: Result<(), ServiceError>)
    requires
        observations@.len() == store.snapshots@.len(),
    ensures
        match checked {
            Ok(_) => stored_paths_fault_from(store.snapshots@, observations@, managed@, 0) is None,
            Err(error) => stored_paths_fault_from(store.snapshots@, observations@, managed@, 0)
                == Some(error@),
        },
{
    let mut at: usize = 0;
    while at < store.snapshots.len()
        invariant
            at <= store.snapshots@.len(),
            observations@.len() == store.snapshots@.len(),
            stored_paths_fault_from(store.snapshots@, observations@, managed@, 0)
                == stored_paths_fault_from(
                store.snapshots@,
                observations@,
                managed@,
                at as int,
            ),
        decreases store.snapshots.len() - at,
    {
        let snapshot = &store.snapshots[at];
        if !parent_is(&snapshot.path, managed) {
            return Err(
                ServiceError::new("stored managed snapshot path escapes its configured directory"),
            );
        }
        match &observations[at].present {
            Err(cause) => {
                return Err(
                    ServiceError::context(
                        "inspect tombstoned managed snapshot path",
                        cause.as_str(),
                    ),
                );
            },
            Ok(present) => {
                if snapshot.physical_state == PhysicalState::Deleted && *present {
                    let mut text = String::new();
                    text.append("durability fault: deleted managed snapshot reappeared at ");
                    text.append(observations[at].shown.as_str());
                    assert(text@ =~= "durability fault: deleted managed snapshot reappeared at "@
                        + observations@[at as int].shown@);
                    return Err(ServiceError::of(text));
                }
            },
        }
        at += 1;
    }
    Ok(())
}

fn is_known_path(store: &Store, path: &[u8]) -> (known: bool)
    ensures
        known == known_path(*store, path@),
{
    let mut at: usize = 0;
    while at < store.snapshots.len()
        invariant
            at <= store.snapshots@.len(),
            forall|i: int|
                0 <= i < at ==> !((#[trigger] store.snapshots@[i]).path@ == path@
                    && store.snapshots@[i].physical_state != PhysicalState::Deleted),
        decreases store.snapshots.len() - at,
    {
        if store.snapshots[at].physical_state != PhysicalState::Deleted && same_bytes(
            &store.snapshots[at].path,
            path,
        ) {
            return true;
        }
        at += 1;
    }
    let mut at: usize = 0;
    while at < store.operations.len()
        invariant
            at <= store.operations@.len(),
            forall|i: int|
                0 <= i < at ==> !(in_flight()(#[trigger] store.operations@[i])
                    && store.operations@[i].reserved_path@ == path@),
            forall|i: int|
                0 <= i < store.snapshots@.len() ==> !((#[trigger] store.snapshots@[i]).path@
                    == path@ && store.snapshots@[i].physical_state != PhysicalState::Deleted),
        decreases store.operations.len() - at,
    {
        let operation: &Operation = &store.operations[at];
        if operation.state != OperationState::Planned && operation.state != OperationState::Done
            && operation.state != OperationState::Failed && same_bytes(
            &operation.reserved_path,
            path,
        ) {
            assert(in_flight()(store.operations@[at as int]));
            return true;
        }
        at += 1;
    }
    false
}

/// Whether an entry of the managed directory has the service's kind of name,
/// but nothing knows of it.
pub open spec fn unexpected(store: Store, name: Seq<u8>, path: Seq<u8>) -> bool {
    name != QUARANTINE_NAME@ && managed_object_name(name) && !known_path(store, path)
}

/// The name that an unexpected entry of the managed directory is to be kept
/// under, with the identifier in it. Other entries stay.
pub fn quarantine_entry_as(store: &Store, name: &[u8], path: &[u8], id: &[u8; 16]) -> (kept:
    Option<Vec<u8>>)
    ensures
        match kept {
            Some(kept) => unexpected(*store, name@, path@) && kept@ == name@ + QUARANTINE_INFIX@
                + hex(id@),
            None => !unexpected(*store, name@, path@),
        },
{
    if same_bytes(name, &QUARANTINE_NAME) || !is_managed_object_name(name) || is_known_path(
        store,
        path,
    ) {
        None
    } else {
        Some(quarantine_name(name, id))
    }
}

/// The name that an unexpected entry of the managed directory is to be kept
/// under, with a random identifier in it. Other entries stay.
pub fn quarantine_entry(store: &Store, name: &[u8], path: &[u8]) -> (kept: Option<Vec<u8>>)
    ensures
        match kept {
            Some(kept) => unexpected(*store, name@, path@) && exists|id: [u8; 16]|
                drawn(id) && kept@ == name@ + QUARANTINE_INFIX@ + #[trigger] hex(id@),
            None => !unexpected(*store, name@, path@),
        },
{
    let id: [u8; 16] = random_id();
    quarantine_entry_as(store, name, path, &id)
}

} // verus!
