//! What the manager is asked and what it answers.

use crate::bytes::{be_bytes, push_be_u64, push_bytes};
use crate::digest::{sha256, sha256_digest};
use crate::index::Event;
use crate::paths::{begins_with, is_rooted, rooted, starts_with};
use crate::text::{append_numeral, copy_bytes, decimal, numeral, same_array, with_hex};
use vstd::prelude::*;
use vstd::utf8::encode_utf8;

verus! {

pub const PERMISSION_READ: u8 = 0x01;

pub const PERMISSION_CUT: u8 = 0x02;

pub const PERMISSION_WORKTREE: u8 = 0x04;

pub const PERMISSION_TRIGGER: u8 = 0x08;

pub const PERMISSION_RETAIN: u8 = 0x10;

pub const PERMISSION_ADMIN: u8 = 0x20;

pub const PERMISSION_MASK: u8 = 0x3f;

/// Why the manager refuses a request.
#[derive(Debug)]
pub struct ManagerError {
    message: String,
}

impl View for ManagerError {
    type V = Seq<char>;

    closed spec fn view(&self) -> Seq<char> {
        self.message@
    }
}

impl ManagerError {
    pub fn new(message: &str) -> (error: Self)
        ensures
            error@ == message@,
    {
        ManagerError { message: message.to_owned() }
    }

    pub fn of(message: String) -> (error: Self)
        ensures
            error@ == message@,
    {
        ManagerError { message }
    }

    /// The diagnostic text.
    pub fn message(&self) -> (text: &str)
        ensures
            text@ == self@,
    {
        self.message.as_str()
    }
}

/// The diagnostic of an update that did not change exactly one row.
pub open spec fn row_count_text(action: Seq<char>, changed: nat) -> Seq<char> {
    action + " affected "@ + decimal(changed) + " rows, expected exactly one"@
}

/// Accepts an update that changed exactly one row.
pub fn require_one(changed: usize, action: &str) -> (checked: Result<(), ManagerError>)
    ensures
        match checked {
            Ok(_) => changed == 1,
            Err(error) => changed != 1 && error@ == row_count_text(action@, changed as nat),
        },
{
    if changed == 1 {
        Ok(())
    } else {
        let mut message = String::new();
        message.append(action);
        message.append(" affected ");
        append_numeral(&mut message, changed as u64, 10);
        message.append(" rows, expected exactly one");
        assert(message@ =~= row_count_text(action@, changed as nat));
        Err(ManagerError::of(message))
    }
}

/// The diagnostic of a stored field of the wrong length.
pub open spec fn blob_length_text(field: Seq<char>, len: nat, expected: nat) -> Seq<char> {
    "stored "@ + field + " has length "@ + decimal(len) + ", expected "@ + decimal(expected)
}

/// The text of a stored field's wrong length.
pub fn blob_length_message(field: &str, len: usize, expected: usize) -> (message: String)
    ensures
        message@ == blob_length_text(field@, len as nat, expected as nat),
{
    let mut message = String::new();
    message.append("stored ");
    message.append(field);
    message.append(" has length ");
    append_numeral(&mut message, len as u64, 10);
    message.append(", expected ");
    append_numeral(&mut message, expected as u64, 10);
    assert(message@ =~= blob_length_text(field@, len as nat, expected as nat));
    message
}

/// Takes a stored field of exactly `N` bytes.
pub fn fixed_manager_blob<const N: usize>(value: &[u8], field: &str) -> (fixed: Result<
    [u8; N],
    ManagerError,
>)
    ensures
        match fixed {
            Ok(fixed) => value@.len() == N && fixed@ == value@,
            Err(error) => value@.len() != N && error@ == blob_length_text(
                field@,
                value@.len(),
                N as nat,
            ),
        },
{
    if value.len() != N {
        return Err(ManagerError::of(blob_length_message(field, value.len(), N)));
    }
    let mut fixed: [u8; N] = [0u8; N];
    let mut at: usize = 0;
    while at < N
        invariant
            at <= N,
            value.len() == N,
            forall|i: int| 0 <= i < at ==> fixed@[i] == value@[i],
        decreases N - at,
    {
        fixed[at] = value[at];
        at += 1;
    }
    assert(fixed@ =~= value@);
    Ok(fixed)
}

/// What a grant allows.
#[derive(Clone, Copy, Debug, Eq, PartialEq)]
pub struct Permissions(u8);

/// Whether the bits hold everything that is required.
pub open spec fn permits(bits: u8, required: u8) -> bool {
    bits & required == required
}

/// Whether the bits can be those of a grant.
pub open spec fn grantable(bits: u8) -> bool {
    bits != 0 && bits & !PERMISSION_MASK == 0
}

impl Permissions {
    /// The permission bits.
    pub closed spec fn mask(&self) -> u8 {
        self.0
    }

    pub fn new(bits: u8) -> (permissions: Result<Self, ManagerError>)
        ensures
            match permissions {
                Ok(permissions) => grantable(bits) && permissions.mask() == bits,
                Err(error) => !grantable(bits) && error@
                    == "invalid grant permission mask "@ + "0x"@ + numeral(bits as nat, 16),
            },
    {
        if bits == 0 || bits & !PERMISSION_MASK != 0 {
            return Err(ManagerError::of(with_hex("invalid grant permission mask ", bits as u64)));
        }
        Ok(Permissions(bits))
    }

    pub fn bits(self) -> (bits: u8)
        ensures
            bits == self.mask(),
    {
        self.0
    }

    pub fn contains(self, required: u8) -> (contained: bool)
        ensures
            contained == permits(self.mask(), required),
    {
        self.0 & required == required
    }
}

/// Who holds a grant.
#[derive(Clone, Debug, Eq, PartialEq)]
pub enum Principal {
    Uid(u64),
    Service(Vec<u8>),
}

impl Principal {
    pub fn copy(&self) -> (copy: Self)
        ensures
            same_principal(copy, *self),
    {
        match self {
            Principal::Uid(uid) => Principal::Uid(*uid),
            Principal::Service(id) => Principal::Service(copy_bytes(id)),
        }
    }

    /// Whether the principal is the user.
    pub fn is_uid(&self, uid: u64) -> (same: bool)
        ensures
            same == (*self == Principal::Uid(uid)),
    {
        match self {
            Principal::Uid(own) => *own == uid,
            Principal::Service(_) => false,
        }
    }
}

/// Whether two principals are the same.
pub open spec fn same_principal(left: Principal, right: Principal) -> bool {
    match (left, right) {
        (Principal::Uid(left), Principal::Uid(right)) => left == right,
        (Principal::Service(left), Principal::Service(right)) => left@ == right@,
        _ => false,
    }
}

#[derive(Clone, Debug, Eq, PartialEq)]
pub struct InitializeRequest {
    pub fs_uuid: [u8; 16],
    pub source_subvol_uuid: [u8; 16],
    pub source_path: Vec<u8>,
    pub reserved_snapshot_path: Vec<u8>,
    pub principal: Principal,
    pub permissions: Permissions,
    pub requester_uid: u32,
    pub requester_gid: u32,
    pub lease_owner: [u8; 16],
    pub now_ns: i64,
    pub lease_expires_ns: i64,
}

#[derive(Clone, Copy, Debug, Eq, PartialEq)]
pub struct InitializeReservation {
    pub filesystem_id: i64,
    pub watch_id: [u8; 16],
    pub grant_id: [u8; 16],
    pub operation_id: [u8; 16],
    pub clock_epoch: [u8; 16],
    pub operation_fence: i64,
    pub topology_fence: i64,
}

/// What the kernel says of a subvolume.
#[derive(Clone, Copy, Debug, Eq, PartialEq)]
pub struct SubvolumeInfo {
    pub uuid: [u8; 16],
    pub parent_uuid: Option<[u8; 16]>,
    pub received_uuid: Option<[u8; 16]>,
    pub root_id: u64,
    pub ctransid: u64,
    pub otransid: u64,
    pub readonly: bool,
}

/// The identity of a managed snapshot.
#[derive(Clone, Debug, Eq, PartialEq)]
pub struct SnapshotIdentity {
    pub fs_uuid: [u8; 16],
    pub subvol_uuid: [u8; 16],
    pub parent_uuid: Option<[u8; 16]>,
    pub received_uuid: Option<[u8; 16]>,
    pub root_id: u64,
    pub ctransid: u64,
    pub otransid: u64,
    pub path: Vec<u8>,
    pub readonly: bool,
    pub created_ns: i64,
}

/// Whether two identities agree in every field.
pub open spec fn same_identity(left: SnapshotIdentity, right: SnapshotIdentity) -> bool {
    &&& left.fs_uuid == right.fs_uuid
    &&& left.subvol_uuid == right.subvol_uuid
    &&& left.parent_uuid == right.parent_uuid
    &&& left.received_uuid == right.received_uuid
    &&& left.root_id == right.root_id
    &&& left.ctransid == right.ctransid
    &&& left.otransid == right.otransid
    &&& left.path@ == right.path@
    &&& left.readonly == right.readonly
    &&& left.created_ns == right.created_ns
}

/// The identity of the subvolume at the path.
pub open spec fn described(
    fs_uuid: [u8; 16],
    subvolume: SubvolumeInfo,
    path: Vec<u8>,
    created_ns: i64,
) -> SnapshotIdentity {
    SnapshotIdentity {
        fs_uuid,
        subvol_uuid: subvolume.uuid,
        parent_uuid: subvolume.parent_uuid,
        received_uuid: subvolume.received_uuid,
        root_id: subvolume.root_id,
        ctransid: subvolume.ctransid,
        otransid: subvolume.otransid,
        path,
        readonly: subvolume.readonly,
        created_ns,
    }
}

impl SnapshotIdentity {
    pub fn from_subvolume(
        fs_uuid: [u8; 16],
        subvolume: &SubvolumeInfo,
        path: Vec<u8>,
        created_ns: i64,
    ) -> (identity: Self)
        ensures
            identity == described(fs_uuid, *subvolume, path, created_ns),
    {
        SnapshotIdentity {
            fs_uuid,
            subvol_uuid: subvolume.uuid,
            parent_uuid: subvolume.parent_uuid,
            received_uuid: subvolume.received_uuid,
            root_id: subvolume.root_id,
            ctransid: subvolume.ctransid,
            otransid: subvolume.otransid,
            path,
            readonly: subvolume.readonly,
            created_ns,
        }
    }

    pub fn copy(&self) -> (copy: Self)
        ensures
            same_identity(copy, *self),
    {
        SnapshotIdentity {
            fs_uuid: self.fs_uuid,
            subvol_uuid: self.subvol_uuid,
            parent_uuid: self.parent_uuid,
            received_uuid: self.received_uuid,
            root_id: self.root_id,
            ctransid: self.ctransid,
            otransid: self.otransid,
            path: copy_bytes(&self.path),
            readonly: self.readonly,
            created_ns: self.created_ns,
        }
    }
}

#[derive(Clone, Debug, Eq, PartialEq)]
pub struct RecordedSnapshot {
    pub snapshot_id: i64,
    pub identity: SnapshotIdentity,
}

#[derive(Clone, Copy, Debug, Eq, PartialEq)]
pub struct InitializedWatch {
    pub watch_id: [u8; 16],
    pub grant_id: [u8; 16],
    pub revision_id: i64,
    pub snapshot_id: i64,
    pub sequence: i64,
    pub fresh_instance: bool,
}

#[derive(Clone, Copy, Debug, Eq, PartialEq)]
pub struct RetentionLease {
    pub id: [u8; 16],
    pub watch_id: [u8; 16],
    pub authorization_id: [u8; 16],
    pub snapshot_id: i64,
    pub lease_fence: i64,
    pub expires_ns: i64,
}

#[derive(Clone, Debug, Eq, PartialEq)]
pub struct CutRequest {
    pub watch_id: [u8; 16],
    pub authorization_id: [u8; 16],
    pub reserved_snapshot_path: Vec<u8>,
    pub requester_uid: u32,
    pub requester_gid: u32,
    pub lease_owner: [u8; 16],
    pub now_ns: i64,
    pub lease_expires_ns: i64,
}

#[derive(Clone, Copy, Debug, Eq, PartialEq)]
pub struct CutReservation {
    pub filesystem_id: i64,
    pub watch_id: [u8; 16],
    pub authorization_id: [u8; 16],
    pub operation_id: [u8; 16],
    pub sequence: i64,
    pub base_snapshot_id: i64,
    pub source_subvol_uuid: [u8; 16],
    pub operation_fence: i64,
    pub cut_fence: i64,
}

#[derive(Clone, Copy, Debug, Eq, PartialEq)]
pub struct CutAdmission {
    pub id: [u8; 16],
    pub reservation: CutReservation,
    pub requester_session_id: [u8; 16],
}

#[derive(Clone, Debug, Eq, PartialEq)]
pub struct PublishedCut {
    pub watch_id: [u8; 16],
    pub sequence: i64,
    pub snapshot_id: i64,
    pub revision_id: i64,
    pub comparison_id: i64,
    pub events: Vec<Event>,
}

#[derive(Clone, Debug, Eq, PartialEq)]
pub struct HistoricalChanges {
    pub watch_id: [u8; 16],
    pub from_snapshot_uuid: [u8; 16],
    pub to_snapshot_uuid: [u8; 16],
    pub from_sequence: i64,
    pub to_sequence: i64,
    pub fresh_instance: bool,
    pub events: Vec<Event>,
}

#[derive(Clone, Copy, Debug, Eq, PartialEq)]
pub struct HistoricalComparisonClaim {
    pub comparison_id: i64,
    pub watch_id: [u8; 16],
    pub authorization_id: [u8; 16],
    pub from_snapshot_uuid: [u8; 16],
    pub to_snapshot_uuid: [u8; 16],
    pub from_snapshot_id: i64,
    pub to_snapshot_id: i64,
    pub from_revision_id: i64,
    pub to_revision_id: i64,
    pub from_sequence: i64,
    pub to_sequence: i64,
    pub lease_owner: [u8; 16],
    pub lease_fence: i64,
}

#[derive(Clone, Copy, Debug, Eq, PartialEq)]
pub struct HistoricalComparisonRequest {
    pub watch_id: [u8; 16],
    pub authorization_id: [u8; 16],
    pub requester_uid: u32,
    pub from_snapshot_uuid: [u8; 16],
    pub to_snapshot_uuid: [u8; 16],
    pub lease_owner: [u8; 16],
    pub now_ns: i64,
    pub lease_expires_ns: i64,
}

#[derive(Clone, Debug, Eq, PartialEq)]
pub enum HistoricalComparisonAdmission {
    Ready(HistoricalChanges),
    Claimed(HistoricalComparisonClaim),
}

#[derive(Clone, Debug, Eq, PartialEq)]
pub struct SnapshotDeleteReservation {
    pub operation_id: [u8; 16],
    pub snapshot_id: i64,
    pub filesystem_id: i64,
    pub operation_fence: i64,
    pub identity: SnapshotIdentity,
}

#[derive(Clone, Debug, Eq, PartialEq)]
pub struct WorktreePolicy {
    pub policy_id: [u8; 16],
    pub destination_fs_uuid: [u8; 16],
    pub destination_root_subvol_uuid: [u8; 16],
    pub destination_root_path: Vec<u8>,
    pub destination_root_generation: u64,
    pub metadata_policy: String,
    pub allow_idmapped: bool,
    pub policy_hash: [u8; 32],
}

/// Whether two policies say the same.
pub open spec fn same_policy(left: WorktreePolicy, right: WorktreePolicy) -> bool {
    &&& left.destination_root_path@ == right.destination_root_path@
    &&& left.metadata_policy@ == right.metadata_policy@
    &&& left == WorktreePolicy {
        destination_root_path: left.destination_root_path,
        metadata_policy: left.metadata_policy,
        ..right
    }
}

impl WorktreePolicy {
    pub fn copy(&self) -> (copy: Self)
        ensures
            same_policy(copy, *self),
    {
        WorktreePolicy {
            policy_id: self.policy_id,
            destination_fs_uuid: self.destination_fs_uuid,
            destination_root_subvol_uuid: self.destination_root_subvol_uuid,
            destination_root_path: copy_bytes(&self.destination_root_path),
            destination_root_generation: self.destination_root_generation,
            metadata_policy: self.metadata_policy.as_str().to_owned(),
            allow_idmapped: self.allow_idmapped,
            policy_hash: self.policy_hash,
        }
    }
}

#[derive(Clone, Debug, Eq, PartialEq)]
pub struct WorktreeRequest {
    pub watch_id: [u8; 16],
    pub authorization_id: [u8; 16],
    pub policy: WorktreePolicy,
    pub staged_path: Vec<u8>,
    pub final_path: Vec<u8>,
    pub destination_parent_subvol_uuid: [u8; 16],
    pub destination_parent_ino: u64,
    pub destination_parent_generation: u64,
    pub destination_name: Vec<u8>,
    pub reservation_name: Vec<u8>,
    pub reservation_ino: u64,
    pub reservation_generation: u64,
    pub reservation_nonce: [u8; 32],
    pub requester_uid: u32,
    pub requester_gid: u32,
    pub lease_owner: [u8; 16],
    pub now_ns: i64,
    pub lease_expires_ns: i64,
}

#[derive(Clone, Copy, Debug, Eq, PartialEq)]
pub struct WorktreeReservation {
    pub operation_id: [u8; 16],
    pub worktree_id: [u8; 16],
    pub filesystem_id: i64,
    pub seed_snapshot_id: i64,
    pub seed_revision_id: i64,
    pub seed_subvol_uuid: [u8; 16],
    pub operation_fence: i64,
    pub policy_hash: [u8; 32],
}

#[derive(Clone, Copy, Debug, Eq, PartialEq)]
pub struct TrackedWorktree {
    pub worktree_id: [u8; 16],
    pub watch_id: [u8; 16],
    pub grant_id: [u8; 16],
    pub seed_revision_id: i64,
    pub seed_snapshot_id: i64,
}

#[derive(Clone, Copy, Debug, Eq, PartialEq)]
pub struct FacadeActivation {
    pub watch_id: [u8; 16],
    pub authorization_id: [u8; 16],
    pub clock_epoch: [u8; 16],
    pub monitor_session_id: [u8; 16],
}

#[derive(Clone, Copy, Debug, Eq, PartialEq)]
pub struct GuardCursor {
    pub epoch: [u8; 16],
    pub sequence: i64,
}

/// What may have changed since the last cut.
#[derive(Clone, Debug, Eq, PartialEq)]
pub enum MutationHint {
    Path(Vec<u8>),
    DirectoryPrefix(Vec<u8>),
    Object { path: Vec<u8>, ino: u64, generation: u64 },
    FullInvalidation,
}

/// What a hint says.
pub enum HintView {
    Path(Seq<u8>),
    DirectoryPrefix(Seq<u8>),
    Object { path: Seq<u8>, ino: u64, generation: u64 },
    FullInvalidation,
}

impl View for MutationHint {
    type V = HintView;

    open spec fn view(&self) -> HintView {
        match self {
            MutationHint::Path(path) => HintView::Path(path@),
            MutationHint::DirectoryPrefix(path) => HintView::DirectoryPrefix(path@),
            MutationHint::Object { path, ino, generation } => HintView::Object {
                path: path@,
                ino: *ino,
                generation: *generation,
            },
            MutationHint::FullInvalidation => HintView::FullInvalidation,
        }
    }
}

impl MutationHint {
    pub fn copy(&self) -> (copy: Self)
        ensures
            same_hint(copy, *self),
    {
        match self {
            MutationHint::Path(path) => MutationHint::Path(copy_bytes(path)),
            MutationHint::DirectoryPrefix(path) => MutationHint::DirectoryPrefix(copy_bytes(path)),
            MutationHint::Object { path, ino, generation } => MutationHint::Object {
                path: copy_bytes(path),
                ino: *ino,
                generation: *generation,
            },
            MutationHint::FullInvalidation => MutationHint::FullInvalidation,
        }
    }
}

/// Whether two hints say the same.
pub open spec fn same_hint(left: MutationHint, right: MutationHint) -> bool {
    left@ == right@
}

#[derive(Clone, Copy, Debug, Eq, PartialEq)]
pub struct ProvedWorktreeSeed {
    pub worktree_id: [u8; 16],
    pub snapshot_uuid: [u8; 16],
}

#[derive(Clone, Copy, Debug, Eq, PartialEq)]
pub struct QueryLeaseReservation {
    pub id: [u8; 16],
    pub watch_id: [u8; 16],
    pub authorization_id: [u8; 16],
    pub clock_epoch: [u8; 16],
    pub from_sequence: Option<i64>,
    pub to_sequence: i64,
    pub guard: Option<([u8; 16], i64, i64)>,
    pub lease_owner: [u8; 16],
    pub lease_fence: i64,
}

#[derive(Clone, Copy, Debug, Eq, PartialEq)]
pub struct TriggerRun {
    pub watch_id: [u8; 16],
    pub authorization_id: [u8; 16],
    pub through_sequence: i64,
    pub run_owner: [u8; 16],
    pub run_fence: i64,
}

#[derive(Clone, Copy, Debug, Eq, PartialEq)]
pub struct RecoveryReport {
    pub invalidated_facades: usize,
    pub released_queries: usize,
    pub reclaimed_trigger_runs: usize,
    pub abandoned_historical_comparisons: usize,
    pub boot_changed: bool,
}

/// `btrfs-awacs-worktree-policy-v1`, closed by a zero.
pub const POLICY_HASH_DOMAIN: [u8; 31] = [
    98, 116, 114, 102, 115, 45, 97, 119, 97, 99, 115, 45, 119, 111, 114, 107, 116, 114, 101, 101,
    45, 112, 111, 108, 105, 99, 121, 45, 118, 49, 0,
];

/// The bytes that identify a worktree policy.
pub open spec fn policy_preimage(policy: WorktreePolicy) -> Seq<u8> {
    POLICY_HASH_DOMAIN@ + policy.policy_id@ + policy.destination_fs_uuid@
        + policy.destination_root_subvol_uuid@ + be_bytes(
        policy.destination_root_path@.len() as u64,
    ) + policy.destination_root_path@ + be_bytes(policy.destination_root_generation) + be_bytes(
        encode_utf8(policy.metadata_policy@).len() as u64,
    ) + encode_utf8(policy.metadata_policy@) + seq![
        if policy.allow_idmapped {
            1u8
        } else {
            0u8
        },
    ]
}

/// The digest that anchors a grant to one immutable worktree policy.
pub fn worktree_policy_hash(policy: &WorktreePolicy) -> (hash: [u8; 32])
    ensures
        hash@ == sha256(policy_preimage(*policy)),
{
    let mut preimage: Vec<u8> = Vec::new();
    let domain: [u8; 31] = POLICY_HASH_DOMAIN;
    push_bytes(&mut preimage, &domain);
    push_bytes(&mut preimage, &policy.policy_id);
    push_bytes(&mut preimage, &policy.destination_fs_uuid);
    push_bytes(&mut preimage, &policy.destination_root_subvol_uuid);
    push_be_u64(&mut preimage, policy.destination_root_path.len() as u64);
    push_bytes(&mut preimage, &policy.destination_root_path);
    push_be_u64(&mut preimage, policy.destination_root_generation);
    let name = policy.metadata_policy.as_str().as_bytes();
    push_be_u64(&mut preimage, name.len() as u64);
    push_bytes(&mut preimage, name);
    preimage.push(
        if policy.allow_idmapped {
            1
        } else {
            0
        },
    );
    assert(preimage@ =~= policy_preimage(*policy));
    sha256_digest(&preimage)
}

/// Whether the policy carries its own digest.
pub open spec fn policy_anchored(policy: WorktreePolicy) -> bool {
    policy.policy_hash@ == sha256(policy_preimage(policy))
}

/// Whether the policy carries its own digest.
pub fn is_policy_anchored(policy: &WorktreePolicy) -> (anchored: bool)
    ensures
        anchored == policy_anchored(*policy),
{
    let hash = worktree_policy_hash(policy);
    let same: bool = same_array(&hash, &policy.policy_hash);
    proof {
        if hash@ == policy.policy_hash@ {
            assert(hash =~= policy.policy_hash);
        }
    }
    same
}

/// Whether `candidate` is `ancestor` or lies below it.
pub open spec fn same_or_below(candidate: Seq<u8>, ancestor: Seq<u8>) -> bool {
    rooted(candidate) && rooted(ancestor) && begins_with(candidate, ancestor)
}

/// Whether `candidate` is `ancestor` or lies below it, compared by whole
/// components.
pub fn path_is_same_or_descendant(candidate: &[u8], ancestor: &[u8]) -> (below: bool)
    ensures
        below == same_or_below(candidate@, ancestor@),
{
    is_rooted(candidate) && is_rooted(ancestor) && starts_with(candidate, ancestor)
}

/// Whether a path starts at the root directory.
pub fn path_is_absolute(path: &[u8]) -> (absolute: bool)
    ensures
        absolute == rooted(path@),
{
    is_rooted(path)
}

/// The number behind `fence`. A fence counts up and stays at the largest
/// number.
pub open spec fn fence_after(fence: i64) -> i64 {
    if fence == i64::MAX {
        i64::MAX
    } else {
        (fence + 1) as i64
    }
}

/// The number behind `fence`.
pub fn next_fence(fence: i64) -> (next: i64)
    ensures
        next == fence_after(fence),
{
    if fence == i64::MAX {
        i64::MAX
    } else {
        fence + 1
    }
}

/// Whether two optional identifiers are the same.
pub fn same_option<const N: usize>(left: &Option<[u8; N]>, right: &Option<[u8; N]>) -> (same: bool)
    ensures
        same == (*left == *right),
{
    match (left, right) {
        (Some(left), Some(right)) => same_array(left, right),
        (None, None) => true,
        _ => false,
    }
}

/// Whether an optional identifier is there and is `id`.
pub fn holds<const N: usize>(value: &Option<[u8; N]>, id: &[u8; N]) -> (held: bool)
    ensures
        held == (*value == Some(*id)),
{
    match value {
        Some(value) => same_array(value, id),
        None => false,
    }
}

} // verus!
