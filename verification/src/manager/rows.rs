//! The tables of the manager and their rows.

use crate::index::{Event, Index, Object};
use crate::manager::metadata::RevisionMetadata;
use crate::manager::table::{find, fresh, next_number, place, row, Identified, Numbered};
use crate::manager::types::{
    holds, row_count_text, GuardCursor, ManagerError, MutationHint, Principal,
};
use crate::manifest::{ObjectChange, Reference};
use crate::text::{append_numeral, same_array};
use std::collections::BTreeMap;
use vstd::prelude::*;

verus! {

#[derive(Clone, Copy, Debug, Eq, PartialEq, Structural)]
pub enum WatchState {
    Initializing,
    Active,
    Blocked,
    Deleted,
}

#[derive(Clone, Copy, Debug, Eq, PartialEq, Structural)]
pub enum FsmonitorState {
    Disabled,
    SnapshotOnly,
    GuardArming,
    GuardActive,
    GuardGapped,
}

#[derive(Clone, Copy, Debug, Eq, PartialEq, Structural)]
pub enum GrantState {
    Active,
    Revoked,
}

#[derive(Clone, Copy, Debug, Eq, PartialEq, Structural)]
pub enum OperationKind {
    Initialize,
    Cut,
    Worktree,
}

#[derive(Clone, Copy, Debug, Eq, PartialEq, Structural)]
pub enum OperationState {
    Planned,
    FsStarted,
    UuidRecorded,
    ManifestReady,
    AwaitingDestination,
    Done,
    Failed,
}

#[derive(Clone, Copy, Debug, Eq, PartialEq, Structural)]
pub enum PhysicalState {
    Present,
    Deleting,
    Deleted,
}

#[derive(Clone, Copy, Debug, Eq, PartialEq, Structural)]
pub enum RevisionState {
    Building,
    Ready,
}

#[derive(Clone, Copy, Debug, Eq, PartialEq, Structural)]
pub enum ComparisonKind {
    Incremental,
    FullFresh,
}

#[derive(Clone, Copy, Debug, Eq, PartialEq, Structural)]
pub enum ComparisonState {
    Claimed,
    IndexReady,
    Failed,
}

#[derive(Clone, Copy, Debug, Eq, PartialEq, Structural)]
pub enum CutState {
    Created,
    Ready,
    Failed,
}

#[derive(Clone, Copy, Debug, Eq, PartialEq, Structural)]
pub enum AdmissionState {
    Waiting,
    Fulfilled,
    Abandoned,
}

/// What a caller waits for a cut for.
#[derive(Clone, Copy, Debug, Eq, PartialEq, Structural)]
pub enum RequestKind {
    Clock,
    Query,
    Trigger,
}

#[derive(Clone, Copy, Debug, Eq, PartialEq, Structural)]
pub enum WorktreeState {
    Creating,
    Present,
    Deleting,
    Deleted,
}

#[derive(Clone, Copy, Debug, Eq, PartialEq, Structural)]
pub enum RetentionState {
    Active,
    Released,
    Revoked,
    Expired,
}

#[derive(Clone, Copy, Debug, Eq, PartialEq, Structural)]
pub enum DeleteState {
    Planned,
    FsStarted,
    FsDeleted,
    DeleteDurable,
    Done,
    Failed,
}

#[derive(Clone, Copy, Debug, Eq, PartialEq, Structural)]
pub enum QueryState {
    Active,
    Released,
}

#[derive(Clone, Copy, Debug, Eq, PartialEq, Structural)]
pub enum TriggerState {
    Active,
    Disabled,
}

/// On whose behalf a snapshot is kept.
#[derive(Clone, Copy, Debug, Eq, PartialEq)]
pub enum PinOwner {
    Operation([u8; 16]),
    WatchIndexedHead([u8; 16]),
    WatchLastCut([u8; 16]),
    RetentionLease([u8; 16]),
    Comparison(i64),
}

/// Why a snapshot is kept.
#[derive(Clone, Copy, Debug, Eq, PartialEq, Structural)]
pub enum PinReason {
    InitializeBuild,
    InitializedIndexHead,
    InitializedPhysicalHead,
    CutBase,
    CutTarget,
    PhysicalHead,
    IndexedHead,
    GapRecoveryHead,
    WorktreeSeed,
    WorktreeSeedIndex,
    WorktreeSeedCut,
    CallerRetention,
    HistoricalComparisonSource,
    HistoricalComparisonTarget,
}

/// The work that established a boundary.
#[derive(Clone, Copy, Debug, Eq, PartialEq)]
pub enum BoundarySource {
    Cut([u8; 16]),
    ProvedWorktreeSeed([u8; 16]),
}

/// The mount view that a facade is bound to.
#[derive(Clone, Debug, Eq, PartialEq)]
pub struct FacadeView {
    pub owner_grant_id: [u8; 16],
    pub root: Vec<u8>,
    pub mount_ns_dev: u64,
    pub mount_ns_ino: u64,
    pub root_dev: u64,
    pub root_ino: u64,
    pub root_mnt_id: u64,
    pub monitor_session_id: [u8; 16],
}

/// The precision journal of a watch: its epoch, its newest event and the
/// newest event that is no longer kept.
#[derive(Clone, Copy, Debug, Eq, PartialEq)]
pub struct GuardJournal {
    pub epoch: [u8; 16],
    pub head_seq: i64,
    pub replay_floor_seq: i64,
}

#[derive(Clone, Debug, Eq, PartialEq)]
pub struct Watch {
    pub id: [u8; 16],
    pub filesystem_id: i64,
    pub live_subvol_uuid: [u8; 16],
    pub live_path: Vec<u8>,
    pub indexed_revision_id: Option<i64>,
    pub indexed_seq: Option<i64>,
    pub last_cut_snapshot_id: Option<i64>,
    pub last_cut_seq: Option<i64>,
    pub cut_owner: Option<[u8; 16]>,
    pub cut_fence: i64,
    pub cut_expires_ns: Option<i64>,
    pub clock_epoch: [u8; 16],
    pub replay_floor_seq: Option<i64>,
    pub view: Option<FacadeView>,
    pub guard: Option<GuardJournal>,
    pub fsmonitor_state: FsmonitorState,
    pub state: WatchState,
}

#[derive(Clone, Debug, Eq, PartialEq)]
pub struct Grant {
    pub id: [u8; 16],
    pub watch_id: [u8; 16],
    pub principal: Principal,
    pub permissions: u8,
    pub state: GrantState,
    pub created_ns: i64,
    pub revoked_ns: Option<i64>,
}

/// Where a worktree is to appear.
#[derive(Clone, Debug, Eq, PartialEq)]
pub struct Destination {
    pub policy_id: [u8; 16],
    pub final_path: Vec<u8>,
    pub parent_subvol_uuid: [u8; 16],
    pub parent_ino: u64,
    pub parent_generation: u64,
    pub name: Vec<u8>,
    pub reservation_name: Vec<u8>,
    pub reservation_ino: u64,
    pub reservation_generation: u64,
    pub reservation_nonce: [u8; 32],
}

#[derive(Clone, Debug, Eq, PartialEq)]
pub struct Operation {
    pub id: [u8; 16],
    pub kind: OperationKind,
    pub state: OperationState,
    pub filesystem_id: i64,
    pub watch_id: [u8; 16],
    pub sequence: Option<i64>,
    pub source_subvol_uuid: [u8; 16],
    pub base_snapshot_id: Option<i64>,
    pub expected_parent_uuid: [u8; 16],
    pub requested_readonly: bool,
    pub requester_uid: u32,
    pub requester_gid: u32,
    pub authorization_id: [u8; 16],
    pub reserved_path: Vec<u8>,
    pub destination: Option<Destination>,
    pub discovered_uuid: Option<[u8; 16]>,
    pub guard: Option<GuardCursor>,
    pub error: Option<String>,
    pub lease_owner: Option<[u8; 16]>,
    pub lease_fence: i64,
    pub lease_expires_ns: Option<i64>,
    pub updated_ns: i64,
}

#[derive(Clone, Debug, Eq, PartialEq)]
pub struct Snapshot {
    pub id: i64,
    pub filesystem_id: i64,
    pub subvol_uuid: [u8; 16],
    pub parent_uuid: Option<[u8; 16]>,
    pub received_uuid: Option<[u8; 16]>,
    pub root_id: u64,
    pub ctransid: u64,
    pub otransid: u64,
    pub path: Vec<u8>,
    pub readonly: bool,
    pub physical_state: PhysicalState,
    pub created_ns: i64,
    pub deleted_ns: Option<i64>,
}

#[derive(Clone, Copy, Debug, Eq, PartialEq)]
pub struct Pin {
    pub snapshot_id: i64,
    pub owner: PinOwner,
    pub reason: PinReason,
}

#[derive(Clone, Copy, Debug, Eq, PartialEq)]
pub struct Filesystem {
    pub id: i64,
    pub fs_uuid: [u8; 16],
}

/// The exclusive right to change which trees of a filesystem are watched.
#[derive(Clone, Copy, Debug, Eq, PartialEq)]
pub struct TopologyLease {
    pub filesystem_id: i64,
    pub lease_owner: Option<[u8; 16]>,
    pub lease_fence: i64,
    pub lease_expires_ns: Option<i64>,
}

/// A whole index, as stored.
#[derive(Debug)]
pub struct Checkpoint {
    pub state: RevisionState,
    pub builder_owner: [u8; 16],
    pub builder_fence: i64,
    pub index: Index,
    pub owner_counts: BTreeMap<u64, i64>,
}

/// A directory entry that a revision adds or takes away.
#[derive(Clone, Debug, Eq, PartialEq)]
pub struct RefOverride {
    pub reference: Reference,
    pub present: bool,
}

/// What a revision changes in the one below it.
#[derive(Debug)]
pub struct Overlay {
    /// The changed objects by inode number, and `None` for a deleted one.
    pub objects: BTreeMap<u64, Option<Object>>,
    pub references: Vec<RefOverride>,
    pub owner_counts: BTreeMap<u64, i64>,
}

#[derive(Debug)]
pub struct Revision {
    pub id: i64,
    pub snapshot_id: i64,
    pub storage_base_revision_id: Option<i64>,
    pub provenance_comparison_id: Option<i64>,
    pub delta_depth: i64,
    pub state: RevisionState,
    pub builder_owner: [u8; 16],
    pub builder_fence: i64,
    pub summary: RevisionMetadata,
    pub created_ns: i64,
    pub checkpoint: Option<Checkpoint>,
    pub overlay: Overlay,
}

/// A directory entry that a comparison found added or deleted.
#[derive(Clone, Debug, Eq, PartialEq)]
pub struct RefChange {
    pub added: bool,
    pub reference: Reference,
}

#[derive(Debug)]
pub struct Comparison {
    pub id: i64,
    pub from_snapshot_id: i64,
    pub to_snapshot_id: i64,
    pub kind: ComparisonKind,
    pub algorithm_version: i64,
    pub state: ComparisonState,
    pub lease_owner: Option<[u8; 16]>,
    pub lease_fence: i64,
    pub lease_expires_ns: Option<i64>,
    pub manifest_hash: Option<[u8; 32]>,
    pub raw_ref_adds: Option<i64>,
    pub raw_ref_deletes: Option<i64>,
    pub objects: Vec<ObjectChange>,
    pub references: Vec<RefChange>,
    pub events: Vec<Event>,
}

#[derive(Clone, Copy, Debug, Eq, PartialEq)]
pub struct WatchCut {
    pub watch_id: [u8; 16],
    pub sequence: i64,
    pub operation_id: [u8; 16],
    pub base_snapshot_id: i64,
    pub target_snapshot_id: i64,
    pub comparison_id: Option<i64>,
    pub comparison_from_snapshot_id: Option<i64>,
    pub state: CutState,
    pub fresh_instance: bool,
}

#[derive(Clone, Copy, Debug, Eq, PartialEq)]
pub struct Admission {
    pub id: [u8; 16],
    pub operation_id: [u8; 16],
    pub watch_id: [u8; 16],
    pub authorization_id: [u8; 16],
    pub requester_session_id: [u8; 16],
    pub request_kind: RequestKind,
    pub state: AdmissionState,
    pub admitted_ns: i64,
    pub expires_ns: i64,
}

#[derive(Clone, Debug, Eq, PartialEq)]
pub struct Worktree {
    pub id: [u8; 16],
    pub filesystem_id: i64,
    pub subvol_uuid: Option<[u8; 16]>,
    pub path: Vec<u8>,
    pub seed_revision_id: i64,
    pub watch_id: Option<[u8; 16]>,
    pub operation_id: [u8; 16],
    pub state: WorktreeState,
}

/// The destination that a grant may create worktrees at.
#[derive(Clone, Debug, Eq, PartialEq)]
pub struct GrantPolicy {
    pub id: [u8; 16],
    pub grant_id: [u8; 16],
    pub destination_filesystem_id: i64,
    pub destination_root_subvol_uuid: [u8; 16],
    pub destination_root_path: Vec<u8>,
    pub destination_root_ino: u64,
    pub destination_root_generation: u64,
    pub metadata_policy: String,
    pub allow_idmapped: bool,
    pub policy_hash: [u8; 32],
    pub created_ns: i64,
}

#[derive(Clone, Copy, Debug, Eq, PartialEq)]
pub struct Retention {
    pub id: [u8; 16],
    pub watch_id: [u8; 16],
    pub authorization_id: [u8; 16],
    pub snapshot_id: i64,
    pub state: RetentionState,
    pub lease_fence: i64,
    pub expires_ns: i64,
    pub created_ns: i64,
}

#[derive(Clone, Copy, Debug, Eq, PartialEq)]
pub struct DeleteOperation {
    pub id: [u8; 16],
    pub snapshot_id: i64,
    pub filesystem_id: i64,
    pub state: DeleteState,
    pub lease_owner: Option<[u8; 16]>,
    pub lease_fence: i64,
    pub lease_expires_ns: Option<i64>,
    pub updated_ns: i64,
}

/// A point that queries can start from or end at.
#[derive(Clone, Copy, Debug, Eq, PartialEq)]
pub struct Boundary {
    pub watch_id: [u8; 16],
    pub cut_sequence: i64,
    pub target_snapshot_id: i64,
    pub source: BoundarySource,
    pub clock_epoch: [u8; 16],
    /// The cursor of the precision journal, where it is complete up to here.
    pub guard: Option<GuardCursor>,
}

#[derive(Clone, Copy, Debug, Eq, PartialEq)]
pub struct QueryLease {
    pub id: [u8; 16],
    pub watch_id: [u8; 16],
    pub authorization_id: [u8; 16],
    pub clock_epoch: [u8; 16],
    pub from_cut_sequence: Option<i64>,
    pub to_cut_sequence: i64,
    /// The journal's epoch, and the events it is leased between.
    pub guard: Option<([u8; 16], i64, i64)>,
    pub lease_owner: [u8; 16],
    pub lease_fence: i64,
    pub lease_expires_ns: i64,
    pub state: QueryState,
}

#[derive(Clone, Copy, Debug, Eq, PartialEq)]
pub struct RevisionPin {
    pub query_id: [u8; 16],
    pub revision_id: i64,
}

#[derive(Clone, Copy, Debug, Eq, PartialEq)]
pub struct ComparisonPin {
    pub query_id: [u8; 16],
    pub comparison_id: i64,
}

#[derive(Clone, Debug, Eq, PartialEq)]
pub struct MutationEvent {
    pub watch_id: [u8; 16],
    pub guard_epoch: [u8; 16],
    pub sequence: i64,
    pub hint: MutationHint,
    pub observed_ns: i64,
}

/// The background snapshot trigger of a grant on a watch.
#[derive(Clone, Copy, Debug, Eq, PartialEq)]
pub struct Trigger {
    pub watch_id: [u8; 16],
    pub owner_grant_id: [u8; 16],
    pub state: TriggerState,
    pub last_evaluated_seq: Option<i64>,
    pub pending_through_seq: Option<i64>,
    pub run_owner: Option<[u8; 16]>,
    pub run_fence: i64,
    pub run_expires_ns: Option<i64>,
}

/// Everything that the manager remembers. Each method either does all that it
/// says or changes nothing.
#[derive(Debug)]
pub struct Store {
    pub last_boot_id: [u8; 16],
    pub filesystems: Vec<Filesystem>,
    pub topology_leases: Vec<TopologyLease>,
    pub watches: Vec<Watch>,
    pub grants: Vec<Grant>,
    pub operations: Vec<Operation>,
    pub snapshots: Vec<Snapshot>,
    pub pins: Vec<Pin>,
    pub revisions: Vec<Revision>,
    pub comparisons: Vec<Comparison>,
    pub cuts: Vec<WatchCut>,
    pub admissions: Vec<Admission>,
    pub worktrees: Vec<Worktree>,
    pub policies: Vec<GrantPolicy>,
    pub retention_leases: Vec<Retention>,
    pub delete_operations: Vec<DeleteOperation>,
    pub boundaries: Vec<Boundary>,
    pub query_leases: Vec<QueryLease>,
    pub revision_pins: Vec<RevisionPin>,
    pub comparison_pins: Vec<ComparisonPin>,
    pub mutation_events: Vec<MutationEvent>,
    pub triggers: Vec<Trigger>,
}

impl Store {
    /// A store that remembers nothing but the boot it was made in.
    pub fn new(boot_id: [u8; 16]) -> (store: Self)
        ensures
            store.is_empty(),
            store.well_formed(),
            store.last_boot_id == boot_id,
    {
        Store {
            last_boot_id: boot_id,
            filesystems: Vec::new(),
            topology_leases: Vec::new(),
            watches: Vec::new(),
            grants: Vec::new(),
            operations: Vec::new(),
            snapshots: Vec::new(),
            pins: Vec::new(),
            revisions: Vec::new(),
            comparisons: Vec::new(),
            cuts: Vec::new(),
            admissions: Vec::new(),
            worktrees: Vec::new(),
            policies: Vec::new(),
            retention_leases: Vec::new(),
            delete_operations: Vec::new(),
            boundaries: Vec::new(),
            query_leases: Vec::new(),
            revision_pins: Vec::new(),
            comparison_pins: Vec::new(),
            mutation_events: Vec::new(),
            triggers: Vec::new(),
        }
    }

    /// Whether every table is empty.
    pub open spec fn is_empty(&self) -> bool {
        &&& self.filesystems@.len() == 0
        &&& self.topology_leases@.len() == 0
        &&& self.watches@.len() == 0
        &&& self.grants@.len() == 0
        &&& self.operations@.len() == 0
        &&& self.snapshots@.len() == 0
        &&& self.pins@.len() == 0
        &&& self.revisions@.len() == 0
        &&& self.comparisons@.len() == 0
        &&& self.cuts@.len() == 0
        &&& self.admissions@.len() == 0
        &&& self.worktrees@.len() == 0
        &&& self.policies@.len() == 0
        &&& self.retention_leases@.len() == 0
        &&& self.delete_operations@.len() == 0
        &&& self.boundaries@.len() == 0
        &&& self.query_leases@.len() == 0
        &&& self.revision_pins@.len() == 0
        &&& self.comparison_pins@.len() == 0
        &&& self.mutation_events@.len() == 0
        &&& self.triggers@.len() == 0
    }
}

impl Identified for Watch {
    open spec fn ident(&self) -> [u8; 16] {
        self.id
    }

    fn is(&self, id: &[u8; 16]) -> (same: bool) {
        same_array(&self.id, id)
    }
}

impl Identified for Grant {
    open spec fn ident(&self) -> [u8; 16] {
        self.id
    }

    fn is(&self, id: &[u8; 16]) -> (same: bool) {
        same_array(&self.id, id)
    }
}

impl Identified for Operation {
    open spec fn ident(&self) -> [u8; 16] {
        self.id
    }

    fn is(&self, id: &[u8; 16]) -> (same: bool) {
        same_array(&self.id, id)
    }
}

impl Identified for Admission {
    open spec fn ident(&self) -> [u8; 16] {
        self.id
    }

    fn is(&self, id: &[u8; 16]) -> (same: bool) {
        same_array(&self.id, id)
    }
}

impl Identified for Worktree {
    open spec fn ident(&self) -> [u8; 16] {
        self.id
    }

    fn is(&self, id: &[u8; 16]) -> (same: bool) {
        same_array(&self.id, id)
    }
}

impl Identified for GrantPolicy {
    open spec fn ident(&self) -> [u8; 16] {
        self.id
    }

    fn is(&self, id: &[u8; 16]) -> (same: bool) {
        same_array(&self.id, id)
    }
}

impl Identified for Retention {
    open spec fn ident(&self) -> [u8; 16] {
        self.id
    }

    fn is(&self, id: &[u8; 16]) -> (same: bool) {
        same_array(&self.id, id)
    }
}

impl Identified for DeleteOperation {
    open spec fn ident(&self) -> [u8; 16] {
        self.id
    }

    fn is(&self, id: &[u8; 16]) -> (same: bool) {
        same_array(&self.id, id)
    }
}

impl Identified for QueryLease {
    open spec fn ident(&self) -> [u8; 16] {
        self.id
    }

    fn is(&self, id: &[u8; 16]) -> (same: bool) {
        same_array(&self.id, id)
    }
}

impl Numbered for Filesystem {
    open spec fn num(&self) -> i64 {
        self.id
    }

    fn number(&self) -> (number: i64) {
        self.id
    }
}

impl Numbered for TopologyLease {
    open spec fn num(&self) -> i64 {
        self.filesystem_id
    }

    fn number(&self) -> (number: i64) {
        self.filesystem_id
    }
}

impl Numbered for Snapshot {
    open spec fn num(&self) -> i64 {
        self.id
    }

    fn number(&self) -> (number: i64) {
        self.id
    }
}

impl Numbered for Revision {
    open spec fn num(&self) -> i64 {
        self.id
    }

    fn number(&self) -> (number: i64) {
        self.id
    }
}

impl Numbered for Comparison {
    open spec fn num(&self) -> i64 {
        self.id
    }

    fn number(&self) -> (number: i64) {
        self.id
    }
}

/// The diagnostic of an update that found no row to change.
pub fn none_changed(action: &str) -> (error: ManagerError)
    ensures
        error@ == row_count_text(action@, 0),
{
    let mut message = String::new();
    message.append(action);
    message.append(" affected ");
    append_numeral(&mut message, 0, 10);
    message.append(" rows, expected exactly one");
    assert(message@ =~= row_count_text(action@, 0));
    ManagerError::of(message)
}

/// The diagnostic of a read that found no row.
pub open spec fn no_rows() -> Seq<char> {
    "Query returned no rows"@
}

/// The diagnostic of a table whose numbers are used up.
pub open spec fn full_text() -> Seq<char> {
    "database or disk is full"@
}

/// Numbers the next row of a table.
pub fn number_row<T: Numbered>(rows: &Vec<T>) -> (number: Result<i64, ManagerError>)
    ensures
        match number {
            Ok(number) => fresh(rows@) == Some(number) && number > 0,
            Err(error) => fresh(rows@) is None && error@ == full_text(),
        },
{
    match next_number(rows) {
        Some(number) => Ok(number),
        None => Err(ManagerError::new("database or disk is full")),
    }
}

/// Whether two owners of pins are the same.
pub fn same_owner(left: &PinOwner, right: &PinOwner) -> (same: bool)
    ensures
        same == (*left == *right),
{
    match (left, right) {
        (PinOwner::Operation(left), PinOwner::Operation(right)) => same_array(left, right),
        (PinOwner::WatchIndexedHead(left), PinOwner::WatchIndexedHead(right)) => same_array(
            left,
            right,
        ),
        (PinOwner::WatchLastCut(left), PinOwner::WatchLastCut(right)) => same_array(left, right),
        (PinOwner::RetentionLease(left), PinOwner::RetentionLease(right)) => same_array(
            left,
            right,
        ),
        (PinOwner::Comparison(left), PinOwner::Comparison(right)) => *left == *right,
        _ => false,
    }
}

/// Whether the grant is active on the watch.
pub open spec fn grant_active(grants: Seq<Grant>, watch_id: [u8; 16], grant_id: [u8; 16]) -> bool {
    match row(grants, grant_id) {
        Some(grant) => grant.watch_id == watch_id && grant.state == GrantState::Active,
        None => false,
    }
}

/// Whether the grant is active on the watch and allows everything that is
/// required.
pub open spec fn grant_allows(
    grants: Seq<Grant>,
    watch_id: [u8; 16],
    grant_id: [u8; 16],
    required: u8,
) -> bool {
    match row(grants, grant_id) {
        Some(grant) => grant.watch_id == watch_id && grant.state == GrantState::Active
            && grant.permissions & required == required,
        None => false,
    }
}

/// Whether the grant is active on the watch, allows everything that is
/// required and is the user's.
pub open spec fn uid_allowed(
    grants: Seq<Grant>,
    watch_id: [u8; 16],
    grant_id: [u8; 16],
    required: u8,
    uid: u32,
) -> bool {
    match row(grants, grant_id) {
        Some(grant) => grant.watch_id == watch_id && grant.state == GrantState::Active
            && grant.permissions & required == required && grant.principal == Principal::Uid(
            uid as u64,
        ),
        None => false,
    }
}

/// Finds the active grant on the watch.
pub fn find_active_grant(grants: &Vec<Grant>, watch_id: &[u8; 16], grant_id: &[u8; 16]) -> (at:
    Option<usize>)
    ensures
        match at {
            Some(at) => grant_active(grants@, *watch_id, *grant_id) && at < grants@.len() && row(
                grants@,
                *grant_id,
            ) == Some(grants@[at as int]) && place(grants@, *grant_id)
                == Some(at as int),
            None => !grant_active(grants@, *watch_id, *grant_id),
        },
{
    match find(grants, grant_id) {
        Some(at) => if same_array(&grants[at].watch_id, watch_id) && grants[at].state
            == GrantState::Active {
            Some(at)
        } else {
            None
        },
        None => None,
    }
}

/// Whether the grant is active on the watch and allows everything that is
/// required.
pub fn is_allowed(
    grants: &Vec<Grant>,
    watch_id: &[u8; 16],
    grant_id: &[u8; 16],
    required: u8,
) -> (allowed: bool)
    ensures
        allowed == grant_allows(grants@, *watch_id, *grant_id, required),
{
    match find_active_grant(grants, watch_id, grant_id) {
        Some(at) => grants[at].permissions & required == required,
        None => false,
    }
}

/// Whether the grant is active on the watch, allows everything that is
/// required and is the user's.
pub fn is_uid_allowed(
    grants: &Vec<Grant>,
    watch_id: &[u8; 16],
    grant_id: &[u8; 16],
    required: u8,
    uid: u32,
) -> (allowed: bool)
    ensures
        allowed == uid_allowed(grants@, *watch_id, *grant_id, required, uid),
{
    match find_active_grant(grants, watch_id, grant_id) {
        Some(at) => grants[at].permissions & required == required
            && grants[at].principal.is_uid(uid as u64),
        None => false,
    }
}

/// Whether the operation is held by the owner at the fence.
pub open spec fn held(operation: Operation, owner: [u8; 16], fence: i64) -> bool {
    operation.lease_owner == Some(owner) && operation.lease_fence == fence
}

/// Whether the operation is held by the owner at the fence.
pub fn is_held(operation: &Operation, owner: &[u8; 16], fence: i64) -> (is_held: bool)
    ensures
        is_held == held(*operation, *owner, fence),
{
    holds(&operation.lease_owner, owner) && operation.lease_fence == fence
}

} // verus!
