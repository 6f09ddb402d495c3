//! The manager's bookkeeping: watches, grants, cuts, revisions, worktrees and
//! the leases that protect them.

pub mod cloning;
pub mod compact;
pub mod comparing;
pub mod counting;
pub mod cuts;
pub mod cutting;
pub mod delta;
pub mod ending;
pub mod facade;
pub mod facing;
pub mod fencing;
pub mod floor;
pub mod fresh;
pub mod gaps;
pub mod grants;
pub mod hashes;
pub mod history;
pub mod holding;
pub mod initialize;
pub mod keeping;
pub mod letting;
pub mod loading;
pub mod metadata;
pub mod opening;
pub mod owing;
pub mod owners;
pub mod pins;
pub mod provenance;
pub mod publish;
pub mod queries;
pub mod reaching;
pub mod reading;
pub mod recounting;
pub mod recovery;
pub mod retention;
pub mod revisions;
pub mod rows;
pub mod running;
pub mod stage;
pub mod subset;
pub mod summaries;
pub mod summary;
pub mod table;
pub mod telling;
pub mod thinning;
pub mod topology;
pub mod triggers;
pub mod types;
pub mod undoing;
pub mod waiting;
pub mod worktrees;

pub use crate::manager::rows::Store;
pub use crate::manager::types::{
    path_is_same_or_descendant, worktree_policy_hash, CutAdmission, CutRequest, CutReservation,
    FacadeActivation, GuardCursor, HistoricalChanges, HistoricalComparisonAdmission,
    HistoricalComparisonClaim, HistoricalComparisonRequest, InitializeRequest,
    InitializeReservation, InitializedWatch, ManagerError, MutationHint, Permissions, Principal,
    ProvedWorktreeSeed, PublishedCut, QueryLeaseReservation, RecordedSnapshot, RecoveryReport,
    RetentionLease, SnapshotDeleteReservation, SnapshotIdentity, TrackedWorktree, TriggerRun,
    WorktreePolicy, WorktreeRequest, WorktreeReservation, PERMISSION_CUT, PERMISSION_READ,
    PERMISSION_RETAIN, PERMISSION_TRIGGER, PERMISSION_WORKTREE,
};
#[allow(unused_imports)]
use vstd::prelude::*;
