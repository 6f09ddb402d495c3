//! The exclusive right to change which trees of a filesystem are watched, and
//! the rule it protects: no worktree lies in a watched tree.

use crate::manager::cuts::{claimable, is_claimable};
use crate::manager::rows::{TopologyLease, Watch, WatchState, Worktree, WorktreeState};
use crate::manager::table::{any, find_number, numbered, slot, some};
use crate::manager::types::{holds, path_is_same_or_descendant, same_or_below};
use vstd::prelude::*;

verus! {

/// Whether the topology of a filesystem can be claimed.
pub open spec fn topology_free(
    leases: Seq<TopologyLease>,
    filesystem_id: i64,
    lease_owner: [u8; 16],
    now_ns: i64,
) -> bool {
    match numbered(leases, filesystem_id) {
        Some(lease) => claimable(lease.lease_owner, lease.lease_expires_ns, lease_owner, now_ns),
        None => false,
    }
}

/// Whether the topology of a filesystem is held by the owner at the fence.
pub open spec fn topology_held(
    leases: Seq<TopologyLease>,
    filesystem_id: i64,
    lease_owner: [u8; 16],
    fence: i64,
) -> bool {
    match numbered(leases, filesystem_id) {
        Some(lease) => lease.lease_owner == Some(lease_owner) && lease.lease_fence == fence,
        None => false,
    }
}

/// Finds the topology lease of a filesystem, if it can be claimed.
pub fn find_topology_free(
    leases: &Vec<TopologyLease>,
    filesystem_id: i64,
    lease_owner: &[u8; 16],
    now_ns: i64,
) -> (at: Option<usize>)
    ensures
        match at {
            Some(at) => topology_free(leases@, filesystem_id, *lease_owner, now_ns) && at
                < leases@.len() && slot(leases@, filesystem_id) == Some(at as int),
            None => !topology_free(leases@, filesystem_id, *lease_owner, now_ns),
        },
{
    match find_number(leases, filesystem_id) {
        Some(at) => if is_claimable(
            &leases[at].lease_owner,
            leases[at].lease_expires_ns,
            lease_owner,
            now_ns,
        ) {
            Some(at)
        } else {
            None
        },
        None => None,
    }
}

/// Finds the topology lease of a filesystem, if it is held by the owner at the
/// fence.
pub fn find_topology_held(
    leases: &Vec<TopologyLease>,
    filesystem_id: i64,
    lease_owner: &[u8; 16],
    fence: i64,
) -> (at: Option<usize>)
    ensures
        match at {
            Some(at) => topology_held(leases@, filesystem_id, *lease_owner, fence) && at
                < leases@.len() && slot(leases@, filesystem_id) == Some(at as int),
            None => !topology_held(leases@, filesystem_id, *lease_owner, fence),
        },
{
    match find_number(leases, filesystem_id) {
        Some(at) => if holds(&leases[at].lease_owner, lease_owner) && leases[at].lease_fence
            == fence {
            Some(at)
        } else {
            None
        },
        None => None,
    }
}

/// The worktrees of a filesystem, deleted ones aside, at or below the path.
pub open spec fn worktree_inside(filesystem_id: i64, path: Seq<u8>) -> spec_fn(Worktree) -> bool {
    |worktree: Worktree|
        worktree.filesystem_id == filesystem_id && worktree.state != WorktreeState::Deleted
            && same_or_below(worktree.path@, path)
}

/// The watches of a filesystem, deleted ones aside, at or above the path.
pub open spec fn watch_around(filesystem_id: i64, path: Seq<u8>) -> spec_fn(Watch) -> bool {
    |watch: Watch|
        watch.filesystem_id == filesystem_id && watch.state != WatchState::Deleted
            && same_or_below(path, watch.live_path@)
}

/// Whether some worktree of the filesystem lies at or below the path.
pub fn contains_worktree(worktrees: &Vec<Worktree>, filesystem_id: i64, path: &[u8]) -> (found:
    bool)
    ensures
        found == some(worktrees@, worktree_inside(filesystem_id, path@)),
{
    let test = |worktree: &Worktree| -> (picked: bool)
        ensures
            picked == worktree_inside(filesystem_id, path@)(*worktree),
        {
            worktree.filesystem_id == filesystem_id && worktree.state != WorktreeState::Deleted
                && path_is_same_or_descendant(&worktree.path, path)
        };
    any(worktrees, test, Ghost(worktree_inside(filesystem_id, path@)))
}

/// Whether the path lies at or below some watch of the filesystem.
pub fn lies_in_watch(watches: &Vec<Watch>, filesystem_id: i64, path: &[u8]) -> (found: bool)
    ensures
        found == some(watches@, watch_around(filesystem_id, path@)),
{
    let test = |watch: &Watch| -> (picked: bool)
        ensures
            picked == watch_around(filesystem_id, path@)(*watch),
        {
            watch.filesystem_id == filesystem_id && watch.state != WatchState::Deleted
                && path_is_same_or_descendant(path, &watch.live_path)
        };
    any(watches, test, Ghost(watch_around(filesystem_id, path@)))
}

} // verus!
